use project_root::walk::find_project_root;
use project_root::walk::AncestorInfo;
use project_root::walk::Mode;
use project_root::walk::Outcome;

fn chain(infos: &[(Option<u64>, bool)]) -> Vec<AncestorInfo> {
    infos.iter().map(|&(dev, has_marker)| AncestorInfo { dev, has_marker }).collect()
}

// The tree root/.git, root/foo, root/foo/bar/.git, walked from
// root/foo/bar on one volume: index 0 is bar, 1 is foo, 2 is root.
#[test]
fn test_find_project_root_mode() {
    let d = Some(7);
    let infos = chain(&[(d, true), (d, false), (d, true)]);
    let closest = find_project_root(&infos, false, Mode::Closest);
    assert_eq!(closest, Outcome::Found(0));
    let farthest = find_project_root(&infos, false, Mode::Farthest);
    assert_eq!(farthest, Outcome::Found(2));
}

// The same tree with only root/.git: both modes report root.
#[test]
fn test_only_outer_marker_either_mode() {
    let d = Some(7);
    let infos = chain(&[(d, false), (d, false), (d, true)]);
    assert_eq!(find_project_root(&infos, false, Mode::Closest), Outcome::Found(2));
    assert_eq!(find_project_root(&infos, false, Mode::Farthest), Outcome::Found(2));
    assert_eq!(find_project_root(&infos, true, Mode::Closest), Outcome::Found(2));
    assert_eq!(find_project_root(&infos, true, Mode::Farthest), Outcome::Found(2));
}

// No marker anywhere up to the filesystem root: absence, not an error.
#[test]
fn test_no_marker_reports_absence() {
    let d = Some(3);
    let infos = chain(&[(d, false), (d, false), (d, false), (d, false)]);
    assert_eq!(find_project_root(&infos, true, Mode::Closest), Outcome::NotFound);
    assert_eq!(find_project_root(&infos, true, Mode::Farthest), Outcome::NotFound);
    assert_eq!(find_project_root(&infos, false, Mode::Closest), Outcome::NotFound);
    assert_eq!(find_project_root(&infos, false, Mode::Farthest), Outcome::NotFound);
}

// The volume changes below any marker and crossing is disallowed.
#[test]
fn test_boundary_crossed_before_marker() {
    let infos = chain(&[(Some(1), false), (Some(1), false), (Some(2), true)]);
    assert_eq!(find_project_root(&infos, false, Mode::Closest), Outcome::BoundaryCrossed);
    assert_eq!(find_project_root(&infos, false, Mode::Farthest), Outcome::BoundaryCrossed);
    // With crossing allowed the marker beyond the boundary is reported.
    assert_eq!(find_project_root(&infos, true, Mode::Closest), Outcome::Found(2));
}

// A candidate recorded before the boundary is preferred over failing.
#[test]
fn test_boundary_returns_recorded_candidate() {
    let infos = chain(&[(Some(1), true), (Some(1), true), (Some(2), true)]);
    assert_eq!(find_project_root(&infos, false, Mode::Farthest), Outcome::Found(1));
    assert_eq!(find_project_root(&infos, false, Mode::Closest), Outcome::Found(0));
}

// The starting directory itself cannot be queried.
#[test]
fn test_stat_error_on_start() {
    let infos = chain(&[(None, true), (Some(1), true)]);
    assert_eq!(find_project_root(&infos, false, Mode::Closest), Outcome::StatError(0));
    // With boundary checking off the devices are never consulted.
    assert_eq!(find_project_root(&infos, true, Mode::Closest), Outcome::Found(0));
}

// An ancestor beyond the start cannot be queried: a hard error, not an
// implicit boundary.
#[test]
fn test_stat_error_on_ancestor() {
    let infos = chain(&[(Some(1), false), (None, false), (Some(1), true)]);
    assert_eq!(find_project_root(&infos, false, Mode::Closest), Outcome::StatError(1));
    assert_eq!(find_project_root(&infos, false, Mode::Farthest), Outcome::StatError(1));
    assert_eq!(find_project_root(&infos, true, Mode::Closest), Outcome::Found(2));
}

#[test]
fn test_empty_chain_reports_absence() {
    let infos = chain(&[]);
    assert_eq!(find_project_root(&infos, false, Mode::Closest), Outcome::NotFound);
    assert_eq!(find_project_root(&infos, true, Mode::Farthest), Outcome::NotFound);
}

// Identical inputs and an unchanged chain give identical results.
#[test]
fn test_walk_idempotent() {
    let d = Some(9);
    let infos = chain(&[(d, true), (d, false), (d, true), (Some(4), false)]);
    for mode in [Mode::Closest, Mode::Farthest] {
        for span in [false, true] {
            let first = find_project_root(&infos, span, mode);
            let second = find_project_root(&infos, span, mode);
            assert_eq!(first, second);
        }
    }
}
