use project_root::markers::is_project_root;
use project_root::markers::marker_names;
use project_root::markers::name_is_marker;

fn entries(names: &[&str]) -> Vec<String> {
    names.iter().map(|s| s.to_string()).collect()
}

#[test]
fn test_is_project_root_git() {
    assert!(!is_project_root(&entries(&[])));
    assert!(is_project_root(&entries(&[".git"])));
}

#[test]
fn test_is_project_root_svn() {
    assert!(!is_project_root(&entries(&[])));
    assert!(is_project_root(&entries(&[".svn"])));
}

#[test]
fn test_each_marker_name_qualifies() {
    for name in [".git", "_darcs", ".hg", ".bzr", ".svn"] {
        assert!(is_project_root(&entries(&[name])), "{name} should qualify");
        assert!(name_is_marker(&name.to_string()), "{name} is a marker name");
    }
}

#[test]
fn test_non_marker_names_do_not_qualify() {
    for name in ["", ".Git", "git", ".gitx", "x.git", ".sv", "darcs", ".GIT"] {
        assert!(!name_is_marker(&name.to_string()), "{name} is no marker name");
    }
    assert!(!is_project_root(&entries(&["src", "Cargo.toml", ".github", "README.md"])));
}

#[test]
fn test_marker_among_ordinary_entries() {
    assert!(is_project_root(&entries(&["src", "Cargo.toml", "_darcs", "README.md"])));
    assert!(is_project_root(&entries(&["a", ".hg"])));
    assert!(is_project_root(&entries(&[".bzr"])));
}

#[test]
fn test_marker_names_list() {
    let names = marker_names();
    let expect = [".git", "_darcs", ".hg", ".bzr", ".svn"];
    assert_eq!(names.len(), expect.len());
    for (got, want) in names.iter().zip(expect.iter()) {
        assert_eq!(got, want);
    }
}
