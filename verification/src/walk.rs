//! The walk policy: which ancestor a walk over the ancestor chain
//! reports, given what the filesystem shows of each ancestor.
//!
//! The chain is indexed from the starting directory outward: index 0 is
//! the starting directory itself, the last index is the filesystem root.
//! What the walk may learn of an ancestor is an [`AncestorInfo`]: the
//! device its path lives on (`None` when the metadata query failed) and
//! whether a marker entry exists directly inside it.
//!
//! Policy choices, made deliberately:
//! - A failed metadata query on any ancestor, the starting directory
//!   included, is a hard [`Outcome::StatError`], never an implicit
//!   boundary crossing.
//! - Crossing a device boundary with a candidate already recorded
//!   reports that candidate; crossing without one fails with
//!   [`Outcome::BoundaryCrossed`].

use vstd::prelude::*;

verus! {

/// Which qualifying ancestor the walk reports when several match:
/// the nearest to the starting directory, or the nearest to the
/// filesystem root.
#[derive(Clone, Copy, Debug, PartialEq, Eq)]
pub enum Mode {
    Closest,
    Farthest,
}

/// One ancestor as the walk observes it.
#[derive(Clone, Copy, Debug, PartialEq, Eq)]
pub struct AncestorInfo {
    /// Device identifier of the volume the ancestor lives on; `None`
    /// when the metadata query failed.
    pub dev: Option<u64>,
    /// Whether a marker entry exists directly inside the ancestor.
    pub has_marker: bool,
}

/// What a finished walk reports. Indices refer to the ancestor chain:
/// 0 is the starting directory, higher is closer to the filesystem root.
#[derive(Clone, Copy, Debug, PartialEq, Eq)]
pub enum Outcome {
    /// The ancestor at this index is the reported project root.
    Found(usize),
    /// The chain was exhausted and no ancestor qualified.
    NotFound,
    /// The ancestor at this index could not be queried for metadata.
    StatError(usize),
    /// The walk left the starting volume before any ancestor qualified.
    BoundaryCrossed,
}

/// The report when the chain is exhausted: the recorded candidate, or
/// absence.
pub open spec fn finish(cand: Option<usize>) -> Outcome {
    match cand {
        Option::Some(c) => Outcome::Found(c),
        Option::None => Outcome::NotFound,
    }
}

/// The rest of the walk from ancestor `pos` on, before `pos` has been
/// checked against the baseline. `baseline` is the device of the
/// starting directory when boundary checking is active, `None` when it
/// is not; `cand` is the best qualifying ancestor recorded so far.
pub open spec fn walk_from(
    infos: Seq<AncestorInfo>,
    baseline: Option<u64>,
    mode: Mode,
    pos: int,
    cand: Option<usize>,
) -> Outcome
    decreases infos.len() - pos, 1int,
{
    if pos < 0 || pos >= infos.len() {
        finish(cand)
    } else {
        match baseline {
            Option::Some(b) => match infos[pos].dev {
                Option::None => Outcome::StatError(pos as usize),
                Option::Some(d) => if d != b {
                    match cand {
                        Option::Some(c) => Outcome::Found(c),
                        Option::None => Outcome::BoundaryCrossed,
                    }
                } else {
                    walk_marker(infos, baseline, mode, pos, cand)
                },
            },
            Option::None => walk_marker(infos, baseline, mode, pos, cand),
        }
    }
}

/// The rest of the walk from ancestor `pos` on, after `pos` has passed
/// the boundary check: test `pos` for a marker, then continue outward.
pub open spec fn walk_marker(
    infos: Seq<AncestorInfo>,
    baseline: Option<u64>,
    mode: Mode,
    pos: int,
    cand: Option<usize>,
) -> Outcome
    decreases infos.len() - pos, 0int,
{
    if pos < 0 || pos >= infos.len() {
        finish(cand)
    } else if infos[pos].has_marker {
        match mode {
            Mode::Closest => Outcome::Found(pos as usize),
            Mode::Farthest => walk_from(infos, baseline, mode, pos + 1, Option::Some(pos as usize)),
        }
    } else {
        walk_from(infos, baseline, mode, pos + 1, cand)
    }
}

/// The outcome of a complete walk over the ancestor chain.
/// `check_boundary` is the negation of the span-file-systems flag: when
/// set, the device of the starting directory is the baseline and the
/// walk refuses to leave its volume.
pub open spec fn walk_outcome(infos: Seq<AncestorInfo>, check_boundary: bool, mode: Mode) -> Outcome {
    if infos.len() == 0 {
        Outcome::NotFound
    } else if check_boundary {
        match infos[0].dev {
            Option::None => Outcome::StatError(0),
            Option::Some(b) => walk_from(infos, Option::Some(b), mode, 0, Option::None),
        }
    } else {
        walk_from(infos, Option::None, mode, 0, Option::None)
    }
}

/// Walks an already-gathered ancestor chain and reports the project
/// root under the given boundary policy and mode. Ancestor 0 must be
/// the starting directory; its device is the baseline when
/// `span_file_systems` is false.
pub fn find_project_root(infos: &Vec<AncestorInfo>, span_file_systems: bool, mode: Mode) -> (r: Outcome)
    ensures
        r == walk_outcome(infos@, !span_file_systems, mode),
{
    if infos.len() == 0 {
        return Outcome::NotFound;
    }
    let baseline: Option<u64> = if !span_file_systems {
        match infos[0].dev {
            Option::None => {
                return Outcome::StatError(0);
            },
            Option::Some(b) => Option::Some(b),
        }
    } else {
        Option::None
    };
    let mut pos: usize = 0;
    let mut cand: Option<usize> = Option::None;
    while pos < infos.len()
        invariant
            0 <= pos <= infos@.len(),
            walk_from(infos@, baseline, mode, pos as int, cand) == walk_outcome(
                infos@,
                !span_file_systems,
                mode,
            ),
        decreases infos@.len() - pos,
    {
        if let Option::Some(b) = baseline {
            match infos[pos].dev {
                Option::None => {
                    return Outcome::StatError(pos);
                },
                Option::Some(d) => {
                    if d != b {
                        return match cand {
                            Option::Some(c) => Outcome::Found(c),
                            Option::None => Outcome::BoundaryCrossed,
                        };
                    }
                },
            }
        }
        if infos[pos].has_marker {
            match mode {
                Mode::Closest => {
                    return Outcome::Found(pos);
                },
                Mode::Farthest => {
                    cand = Option::Some(pos);
                },
            }
        }
        pos = pos + 1;
    }
    match cand {
        Option::Some(c) => Outcome::Found(c),
        Option::None => Outcome::NotFound,
    }
}

proof fn lemma_walk_from_no_marker(infos: Seq<AncestorInfo>, baseline: Option<u64>, mode: Mode, pos: int)
    requires
        0 <= pos,
        forall|i: int| pos <= i < infos.len() ==> !(#[trigger] infos[i]).has_marker,
        forall|i: int|
            pos <= i < infos.len() ==> (baseline matches Option::Some(b) ==> (#[trigger] infos[i]).dev
                == Option::Some(b)),
    ensures
        walk_from(infos, baseline, mode, pos, Option::None) == Outcome::NotFound,
    decreases infos.len() - pos,
{
    if pos < infos.len() {
        lemma_walk_from_no_marker(infos, baseline, mode, pos + 1);
    }
}

/// Law: a walk that never meets a marker reports absence, not an error.
/// When boundary checking is off this needs nothing of the devices;
/// when it is on, it holds as long as every ancestor stays on the
/// starting volume and can be queried.
pub proof fn lemma_no_marker_no_root(infos: Seq<AncestorInfo>, check_boundary: bool, mode: Mode)
    requires
        forall|i: int| 0 <= i < infos.len() ==> !(#[trigger] infos[i]).has_marker,
        check_boundary ==> forall|i: int|
            0 <= i < infos.len() ==> (#[trigger] infos[i]).dev == infos[0].dev && infos[i].dev is Some,
    ensures
        walk_outcome(infos, check_boundary, mode) == Outcome::NotFound,
{
    if infos.len() > 0 {
        if check_boundary {
            let b = infos[0].dev->Some_0;
            lemma_walk_from_no_marker(infos, Option::Some(b), mode, 0);
        } else {
            lemma_walk_from_no_marker(infos, Option::None, mode, 0);
        }
    }
}

proof fn lemma_walk_from_boundary(infos: Seq<AncestorInfo>, b: u64, mode: Mode, pos: int, k: int)
    requires
        0 <= pos <= k < infos.len(),
        forall|i: int| 0 <= i < k ==> (#[trigger] infos[i]).dev == Option::Some(b),
        forall|i: int| 0 <= i < k ==> !(#[trigger] infos[i]).has_marker,
        infos[k].dev is Some,
        infos[k].dev != Option::Some(b),
    ensures
        walk_from(infos, Option::Some(b), mode, pos, Option::None) == Outcome::BoundaryCrossed,
    decreases k - pos,
{
    if pos < k {
        lemma_walk_from_boundary(infos, b, mode, pos + 1, k);
    }
}

/// Law: with boundary checking active, a walk that leaves the starting
/// volume before meeting any marker fails with `BoundaryCrossed`.
/// `k` is the first ancestor off the starting volume; everything before
/// it sits on the starting volume and carries no marker.
pub proof fn lemma_boundary_crossed_before_marker(infos: Seq<AncestorInfo>, mode: Mode, k: int)
    requires
        0 < k < infos.len(),
        forall|i: int| 0 <= i < k ==> (#[trigger] infos[i]).dev == infos[0].dev,
        forall|i: int| 0 <= i < k ==> !(#[trigger] infos[i]).has_marker,
        infos[0].dev is Some,
        infos[k].dev is Some,
        infos[k].dev != infos[0].dev,
    ensures
        walk_outcome(infos, true, mode) == Outcome::BoundaryCrossed,
{
    let b = infos[0].dev->Some_0;
    lemma_walk_from_boundary(infos, b, mode, 0, k);
}

proof fn lemma_walk_from_stat_error(infos: Seq<AncestorInfo>, b: u64, mode: Mode, pos: int, k: int)
    requires
        0 <= pos <= k < infos.len(),
        forall|i: int| 0 <= i < k ==> (#[trigger] infos[i]).dev == Option::Some(b),
        forall|i: int| 0 <= i < k ==> !(#[trigger] infos[i]).has_marker,
        infos[k].dev is None,
    ensures
        walk_from(infos, Option::Some(b), mode, pos, Option::None) == Outcome::StatError(k as usize),
    decreases k - pos,
{
    if pos < k {
        lemma_walk_from_stat_error(infos, b, mode, pos + 1, k);
    }
}

/// Law: with boundary checking active, an ancestor that cannot be
/// queried before any marker or boundary is met fails with `StatError`
/// naming it — the strict policy, never an implicit boundary crossing.
/// `k` is the first un-queryable ancestor; everything before it sits on
/// the starting volume and carries no marker.
pub proof fn lemma_stat_error_before_marker(infos: Seq<AncestorInfo>, mode: Mode, k: int)
    requires
        0 < k < infos.len(),
        forall|i: int| 0 <= i < k ==> (#[trigger] infos[i]).dev == infos[0].dev,
        forall|i: int| 0 <= i < k ==> !(#[trigger] infos[i]).has_marker,
        infos[0].dev is Some,
        infos[k].dev is None,
    ensures
        walk_outcome(infos, true, mode) == Outcome::StatError(k as usize),
{
    let b = infos[0].dev->Some_0;
    lemma_walk_from_stat_error(infos, b, mode, 0, k);
}

proof fn lemma_walk_from_closest(infos: Seq<AncestorInfo>, baseline: Option<u64>, pos: int, k: int)
    requires
        0 <= pos <= k < infos.len(),
        infos[k].has_marker,
        forall|i: int| 0 <= i < k ==> !(#[trigger] infos[i]).has_marker,
        forall|i: int|
            0 <= i <= k ==> (baseline matches Option::Some(b) ==> (#[trigger] infos[i]).dev
                == Option::Some(b)),
    ensures
        walk_from(infos, baseline, Mode::Closest, pos, Option::None) == Outcome::Found(k as usize),
    decreases k - pos,
{
    if pos < k {
        lemma_walk_from_closest(infos, baseline, pos + 1, k);
    }
}

/// Law: in `Closest` mode a walk that meets no stat failure and no
/// boundary reports the marked ancestor nearest to the start. `k` is
/// the first marked index.
pub proof fn lemma_closest_finds_first_marker(infos: Seq<AncestorInfo>, check_boundary: bool, k: int)
    requires
        0 <= k < infos.len(),
        infos[k].has_marker,
        forall|i: int| 0 <= i < k ==> !(#[trigger] infos[i]).has_marker,
        check_boundary ==> forall|i: int|
            0 <= i <= k ==> (#[trigger] infos[i]).dev == infos[0].dev && infos[i].dev is Some,
    ensures
        walk_outcome(infos, check_boundary, Mode::Closest) == Outcome::Found(k as usize),
{
    if check_boundary {
        let b = infos[0].dev->Some_0;
        lemma_walk_from_closest(infos, Option::Some(b), 0, k);
    } else {
        lemma_walk_from_closest(infos, Option::None, 0, k);
    }
}

proof fn lemma_walk_from_farthest(
    infos: Seq<AncestorInfo>,
    baseline: Option<u64>,
    pos: int,
    k: int,
    cand: Option<usize>,
)
    requires
        0 <= pos <= k < infos.len(),
        infos[k].has_marker,
        forall|i: int| k < i < infos.len() ==> !(#[trigger] infos[i]).has_marker,
        forall|i: int|
            0 <= i < infos.len() ==> (baseline matches Option::Some(b) ==> (#[trigger] infos[i]).dev
                == Option::Some(b)),
    ensures
        walk_from(infos, baseline, Mode::Farthest, pos, cand) == Outcome::Found(k as usize),
    decreases infos.len() - pos,
{
    if pos <= k {
        if infos[pos].has_marker {
            if pos == k {
                lemma_walk_from_no_cand_change(infos, baseline, pos + 1, Option::Some(k as usize));
            } else {
                lemma_walk_from_farthest(infos, baseline, pos + 1, k, Option::Some(pos as usize));
            }
        } else {
            lemma_walk_from_farthest(infos, baseline, pos + 1, k, cand);
        }
    }
}

proof fn lemma_walk_from_no_cand_change(
    infos: Seq<AncestorInfo>,
    baseline: Option<u64>,
    pos: int,
    cand: Option<usize>,
)
    requires
        0 <= pos,
        forall|i: int| pos <= i < infos.len() ==> !(#[trigger] infos[i]).has_marker,
        forall|i: int|
            pos <= i < infos.len() ==> (baseline matches Option::Some(b) ==> (#[trigger] infos[i]).dev
                == Option::Some(b)),
    ensures
        walk_from(infos, baseline, Mode::Farthest, pos, cand) == finish(cand),
    decreases infos.len() - pos,
{
    if pos < infos.len() {
        lemma_walk_from_no_cand_change(infos, baseline, pos + 1, cand);
    }
}

/// Law: in `Farthest` mode a walk that meets no stat failure and no
/// boundary reports the marked ancestor nearest to the filesystem root.
/// `k` is the last marked index.
pub proof fn lemma_farthest_finds_last_marker(infos: Seq<AncestorInfo>, check_boundary: bool, k: int)
    requires
        0 <= k < infos.len(),
        infos[k].has_marker,
        forall|i: int| k < i < infos.len() ==> !(#[trigger] infos[i]).has_marker,
        check_boundary ==> forall|i: int|
            0 <= i < infos.len() ==> (#[trigger] infos[i]).dev == infos[0].dev && infos[i].dev is Some,
    ensures
        walk_outcome(infos, check_boundary, Mode::Farthest) == Outcome::Found(k as usize),
{
    if check_boundary {
        let b = infos[0].dev->Some_0;
        lemma_walk_from_farthest(infos, Option::Some(b), 0, k, Option::None);
    } else {
        lemma_walk_from_farthest(infos, Option::None, 0, k, Option::None);
    }
}

} // verus!
