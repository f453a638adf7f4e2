//! The step machine: the walk of [`crate::walk`] carried out one
//! filesystem question at a time.
//!
//! A driver creates a [`Walker`] over an ancestor chain of known length,
//! performs the [`Action`] the walker asks for — query metadata, or
//! check for marker entries — and hands the observation back as an
//! [`Event`]. No ancestor is examined beyond the one that settles the
//! walk, exactly as a walk interleaved with the filesystem would behave.
//!
//! The machine is pinned to the walk policy: [`Walker::resume`] names
//! the outcome a state is bound for, every faithful step preserves it
//! ([`lemma_step_preserves_outcome`]), and a finished run reports
//! [`crate::walk::walk_outcome`] ([`lemma_walker_matches_walk`]).

use vstd::prelude::*;

use crate::walk::AncestorInfo;
use crate::walk::Mode;
use crate::walk::Outcome;
use crate::walk::finish;
use crate::walk::walk_from;
use crate::walk::walk_marker;
use crate::walk::walk_outcome;

verus! {

/// What the driver must do next.
#[derive(Clone, Copy, Debug, PartialEq, Eq)]
pub enum Action {
    /// Query the metadata of ancestor `i` and answer with [`Event::Dev`].
    StatDir(usize),
    /// Check ancestor `i` for marker entries and answer with
    /// [`Event::Marker`].
    CheckDir(usize),
    /// The walk is settled; this is its outcome.
    Finish(Outcome),
}

/// What the driver observed for the ancestor it was asked about.
#[derive(Clone, Copy, Debug, PartialEq, Eq)]
pub enum Event {
    /// The device the ancestor lives on; `None` when the metadata query
    /// failed.
    Dev(Option<u64>),
    /// Whether a marker entry exists directly inside the ancestor.
    Marker(bool),
}

/// Where in the walk the machine stands.
#[derive(Clone, Copy, Debug, PartialEq, Eq)]
pub enum Phase {
    /// Waiting for the device of the starting directory, which becomes
    /// the baseline for boundary checking.
    Baseline,
    /// Waiting for the device of the ancestor at `pos`.
    Stat,
    /// Waiting for the marker check of the ancestor at `pos`.
    Marker,
    /// The walk is settled.
    Done(Outcome),
}

/// The walk of [`crate::walk`], suspended between two filesystem
/// questions.
#[derive(Clone, Copy, Debug)]
pub struct Walker {
    /// Length of the ancestor chain; ancestor 0 is the starting
    /// directory.
    pub n: usize,
    /// Which qualifying ancestor to report.
    pub mode: Mode,
    /// Whether the walk refuses to leave the starting volume.
    pub check_boundary: bool,
    /// Device of the starting directory, once learned.
    pub baseline: Option<u64>,
    /// Best qualifying ancestor recorded so far.
    pub cand: Option<usize>,
    /// The ancestor the next question is about.
    pub pos: usize,
    /// Where in the walk the machine stands.
    pub phase: Phase,
}

impl Walker {
    /// The state makes sense: positions stay inside the chain and each
    /// phase only occurs with the fields it relies on.
    pub open spec fn inv(self) -> bool {
        &&& (self.phase is Baseline ==> self.check_boundary && self.pos == 0 && self.cand is None
            && self.baseline is None && self.n > 0)
        &&& (self.phase is Stat ==> self.check_boundary && self.baseline is Some && self.pos
            < self.n)
        &&& (self.phase is Marker ==> self.pos < self.n && (self.check_boundary
            <==> self.baseline is Some))
    }

    /// The event kind the machine is waiting for.
    pub open spec fn wants(self, e: Event) -> bool {
        match self.phase {
            Phase::Baseline => e is Dev,
            Phase::Stat => e is Dev,
            Phase::Marker => e is Marker,
            Phase::Done(_) => false,
        }
    }

    /// The event faithfully reports what the filesystem model `infos`
    /// holds of the ancestor the machine asked about.
    pub open spec fn consistent_event(self, e: Event, infos: Seq<AncestorInfo>) -> bool {
        match self.phase {
            Phase::Baseline => e == Event::Dev(infos[0].dev),
            Phase::Stat => e == Event::Dev(infos[self.pos as int].dev),
            Phase::Marker => e == Event::Marker(infos[self.pos as int].has_marker),
            Phase::Done(_) => false,
        }
    }

    /// The outcome this state is bound for, over the model `infos`.
    pub open spec fn resume(self, infos: Seq<AncestorInfo>) -> Outcome {
        match self.phase {
            Phase::Baseline => walk_outcome(infos, true, self.mode),
            Phase::Stat => walk_from(infos, self.baseline, self.mode, self.pos as int, self.cand),
            Phase::Marker => walk_marker(
                infos,
                self.baseline,
                self.mode,
                self.pos as int,
                self.cand,
            ),
            Phase::Done(o) => o,
        }
    }

    /// A fresh walker over a chain of `n` ancestors, and the first
    /// action of the walk.
    pub open spec fn new_spec(n: usize, span_file_systems: bool, mode: Mode) -> (Walker, Action) {
        let base = Walker {
            n,
            mode,
            check_boundary: !span_file_systems,
            baseline: Option::None,
            cand: Option::None,
            pos: 0,
            phase: Phase::Baseline,
        };
        if n == 0 {
            (
                Walker { phase: Phase::Done(Outcome::NotFound), ..base },
                Action::Finish(Outcome::NotFound),
            )
        } else if !span_file_systems {
            (base, Action::StatDir(0))
        } else {
            (Walker { phase: Phase::Marker, ..base }, Action::CheckDir(0))
        }
    }

    /// The walk once the ancestor at `self.pos` is dealt with: move to
    /// the next ancestor with the candidate `cand`, or settle the walk
    /// when the chain is exhausted.
    pub open spec fn advance_spec(self, cand: Option<usize>) -> (Walker, Action) {
        let next = (self.pos + 1) as usize;
        if next == self.n {
            (
                Walker { cand, pos: next, phase: Phase::Done(finish(cand)), ..self },
                Action::Finish(finish(cand)),
            )
        } else if self.check_boundary {
            (Walker { cand, pos: next, phase: Phase::Stat, ..self }, Action::StatDir(next))
        } else {
            (Walker { cand, pos: next, phase: Phase::Marker, ..self }, Action::CheckDir(next))
        }
    }

    /// One step of the walk: what the machine becomes, and what it asks
    /// next, when the event `e` answers its pending question.
    pub open spec fn step_spec(self, e: Event) -> (Walker, Action) {
        match self.phase {
            Phase::Baseline => match e {
                Event::Dev(Option::None) => (
                    Walker { phase: Phase::Done(Outcome::StatError(0)), ..self },
                    Action::Finish(Outcome::StatError(0)),
                ),
                Event::Dev(Option::Some(b)) => (
                    Walker { baseline: Option::Some(b), phase: Phase::Stat, ..self },
                    Action::StatDir(0),
                ),
                // never reached: the machine is only stepped with the
                // event kind it asked for
                Event::Marker(_) => (self, Action::Finish(Outcome::NotFound)),
            },
            Phase::Stat => match e {
                Event::Dev(Option::None) => (
                    Walker { phase: Phase::Done(Outcome::StatError(self.pos)), ..self },
                    Action::Finish(Outcome::StatError(self.pos)),
                ),
                Event::Dev(Option::Some(d)) => if Option::Some(d) != self.baseline {
                    let o = match self.cand {
                        Option::Some(c) => Outcome::Found(c),
                        Option::None => Outcome::BoundaryCrossed,
                    };
                    (Walker { phase: Phase::Done(o), ..self }, Action::Finish(o))
                } else {
                    (Walker { phase: Phase::Marker, ..self }, Action::CheckDir(self.pos))
                },
                Event::Marker(_) => (self, Action::Finish(Outcome::NotFound)),
            },
            Phase::Marker => match e {
                Event::Marker(true) => match self.mode {
                    Mode::Closest => (
                        Walker { phase: Phase::Done(Outcome::Found(self.pos)), ..self },
                        Action::Finish(Outcome::Found(self.pos)),
                    ),
                    Mode::Farthest => self.advance_spec(Option::Some(self.pos)),
                },
                Event::Marker(false) => self.advance_spec(self.cand),
                Event::Dev(_) => (self, Action::Finish(Outcome::NotFound)),
            },
            Phase::Done(o) => (self, Action::Finish(o)),
        }
    }

    /// A fresh walker over a chain of `n` ancestors. Perform the
    /// returned action first, then answer each question through
    /// [`Walker::step`] until the action is [`Action::Finish`].
    pub fn new(n: usize, span_file_systems: bool, mode: Mode) -> (r: (Walker, Action))
        ensures
            r == Walker::new_spec(n, span_file_systems, mode),
            r.0.inv(),
            r.0.n == n,
            (r.1 matches Action::StatDir(i) ==> i < n),
            (r.1 matches Action::CheckDir(i) ==> i < n),
    {
        let base = Walker {
            n,
            mode,
            check_boundary: !span_file_systems,
            baseline: Option::None,
            cand: Option::None,
            pos: 0,
            phase: Phase::Baseline,
        };
        if n == 0 {
            (
                Walker { phase: Phase::Done(Outcome::NotFound), ..base },
                Action::Finish(Outcome::NotFound),
            )
        } else if !span_file_systems {
            (base, Action::StatDir(0))
        } else {
            (Walker { phase: Phase::Marker, ..base }, Action::CheckDir(0))
        }
    }

    /// Whether the walk is settled.
    pub fn is_done(&self) -> (r: bool)
        ensures
            r == (self.phase is Done),
    {
        match self.phase {
            Phase::Done(_) => true,
            _ => false,
        }
    }

    /// Whether the machine is waiting for a device observation; when
    /// false and not settled, it waits for a marker observation.
    pub fn wants_dev(&self) -> (r: bool)
        ensures
            r == (self.phase is Baseline || self.phase is Stat),
    {
        match self.phase {
            Phase::Baseline => true,
            Phase::Stat => true,
            _ => false,
        }
    }

    /// Answer the machine's pending question and receive the next
    /// action.
    pub fn step(self, e: Event) -> (r: (Walker, Action))
        requires
            self.inv(),
            self.wants(e),
        ensures
            r == self.step_spec(e),
            r.0.inv(),
            r.0.n == self.n,
            (r.1 matches Action::StatDir(i) ==> i < self.n),
            (r.1 matches Action::CheckDir(i) ==> i < self.n),
    {
        match self.phase {
            Phase::Baseline => match e {
                Event::Dev(Option::None) => (
                    Walker { phase: Phase::Done(Outcome::StatError(0)), ..self },
                    Action::Finish(Outcome::StatError(0)),
                ),
                Event::Dev(Option::Some(b)) => (
                    Walker { baseline: Option::Some(b), phase: Phase::Stat, ..self },
                    Action::StatDir(0),
                ),
                Event::Marker(_) => (self, Action::Finish(Outcome::NotFound)),
            },
            Phase::Stat => match e {
                Event::Dev(Option::None) => (
                    Walker { phase: Phase::Done(Outcome::StatError(self.pos)), ..self },
                    Action::Finish(Outcome::StatError(self.pos)),
                ),
                Event::Dev(Option::Some(d)) => {
                    let crossed = match self.baseline {
                        Option::Some(b) => d != b,
                        Option::None => false,
                    };
                    if crossed {
                        let o = match self.cand {
                            Option::Some(c) => Outcome::Found(c),
                            Option::None => Outcome::BoundaryCrossed,
                        };
                        (Walker { phase: Phase::Done(o), ..self }, Action::Finish(o))
                    } else {
                        (Walker { phase: Phase::Marker, ..self }, Action::CheckDir(self.pos))
                    }
                },
                Event::Marker(_) => (self, Action::Finish(Outcome::NotFound)),
            },
            Phase::Marker => match e {
                Event::Marker(true) => match self.mode {
                    Mode::Closest => (
                        Walker { phase: Phase::Done(Outcome::Found(self.pos)), ..self },
                        Action::Finish(Outcome::Found(self.pos)),
                    ),
                    Mode::Farthest => self.advance(Option::Some(self.pos)),
                },
                Event::Marker(false) => self.advance(self.cand),
                Event::Dev(_) => (self, Action::Finish(Outcome::NotFound)),
            },
            Phase::Done(o) => (self, Action::Finish(o)),
        }
    }

    /// Move past the ancestor at `self.pos` with the candidate `cand`.
    fn advance(self, cand: Option<usize>) -> (r: (Walker, Action))
        requires
            self.pos < self.n,
            self.phase is Marker,
            self.check_boundary <==> self.baseline is Some,
        ensures
            r == self.advance_spec(cand),
            r.0.inv(),
            r.0.n == self.n,
    {
        let next = self.pos + 1;
        if next == self.n {
            let o = match cand {
                Option::Some(c) => Outcome::Found(c),
                Option::None => Outcome::NotFound,
            };
            (Walker { cand, pos: next, phase: Phase::Done(o), ..self }, Action::Finish(o))
        } else if self.check_boundary {
            (Walker { cand, pos: next, phase: Phase::Stat, ..self }, Action::StatDir(next))
        } else {
            (Walker { cand, pos: next, phase: Phase::Marker, ..self }, Action::CheckDir(next))
        }
    }
}

/// Law: one faithful step neither changes nor loses the walk's eventual
/// outcome, and a `Finish` action reports exactly that outcome.
pub proof fn lemma_step_preserves_outcome(w: Walker, e: Event, infos: Seq<AncestorInfo>)
    requires
        w.inv(),
        w.n == infos.len(),
        w.consistent_event(e, infos),
    ensures
        w.step_spec(e).0.inv(),
        w.step_spec(e).0.n == infos.len(),
        w.step_spec(e).0.resume(infos) == w.resume(infos),
        (w.step_spec(e).1 matches Action::Finish(o) ==> o == w.resume(infos)),
        (w.step_spec(e).1 matches Action::Finish(o) ==> w.step_spec(e).0.phase == Phase::Done(o)),
{
}

/// The machine after the whole event sequence has been played into it.
pub open spec fn run_steps(w: Walker, events: Seq<Event>) -> Walker
    decreases events.len(),
{
    if events.len() == 0 {
        w
    } else {
        run_steps(w.step_spec(events[0]).0, events.drop_first())
    }
}

/// Every event of the sequence faithfully answers, in turn, the question
/// the machine is asking when the event arrives.
pub open spec fn consistent_run(w: Walker, events: Seq<Event>, infos: Seq<AncestorInfo>) -> bool
    decreases events.len(),
{
    events.len() == 0 || (w.consistent_event(events[0], infos) && consistent_run(
        w.step_spec(events[0]).0,
        events.drop_first(),
        infos,
    ))
}

/// Law: the walk is deterministic. However its steps are interleaved
/// with other work, a run whose events faithfully report one unchanged
/// filesystem model keeps the walk's eventual outcome fixed.
pub proof fn lemma_run_preserves_outcome(w: Walker, events: Seq<Event>, infos: Seq<AncestorInfo>)
    requires
        w.inv(),
        w.n == infos.len(),
        consistent_run(w, events, infos),
    ensures
        run_steps(w, events).inv(),
        run_steps(w, events).n == infos.len(),
        run_steps(w, events).resume(infos) == w.resume(infos),
    decreases events.len(),
{
    if events.len() > 0 {
        lemma_step_preserves_outcome(w, events[0], infos);
        lemma_run_preserves_outcome(w.step_spec(events[0]).0, events.drop_first(), infos);
    }
}

/// Law: a fresh walker is bound for exactly the walk policy's verdict on
/// the model, and when the chain is empty it is already settled on
/// absence.
pub proof fn lemma_new_outcome(n: usize, span_file_systems: bool, mode: Mode, infos: Seq<AncestorInfo>)
    requires
        infos.len() == n,
    ensures
        Walker::new_spec(n, span_file_systems, mode).0.inv(),
        Walker::new_spec(n, span_file_systems, mode).0.n == infos.len(),
        Walker::new_spec(n, span_file_systems, mode).0.resume(infos) == walk_outcome(
            infos,
            !span_file_systems,
            mode,
        ),
{
}

/// Law: the walker is idempotent. Any run of a fresh walker whose events
/// faithfully report the unchanged filesystem model `infos` and that
/// reaches a settled state reports `walk_outcome(infos, ..)` — so
/// repeated invocations with identical inputs and an unchanged
/// filesystem produce identical results, and the step machine agrees
/// with [`crate::walk::find_project_root`].
pub proof fn lemma_walker_matches_walk(
    n: usize,
    span_file_systems: bool,
    mode: Mode,
    events: Seq<Event>,
    infos: Seq<AncestorInfo>,
)
    requires
        infos.len() == n,
        consistent_run(Walker::new_spec(n, span_file_systems, mode).0, events, infos),
    ensures
        (run_steps(Walker::new_spec(n, span_file_systems, mode).0, events).phase matches Phase::Done(o)
            ==> o == walk_outcome(infos, !span_file_systems, mode)),
{
    lemma_new_outcome(n, span_file_systems, mode, infos);
    lemma_run_preserves_outcome(Walker::new_spec(n, span_file_systems, mode).0, events, infos);
}

} // verus!
