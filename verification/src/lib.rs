//! Locates the "project root" of a directory: the ancestor of a starting
//! directory that holds a version-control marker entry such as `.git`.
//!
//! The crate holds the decision logic only. A caller gathers the ancestor
//! chain and the filesystem facts about it (device numbers, marker
//! presence) and either hands them over at once ([`walk::find_project_root`])
//! or lets the step machine in [`walker`] ask for them one at a time, so
//! that no ancestor is examined beyond the one that settles the result.

pub mod markers;
pub mod walk;
pub mod walker;
