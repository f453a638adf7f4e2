//! The marker predicate: which entry names inside a directory make that
//! directory a project root.

use vstd::prelude::*;
use vstd::string::StringExecFns;

verus! {

/// A name signals a project root when it is one of the five conventional
/// version-control marker names. The match is exact and case-sensitive.
pub open spec fn is_marker_name(name: Seq<char>) -> bool {
    ||| name == ".git"@
    ||| name == "_darcs"@
    ||| name == ".hg"@
    ||| name == ".bzr"@
    ||| name == ".svn"@
}

/// A directory with these entries is a project root when at least one
/// entry carries a marker name. Only the names matter: whether an entry
/// is a plain file or a directory plays no part.
pub open spec fn has_marker(entries: Seq<String>) -> bool {
    exists|i: int| 0 <= i < entries.len() && is_marker_name(entries[i]@)
}

/// The five marker names, in their conventional order.
pub fn marker_names() -> (r: Vec<String>)
    ensures
        r@.len() == 5,
        r@[0]@ == ".git"@,
        r@[1]@ == "_darcs"@,
        r@[2]@ == ".hg"@,
        r@[3]@ == ".bzr"@,
        r@[4]@ == ".svn"@,
        forall|i: int| 0 <= i < r@.len() ==> is_marker_name(#[trigger] r@[i]@),
{
    let mut v: Vec<String> = Vec::new();
    v.push(String::from_str(".git"));
    v.push(String::from_str("_darcs"));
    v.push(String::from_str(".hg"));
    v.push(String::from_str(".bzr"));
    v.push(String::from_str(".svn"));
    v
}

/// True exactly when `name` is one of the five marker names.
pub fn name_is_marker(name: &String) -> (r: bool)
    ensures
        r == is_marker_name(name@),
{
    let git = String::from_str(".git");
    let darcs = String::from_str("_darcs");
    let hg = String::from_str(".hg");
    let bzr = String::from_str(".bzr");
    let svn = String::from_str(".svn");
    *name == git || *name == darcs || *name == hg || *name == bzr || *name == svn
}

/// True exactly when some entry name in `entries` is a marker name, so
/// that the directory holding those entries is a project root.
pub fn is_project_root(entries: &Vec<String>) -> (r: bool)
    ensures
        r == has_marker(entries@),
{
    let mut i: usize = 0;
    while i < entries.len()
        invariant
            0 <= i <= entries@.len(),
            forall|j: int| 0 <= j < i ==> !is_marker_name(#[trigger] entries@[j]@),
        decreases entries@.len() - i,
    {
        if name_is_marker(&entries[i]) {
            return true;
        }
        i = i + 1;
    }
    false
}

} // verus!
