//! Per-entry decisions of the directory walk: ignore-directory matching and
//! the rule applied to every visited entry. The walk itself — reading
//! directories, following nothing but real entries — stays outside; these
//! functions decide, from plain values, what it does with each entry.

use vstd::prelude::*;
use crate::file_index::path_views;

verus! {

/// What the walk does with one visited entry.
#[derive(Clone, Copy, Debug, PartialEq, Eq, Structural)]
pub enum WalkStep {
    /// The cancellation flag was observed set: admit no further entry.
    Halt,
    /// A component of the entry's path names an ignored directory.
    SkipEntry,
    /// A regular file: dispatch a hashing task for it.
    HashFile,
    /// A directory or other non-file entry: traverse, never index.
    TraverseOnly,
}

/// Whether any path component is one of the ignored directory names,
/// matched by exact component string.
pub fn has_ignore_dir(components: &Vec<String>, ignore: &Vec<String>) -> (r: bool)
    ensures
        r == exists|i: int|
            0 <= i < components@.len() && path_views(ignore@).contains(components@[i]@),
{
    let n = components.len();
    let mut i: usize = 0;
    while i < n
        invariant
            n == components@.len(),
            i <= n,
            forall|k: int| 0 <= k < i ==> !path_views(ignore@).contains(components@[k]@),
        decreases n - i,
    {
        if crate::file_index::contains_path(ignore, &components[i]) {
            return true;
        }
        i = i + 1;
    }
    false
}

/// The step chosen for one visited entry, in the walk's fixed order: a set
/// cancellation flag halts the walk; an ignored directory component skips
/// the entry; a regular file is hashed; anything else is only traversed.
pub fn walk_step(cancel_seen: bool, in_ignored_dir: bool, is_file: bool) -> (s: WalkStep)
    ensures
        cancel_seen ==> s == WalkStep::Halt,
        !cancel_seen && in_ignored_dir ==> s == WalkStep::SkipEntry,
        !cancel_seen && !in_ignored_dir && is_file ==> s == WalkStep::HashFile,
        !cancel_seen && !in_ignored_dir && !is_file ==> s == WalkStep::TraverseOnly,
{
    if cancel_seen {
        WalkStep::Halt
    } else if in_ignored_dir {
        WalkStep::SkipEntry
    } else if is_file {
        WalkStep::HashFile
    } else {
        WalkStep::TraverseOnly
    }
}

} // verus!
