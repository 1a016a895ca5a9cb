//! A directory tree as a value, and the order in which a scan visits it.

use crate::model::{EntryKind, Event};
use vstd::prelude::*;

verus! {

/// A directory tree as the scan finds it on disk.
pub enum Tree {
    /// An entry that is no directory, with what was read for it.
    Leaf(Event),
    /// A directory: its path, whether an exclusion pattern matches that
    /// path, and its entries in the order in which they are listed.
    Directory { path: Seq<char>, excluded: bool, entries: Seq<Tree> },
}

/// The event that stands for a directory at `path`.
pub open spec fn directory_event(path: Seq<char>) -> Event {
    Event { path, kind: EntryKind::Directory, hash: None, deferred_hash: None }
}

/// The entries that a scan of `tree` observes, in order: depth first, each
/// directory before what it holds, and nothing of what an excluded
/// directory holds.
pub open spec fn visited(tree: Tree) -> Seq<Event>
    decreases tree, 0nat,
{
    match tree {
        Tree::Leaf(e) => seq![e],
        Tree::Directory { path, excluded, entries } => if excluded {
            seq![directory_event(path)]
        } else {
            seq![directory_event(path)] + visited_among(entries, entries.len())
        },
    }
}

/// The entries that a scan observes in the first `n` trees of `trees`.
pub open spec fn visited_among(trees: Seq<Tree>, n: nat) -> Seq<Event>
    decreases trees, n,
{
    if n == 0 || n > trees.len() {
        Seq::empty()
    } else {
        visited_among(trees, (n - 1) as nat) + visited(trees[n - 1])
    }
}

} // verus!
