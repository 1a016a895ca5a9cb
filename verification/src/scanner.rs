//! The index of sizes and hashes, and the scan that fills it.

use crate::filter::{excludes, is_excluded};
use crate::model::{
    bucket_of, consistent, file_step, gained, in_range, knows, recorded, step, tally, Bucket,
    EntryKind, Event, ScanModel,
};
use crate::stat::Stat;
use regex::Regex;
use std::collections::HashMap;
use vstd::hash_map::StringHashMap;
use vstd::prelude::*;

verus! {

/// What the index holds for one file size.
pub enum SizeState {
    /// The path of the only file of this size so far; it was not hashed.
    Lazy(String),
    /// For each hash found among the files of this size, their size and
    /// their number.
    Evaled(StringHashMap<(u64, u64)>),
}

impl View for SizeState {
    type V = Bucket;

    open spec fn view(&self) -> Bucket {
        match self {
            SizeState::Lazy(path) => Bucket::Deferred(path@),
            SizeState::Evaled(known) => Bucket::Materialized(known@),
        }
    }
}

/// One entry of a directory, as its metadata describes it.
#[derive(Debug)]
pub struct Entry {
    pub path: String,
    pub kind: EntryKind,
}

/// The hashes that have to be computed before an entry can be observed.
#[derive(Debug, PartialEq, Eq)]
pub enum Need {
    /// None.
    Nothing,
    /// That of the entry itself.
    Hash,
    /// That of the entry itself and, where it could be had, that of the
    /// file at the given path, which waits in the bucket of the same size.
    HashBoth(String),
}

/// What became of a regular file.
#[derive(Clone, Copy, Debug, PartialEq, Eq)]
pub enum Verdict {
    /// The first file of its size: kept back without hashing.
    Held,
    /// Its content could not be hashed: it is in no bucket.
    Unreadable,
    /// Its hash was known already.
    Duplicate,
    /// Its hash is new.
    Fresh,
}

/// The result of observing a regular file.
#[derive(Debug, PartialEq, Eq)]
pub struct Outcome {
    pub verdict: Verdict,
    /// The path of the one file whose content could not be hashed, if there
    /// is one: a diagnostic is due for it.
    pub lost: Option<String>,
}

/// What to do with an entry once it was observed.
#[derive(Debug, PartialEq, Eq)]
pub enum Visit {
    /// A symbolic link: nothing.
    Ignored,
    /// Unreadable metadata: a diagnostic is due.
    Failed,
    /// An excluded directory: nothing below it is visited; a diagnostic is due.
    Pruned,
    /// A directory to be listed and walked.
    Descend,
    /// A regular file, which was counted.
    Counted(Outcome),
}

/// The verdict on a file of `size` that arrives at a state with the bucket `before`.
pub open spec fn verdict_of(before: Option<Bucket>, size: u64, e: Event) -> Verdict {
    match before {
        None => Verdict::Held,
        Some(bucket) => match e.hash {
            None => Verdict::Unreadable,
            Some(h) => match bucket {
                Bucket::Deferred(_) => if e.deferred_hash == Some(h) {
                    Verdict::Duplicate
                } else {
                    Verdict::Fresh
                },
                Bucket::Materialized(known) => if known.contains_key(h) {
                    Verdict::Duplicate
                } else {
                    Verdict::Fresh
                },
            },
        },
    }
}

/// The path for which a diagnostic is due when a file of `size` arrives: the
/// file's own where its hash failed, the waiting file's where that failed.
pub open spec fn lost_of(before: Option<Bucket>, e: Event) -> Option<Seq<char>> {
    match before {
        None => None,
        Some(bucket) => match e.hash {
            None => Some(e.path),
            Some(_) => match bucket {
                Bucket::Deferred(waiting) => if e.deferred_hash is None {
                    Some(waiting)
                } else {
                    None
                },
                Bucket::Materialized(_) => None,
            },
        },
    }
}

/// The view of an optional path.
pub open spec fn path_view(path: Option<String>) -> Option<Seq<char>> {
    match path {
        Some(p) => Some(p@),
        None => None,
    }
}

/// The index of a scan together with its totals.
pub struct Scanner {
    /// For each file size seen, the state of its files.
    pub index: HashMap<u64, SizeState>,
    /// The totals so far.
    pub stat: Stat,
}

impl View for Scanner {
    type V = ScanModel;

    open spec fn view(&self) -> ScanModel {
        ScanModel {
            buckets: Map::new(
                |size: u64| self.index@.contains_key(size),
                |size: u64| self.index@[size]@,
            ),
            files: self.stat.count as int,
            bytes: self.stat.size as int,
            unique_files: self.stat.unique_count as int,
            unique_bytes: self.stat.unique_size as int,
            marker: self.stat.curr_path@,
        }
    }
}

/// Records one more file of `size` with `hash` in `known`, and says whether
/// the hash was new.
fn record(known: &mut StringHashMap<(u64, u64)>, hash: String, size: u64) -> (is_new: bool)
    requires
        old(known)@.contains_key(hash@) ==> old(known)@[hash@].1 < u64::MAX,
    ensures
        final(known)@ == recorded(old(known)@, hash@, size),
        is_new == !old(known)@.contains_key(hash@),
{
    let found: Option<(u64, u64)> = match known.get(hash.as_str()) {
        Some(t) => Some((t.0, t.1)),
        None => None,
    };
    match found {
        Some(t) => {
            known.insert(hash, (t.0, t.1 + 1));
            false
        },
        None => {
            known.insert(hash, (size, 1));
            true
        },
    }
}

impl Scanner {
    /// Whether the index and the totals agree.
    pub open spec fn wf(&self) -> bool {
        consistent(self@)
    }

    /// The event that `observe` sees in the given arguments.
    pub open spec fn event(
        entry: Entry,
        hash: Option<String>,
        deferred_hash: Option<String>,
    ) -> Event {
        Event {
            path: entry.path@,
            kind: entry.kind,
            hash: path_view(hash),
            deferred_hash: path_view(deferred_hash),
        }
    }

    /// A scan that has seen nothing.
    pub fn new() -> (scanner: Scanner)
        ensures
            scanner@ == crate::model::initial(),
            scanner.wf(),
    {
        let scanner = Scanner { index: HashMap::new(), stat: Stat::new() };
        assert(scanner@.buckets =~= Map::<u64, Bucket>::empty());
        scanner
    }

    /// The hashes that `observe` will read for this entry. Only a regular
    /// file whose size was seen before needs any.
    pub fn demand(&self, entry: &Entry) -> (need: Need)
        ensures
            match need {
                Need::Nothing => !(entry.kind is File) || bucket_of(
                    self@,
                    entry.kind->File_0,
                ) is None,
                Need::Hash => entry.kind is File && bucket_of(self@, entry.kind->File_0) matches Some(
                    Bucket::Materialized(_),
                ),
                Need::HashBoth(waiting) => entry.kind is File && bucket_of(
                    self@,
                    entry.kind->File_0,
                ) == Some(Bucket::Deferred(waiting@)),
            },
    {
        match entry.kind {
            EntryKind::File(size) => {
                match self.index.get(&size) {
                    None => Need::Nothing,
                    Some(SizeState::Lazy(path)) => Need::HashBoth(path.clone()),
                    Some(SizeState::Evaled(_)) => Need::Hash,
                }
            },
            _ => Need::Nothing,
        }
    }

    /// Whether the four counters can take one more file of `size`, whatever
    /// its hashes turn out to be: one file, its bytes, and two contents of
    /// that size.
    pub open spec fn room_for(&self, size: u64) -> bool {
        &&& self.stat.count < u64::MAX
        &&& self.stat.size + size <= u64::MAX
        &&& self.stat.unique_count + 2 <= u64::MAX
        &&& self.stat.unique_size + 2 * size <= u64::MAX
    }

    /// Tests whether a file of `size` can be observed without a counter
    /// running over.
    pub fn has_room(&self, size: u64) -> (room: bool)
        ensures
            room == self.room_for(size),
            room ==> forall|path: Seq<char>, hash: Option<Seq<char>>, deferred: Option<Seq<char>>|
                in_range(#[trigger] file_step(self@, path, size, hash, deferred)),
    {
        let room = self.stat.count < u64::MAX && size <= u64::MAX - self.stat.size
            && self.stat.unique_count <= u64::MAX - 2 && size <= (u64::MAX
            - self.stat.unique_size) / 2;
        proof {
            if room {
                assert forall|path: Seq<char>, hash: Option<Seq<char>>, deferred: Option<Seq<char>>|
                    in_range(#[trigger] file_step(self@, path, size, hash, deferred)) by {
                    let won = gained(bucket_of(self@, size), size, hash, deferred);
                    assert(0 <= won <= 2);
                    assert(0 <= won * size <= 2 * size) by (nonlinear_arith)
                        requires
                            0 <= won <= 2,
                            0 <= size,
                    ;
                }
            }
        }
        room
    }

    /// Observes one entry of the tree, with the hashes that `demand` asked
    /// for. Only a regular file moves the scan; a symbolic link, an entry
    /// without metadata and a directory leave it as it was. A directory is
    /// held against the exclusion patterns, a file is not.
    pub fn observe(
        &mut self,
        excluded: &Vec<Regex>,
        entry: Entry,
        hash: Option<String>,
        deferred_hash: Option<String>,
    ) -> (visit: Visit)
        requires
            old(self).wf(),
            in_range(step(old(self)@, Self::event(entry, hash, deferred_hash))),
        ensures
            final(self).wf(),
            final(self)@ == step(old(self)@, Self::event(entry, hash, deferred_hash)),
            match visit {
                Visit::Ignored => entry.kind is Symlink,
                Visit::Failed => entry.kind is Unreadable,
                Visit::Pruned => entry.kind is Directory && excludes(excluded@, entry.path@),
                Visit::Descend => entry.kind is Directory && !excludes(excluded@, entry.path@),
                Visit::Counted(outcome) => {
                    &&& entry.kind is File
                    &&& outcome.verdict == verdict_of(
                        bucket_of(old(self)@, entry.kind->File_0),
                        entry.kind->File_0,
                        Self::event(entry, hash, deferred_hash),
                    )
                    &&& path_view(outcome.lost) == lost_of(
                        bucket_of(old(self)@, entry.kind->File_0),
                        Self::event(entry, hash, deferred_hash),
                    )
                },
            },
    {
        match entry.kind {
            EntryKind::Unreadable => Visit::Failed,
            EntryKind::Symlink => Visit::Ignored,
            EntryKind::Directory => {
                if is_excluded(excluded, entry.path.as_str()) {
                    Visit::Pruned
                } else {
                    Visit::Descend
                }
            },
            EntryKind::File(size) => Visit::Counted(
                self.absorb(entry.path, size, hash, deferred_hash),
            ),
        }
    }

    /// Counts a regular file and files it in the index.
    ///
    /// The first file of a size is kept back without hashing. The second
    /// turns the bucket into a map of hashes, seeded with the hash of the
    /// first where that could be had. A file whose own hash could not be had
    /// is counted as seen and leaves the index as it was.
    pub fn absorb(
        &mut self,
        path: String,
        size: u64,
        hash: Option<String>,
        deferred_hash: Option<String>,
    ) -> (outcome: Outcome)
        requires
            old(self).wf(),
            in_range(
                file_step(old(self)@, path@, size, path_view(hash), path_view(deferred_hash)),
            ),
        ensures
            final(self).wf(),
            final(self)@ == file_step(
                old(self)@,
                path@,
                size,
                path_view(hash),
                path_view(deferred_hash),
            ),
            outcome.verdict == verdict_of(
                bucket_of(old(self)@, size),
                size,
                Self::event(Entry { path, kind: EntryKind::File(size) }, hash, deferred_hash),
            ),
            path_view(outcome.lost) == lost_of(
                bucket_of(old(self)@, size),
                Self::event(Entry { path, kind: EntryKind::File(size) }, hash, deferred_hash),
            ),
    {
        broadcast use vstd::std_specs::hash::group_hash_axioms;

        let ghost before = self@;
        let ghost after = file_step(before, path@, size, path_view(hash), path_view(deferred_hash));
        self.stat.record_file(path.as_str(), size);
        if !self.index.contains_key(&size) {
            self.index.insert(size, SizeState::Lazy(path));
            proof {
                assert(self@.buckets =~= after.buckets);
                assert forall|k: u64, h: Seq<char>| #[trigger] knows(self@, k, h) implies {
                    &&& tally(self@, k, h).0 == k
                    &&& 1 <= tally(self@, k, h).1 <= self@.files
                } by {
                    assert(knows(before, k, h));
                }
            }
            return Outcome { verdict: Verdict::Held, lost: None };
        }
        let h = match hash {
            None => {
                proof {
                    assert(self@.buckets =~= after.buckets);
                    assert forall|k: u64, h: Seq<char>| #[trigger] knows(self@, k, h) implies {
                        &&& tally(self@, k, h).0 == k
                        &&& 1 <= tally(self@, k, h).1 <= self@.files
                    } by {
                        assert(knows(before, k, h));
                    }
                }
                return Outcome { verdict: Verdict::Unreadable, lost: Some(path) };
            },
            Some(h) => h,
        };
        let ghost hv = h@;
        let ghost won = gained(bucket_of(before, size), size, Some(hv), path_view(deferred_hash));
        proof {
            assert(0 <= won <= 2);
            assert(won == 0 ==> won * size == 0);
            assert(won == 1 ==> won * size == size);
            assert(won == 2 ==> won * size == 2 * size);
        }
        let state = self.index.remove(&size);
        let mut known: StringHashMap<(u64, u64)>;
        let mut lost: Option<String> = None;
        match state {
            None => {
                proof {
                    assert(false);
                }
                known = StringHashMap::new();
            },
            Some(SizeState::Lazy(waiting)) => {
                known = StringHashMap::new();
                match deferred_hash {
                    Some(old_hash) => {
                        known.insert(old_hash, (size, 1));
                        self.stat.record_unique(size);
                    },
                    None => {
                        lost = Some(waiting);
                    },
                }
            },
            Some(SizeState::Evaled(found)) => {
                known = found;
                proof {
                    if known@.contains_key(hv) {
                        assert(knows(before, size, hv));
                    }
                }
            },
        }
        let ghost base = known@;
        let is_new = record(&mut known, h, size);
        if is_new {
            self.stat.record_unique(size);
        }
        self.index.insert(size, SizeState::Evaled(known));
        proof {
            assert(self@.buckets =~= after.buckets);
            assert forall|k: u64, g: Seq<char>| #[trigger] knows(self@, k, g) implies {
                &&& tally(self@, k, g).0 == k
                &&& 1 <= tally(self@, k, g).1 <= self@.files
            } by {
                if k == size {
                    if g != hv && base.contains_key(g) && before.buckets[size] is Materialized {
                        assert(knows(before, size, g));
                    }
                    if g == hv && base.contains_key(g) && before.buckets[size] is Materialized {
                        assert(knows(before, size, g));
                    }
                } else {
                    assert(knows(before, k, g));
                }
            }
        }
        Outcome { verdict: if is_new { Verdict::Fresh } else { Verdict::Duplicate }, lost }
    }
}

} // verus!
