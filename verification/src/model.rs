//! The mathematical model of a scan: what the index holds and how one entry
//! of the tree moves it.

use vstd::prelude::*;

verus! {

/// The number of files after which the path marker is set anew.
pub const SAMPLING_INTERVAL: u64 = 50;

/// What is known of one content hash: the size of the files that have it,
/// and how many of them were seen.
pub type Tally = (u64, u64);

/// The state of the files of one size.
pub enum Bucket {
    /// One file was seen, and it has not been hashed: its path.
    Deferred(Seq<char>),
    /// Two or more files were seen: the hashes found so far.
    Materialized(Map<Seq<char>, Tally>),
}

/// What the metadata of an entry says it is.
#[derive(Clone, Copy, Debug, PartialEq, Eq)]
pub enum EntryKind {
    /// The metadata could not be read.
    Unreadable,
    /// A symbolic link, which is never followed.
    Symlink,
    /// A directory.
    Directory,
    /// A regular file of the given size in bytes.
    File(u64),
}

/// What was read of an entry's metadata, without following a link.
#[derive(Clone, Copy, Debug, PartialEq, Eq)]
pub struct Metadata {
    /// The size in bytes.
    pub size: u64,
    pub is_dir: bool,
    pub is_symlink: bool,
}

/// The kind that `metadata` gives an entry: a link is a link whatever else
/// is said of it, and what is neither a link nor a directory is a file.
pub open spec fn kind_of(metadata: Option<Metadata>) -> EntryKind {
    match metadata {
        None => EntryKind::Unreadable,
        Some(m) => if m.is_symlink {
            EntryKind::Symlink
        } else if m.is_dir {
            EntryKind::Directory
        } else {
            EntryKind::File(m.size)
        },
    }
}

impl EntryKind {
    /// Classifies an entry by its metadata, `None` where it could not be read.
    pub fn of(metadata: Option<Metadata>) -> (kind: EntryKind)
        ensures
            kind == kind_of(metadata),
    {
        match metadata {
            None => EntryKind::Unreadable,
            Some(m) => if m.is_symlink {
                EntryKind::Symlink
            } else if m.is_dir {
                EntryKind::Directory
            } else {
                EntryKind::File(m.size)
            },
        }
    }
}

/// One entry of the tree together with all that was read for it.
pub struct Event {
    pub path: Seq<char>,
    pub kind: EntryKind,
    /// The hash of the entry's content, `None` where reading it failed.
    pub hash: Option<Seq<char>>,
    /// The hash of the file that waits in the bucket of this size, `None`
    /// where reading it failed.
    pub deferred_hash: Option<Seq<char>>,
}

/// The index and the totals of a scan.
pub struct ScanModel {
    pub buckets: Map<u64, Bucket>,
    pub files: int,
    pub bytes: int,
    pub unique_files: int,
    pub unique_bytes: int,
    pub marker: Seq<char>,
}

/// The state before anything was seen.
pub open spec fn initial() -> ScanModel {
    ScanModel {
        buckets: Map::empty(),
        files: 0,
        bytes: 0,
        unique_files: 0,
        unique_bytes: 0,
        marker: seq!['/'],
    }
}

/// The bucket of `size`, if there is one.
pub open spec fn bucket_of(s: ScanModel, size: u64) -> Option<Bucket> {
    if s.buckets.contains_key(size) {
        Some(s.buckets[size])
    } else {
        None
    }
}

/// 1 where `hash` is new to `known`, else 0.
pub open spec fn fresh(known: Map<Seq<char>, Tally>, hash: Seq<char>) -> int {
    if known.contains_key(hash) {
        0
    } else {
        1
    }
}

/// `known` after one more file of `size` with `hash`: a known hash occurs
/// once more, a new one enters with one occurrence.
pub open spec fn recorded(known: Map<Seq<char>, Tally>, hash: Seq<char>, size: u64) -> Map<
    Seq<char>,
    Tally,
> {
    if known.contains_key(hash) {
        known.insert(hash, (known[hash].0, (known[hash].1 + 1) as u64))
    } else {
        known.insert(hash, (size, 1u64))
    }
}

/// What a deferred bucket of `size` starts from when it is materialized: the
/// waiting file's hash where it could be had, nothing where it could not.
pub open spec fn seeded(size: u64, deferred_hash: Option<Seq<char>>) -> Map<Seq<char>, Tally> {
    match deferred_hash {
        Some(old_hash) => Map::empty().insert(old_hash, (size, 1u64)),
        None => Map::empty(),
    }
}

/// The bucket of `size` after a file of that size arrived.
pub open spec fn bucket_after(
    before: Option<Bucket>,
    path: Seq<char>,
    size: u64,
    hash: Option<Seq<char>>,
    deferred_hash: Option<Seq<char>>,
) -> Bucket {
    match before {
        None => Bucket::Deferred(path),
        Some(bucket) => match hash {
            None => bucket,
            Some(h) => match bucket {
                Bucket::Deferred(_) => Bucket::Materialized(
                    recorded(seeded(size, deferred_hash), h, size),
                ),
                Bucket::Materialized(known) => Bucket::Materialized(recorded(known, h, size)),
            },
        },
    }
}

/// How many hashes enter the index when a file of `size` arrives.
pub open spec fn gained(
    before: Option<Bucket>,
    size: u64,
    hash: Option<Seq<char>>,
    deferred_hash: Option<Seq<char>>,
) -> int {
    match (before, hash) {
        (Some(Bucket::Deferred(_)), Some(h)) => (if deferred_hash is Some {
            1int
        } else {
            0int
        }) + fresh(seeded(size, deferred_hash), h),
        (Some(Bucket::Materialized(known)), Some(h)) => fresh(known, h),
        _ => 0,
    }
}

/// The state after a regular file was seen.
pub open spec fn file_step(
    s: ScanModel,
    path: Seq<char>,
    size: u64,
    hash: Option<Seq<char>>,
    deferred_hash: Option<Seq<char>>,
) -> ScanModel {
    let before = bucket_of(s, size);
    let won = gained(before, size, hash, deferred_hash);
    ScanModel {
        buckets: s.buckets.insert(size, bucket_after(before, path, size, hash, deferred_hash)),
        files: s.files + 1,
        bytes: s.bytes + size,
        unique_files: s.unique_files + won,
        unique_bytes: s.unique_bytes + won * size,
        marker: if (s.files + 1) % (SAMPLING_INTERVAL as int) == 0 {
            path
        } else {
            s.marker
        },
    }
}

/// The state after one entry of the tree: only a regular file moves it.
pub open spec fn step(s: ScanModel, e: Event) -> ScanModel {
    match e.kind {
        EntryKind::File(size) => file_step(s, e.path, size, e.hash, e.deferred_hash),
        _ => s,
    }
}

/// The state after the entries of `events`, taken in order.
pub open spec fn replay(s: ScanModel, events: Seq<Event>) -> ScanModel
    decreases events.len(),
{
    if events.len() == 0 {
        s
    } else {
        step(replay(s, events.drop_last()), events.last())
    }
}

/// Whether `hash` is recorded among the files of `size`.
pub open spec fn knows(s: ScanModel, size: u64, hash: Seq<char>) -> bool {
    &&& s.buckets.contains_key(size)
    &&& s.buckets[size] is Materialized
    &&& s.buckets[size]->Materialized_0.contains_key(hash)
}

/// What is recorded of `hash` among the files of `size`.
pub open spec fn tally(s: ScanModel, size: u64, hash: Seq<char>) -> Tally {
    s.buckets[size]->Materialized_0[hash]
}

/// The invariant of a scan: a bucket is there only once a file was seen, and
/// every tally stands in the bucket of its own size, and counts at least one
/// file and no more than were seen.
pub open spec fn consistent(s: ScanModel) -> bool {
    &&& 0 <= s.files
    &&& forall|size: u64| #[trigger] s.buckets.contains_key(size) ==> 1 <= s.files
    &&& forall|size: u64, hash: Seq<char>| #[trigger]
        knows(s, size, hash) ==> {
            &&& tally(s, size, hash).0 == size
            &&& 1 <= tally(s, size, hash).1 <= s.files
        }
}

/// Whether the four totals fit the machine's counters.
pub open spec fn in_range(s: ScanModel) -> bool {
    &&& 0 <= s.files <= u64::MAX
    &&& 0 <= s.bytes <= u64::MAX
    &&& 0 <= s.unique_files <= u64::MAX
    &&& 0 <= s.unique_bytes <= u64::MAX
}

} // verus!
