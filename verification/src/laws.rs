//! What holds of every scan.

use crate::model::{
    consistent, file_step, initial, knows, replay, step, EntryKind, Event, ScanModel,
};
use crate::tree::{visited, Tree};
use vstd::prelude::*;

verus! {

/// 1 for a regular file, 0 for any other entry.
pub open spec fn files_of(e: Event) -> int {
    match e.kind {
        EntryKind::File(_) => 1,
        _ => 0,
    }
}

/// The size of a regular file, 0 for any other entry.
pub open spec fn bytes_of(e: Event) -> int {
    match e.kind {
        EntryKind::File(size) => size as int,
        _ => 0,
    }
}

/// The number of regular files among `events`.
pub open spec fn seen_files(events: Seq<Event>) -> int
    decreases events.len(),
{
    if events.len() == 0 {
        0
    } else {
        seen_files(events.drop_last()) + files_of(events.last())
    }
}

/// The sizes of the regular files among `events`, added up.
pub open spec fn seen_bytes(events: Seq<Event>) -> int
    decreases events.len(),
{
    if events.len() == 0 {
        0
    } else {
        seen_bytes(events.drop_last()) + bytes_of(events.last())
    }
}

/// The pairs of a size and a hash that the index holds.
pub open spec fn known_hashes(s: ScanModel) -> Set<(u64, Seq<char>)> {
    Set::new(|pair: (u64, Seq<char>)| knows(s, pair.0, pair.1))
}

/// Adds the size of a pair of size and hash to a sum.
pub open spec fn add_size() -> spec_fn(int, (u64, Seq<char>)) -> int {
    |sum: int, pair: (u64, Seq<char>)| sum + pair.0
}

/// The sizes under which the index holds a hash, added up over its hashes.
pub open spec fn known_bytes(s: ScanModel) -> int {
    known_hashes(s).fold(0int, add_size())
}

/// Whether the distinct contents counted are the hashes that the index
/// holds: their number is the number of hashes, their bytes the sizes of the
/// hashes added up.
pub open spec fn counted_once(s: ScanModel) -> bool {
    &&& known_hashes(s).finite()
    &&& known_hashes(s).len() == s.unique_files
    &&& known_bytes(s) == s.unique_bytes
}

/// The files and bytes seen are those of the regular files among the
/// entries, whatever became of their hashes; links, directories and entries
/// without metadata add nothing.
pub proof fn law_seen_totals(s: ScanModel, events: Seq<Event>)
    ensures
        replay(s, events).files == s.files + seen_files(events),
        replay(s, events).bytes == s.bytes + seen_bytes(events),
    decreases events.len(),
{
    if events.len() > 0 {
        law_seen_totals(s, events.drop_last());
    }
}

/// Taking one entry out takes its file and its bytes from what is seen.
proof fn lemma_seen_without(events: Seq<Event>, i: int)
    requires
        0 <= i < events.len(),
    ensures
        seen_files(events) == seen_files(events.remove(i)) + files_of(events[i]),
        seen_bytes(events) == seen_bytes(events.remove(i)) + bytes_of(events[i]),
    decreases events.len(),
{
    if i == events.len() - 1 {
        assert(events.remove(i) =~= events.drop_last());
    } else {
        lemma_seen_without(events.drop_last(), i);
        assert(events.remove(i).drop_last() =~= events.drop_last().remove(i));
        assert(events.remove(i).last() == events.last());
    }
}

/// The same entries in another order hold the same files and bytes.
proof fn lemma_seen_permuted(first: Seq<Event>, second: Seq<Event>)
    requires
        first.to_multiset() == second.to_multiset(),
    ensures
        seen_files(first) == seen_files(second),
        seen_bytes(first) == seen_bytes(second),
    decreases first.len(),
{
    broadcast use vstd::multiset::group_multiset_axioms;

    vstd::seq_lib::to_multiset_len(first);
    vstd::seq_lib::to_multiset_len(second);
    if first.len() > 0 {
        let e = first.last();
        let rest = first.drop_last();
        assert(first =~= rest.push(e));
        vstd::seq_lib::to_multiset_build(rest, e);
        vstd::seq_lib::to_multiset_contains(second, e);
        assert(second.contains(e));
        let i = choose|i: int| 0 <= i < second.len() && second[i] == e;
        vstd::seq_lib::to_multiset_remove(second, i);
        assert(rest.to_multiset() =~= second.remove(i).to_multiset());
        lemma_seen_permuted(rest, second.remove(i));
        lemma_seen_without(second, i);
    }
}

/// The files and bytes seen do not depend on the order in which the entries
/// of the tree are listed.
pub proof fn law_order_does_not_move_what_was_seen(
    s: ScanModel,
    first: Seq<Event>,
    second: Seq<Event>,
)
    requires
        first.to_multiset() == second.to_multiset(),
    ensures
        replay(s, first).files == replay(s, second).files,
        replay(s, first).bytes == replay(s, second).bytes,
{
    law_seen_totals(s, first);
    law_seen_totals(s, second);
    lemma_seen_permuted(first, second);
}

/// An entry that is no regular file leaves the index and every total as
/// they were.
pub proof fn law_only_files_count(s: ScanModel, e: Event)
    requires
        !(e.kind is File),
    ensures
        step(s, e) == s,
{
}

/// No total ever falls.
pub proof fn law_totals_never_fall(s: ScanModel, e: Event)
    ensures
        step(s, e).files >= s.files,
        step(s, e).bytes >= s.bytes,
        step(s, e).unique_files >= s.unique_files,
        step(s, e).unique_bytes >= s.unique_bytes,
{
    if let EntryKind::File(size) = e.kind {
        let won = step(s, e).unique_files - s.unique_files;
        assert(0 <= won <= 2);
        assert(won * size >= 0) by (nonlinear_arith)
            requires
                won >= 0,
                size >= 0,
        ;
    }
}

/// There are no more regular files among `events` than entries.
pub proof fn law_seen_files_bounded(events: Seq<Event>)
    ensures
        0 <= seen_files(events) <= events.len(),
    decreases events.len(),
{
    if events.len() > 0 {
        law_seen_files_bounded(events.drop_last());
    }
}

/// One entry keeps the invariant of a scan, as long as the number of files
/// fits its counter.
pub proof fn law_step_keeps_consistent(s: ScanModel, e: Event)
    requires
        consistent(s),
        s.files < u64::MAX,
    ensures
        consistent(step(s, e)),
{
    let t = step(s, e);
    if let EntryKind::File(size) = e.kind {
        assert forall|k: u64, h: Seq<char>| #[trigger] knows(t, k, h) implies {
            &&& crate::model::tally(t, k, h).0 == k
            &&& 1 <= crate::model::tally(t, k, h).1 <= t.files
        } by {
            if k == size {
                if s.buckets.contains_key(size) {
                    if s.buckets[size] is Materialized && s.buckets[size]->Materialized_0.contains_key(
                        h,
                    ) {
                        assert(knows(s, size, h));
                    }
                }
            } else {
                assert(knows(s, k, h));
            }
        }
        assert forall|k: u64| #[trigger] t.buckets.contains_key(k) implies 1 <= t.files by {
            if k != size {
                assert(s.buckets.contains_key(k));
            }
        }
    }
}

/// Every state that a scan reaches from the start keeps the invariant, as
/// long as the number of entries fits the counter of files.
pub proof fn law_replay_consistent(events: Seq<Event>)
    requires
        events.len() <= u64::MAX,
    ensures
        consistent(replay(initial(), events)),
    decreases events.len(),
{
    if events.len() > 0 {
        law_replay_consistent(events.drop_last());
        law_seen_totals(initial(), events.drop_last());
        law_seen_files_bounded(events.drop_last());
        law_step_keeps_consistent(replay(initial(), events.drop_last()), events.last());
    }
}

/// A hash is counted when it enters the index and never again: a file whose
/// hash the bucket of its size holds already moves neither the number nor
/// the bytes of distinct contents, and one whose hash is new to a
/// materialized bucket moves them by one and by its size. Afterwards the
/// bucket holds the hash.
pub proof fn law_hash_counted_on_entry(
    s: ScanModel,
    path: Seq<char>,
    size: u64,
    hash: Seq<char>,
    deferred_hash: Option<Seq<char>>,
)
    requires
        s.buckets.contains_key(size),
    ensures
        knows(file_step(s, path, size, Some(hash), deferred_hash), size, hash),
        knows(s, size, hash) ==> {
            &&& file_step(s, path, size, Some(hash), deferred_hash).unique_files == s.unique_files
            &&& file_step(s, path, size, Some(hash), deferred_hash).unique_bytes == s.unique_bytes
        },
        s.buckets[size] is Materialized && !knows(s, size, hash) ==> {
            &&& file_step(s, path, size, Some(hash), deferred_hash).unique_files == s.unique_files
                + 1
            &&& file_step(s, path, size, Some(hash), deferred_hash).unique_bytes == s.unique_bytes
                + size
        },
{
}

/// When the second file of a size arrives, the hash of the first enters the
/// index with it where it could be had, and each of the two hashes is
/// counted once: one content where they agree, two where they differ. Where
/// the first file's hash could not be had, only the second is counted.
pub proof fn law_materialization_counts_each_hash_once(
    s: ScanModel,
    path: Seq<char>,
    size: u64,
    hash: Seq<char>,
    deferred_hash: Option<Seq<char>>,
)
    requires
        s.buckets.contains_key(size),
        s.buckets[size] is Deferred,
    ensures
        ({
            let t = file_step(s, path, size, Some(hash), deferred_hash);
            &&& t.buckets[size] is Materialized
            &&& forall|h: Seq<char>|
                knows(t, size, h) <==> (h == hash || deferred_hash == Some(h))
            &&& t.unique_files == s.unique_files + (if deferred_hash is None || deferred_hash
                == Some(hash) {
                1int
            } else {
                2int
            })
            &&& t.unique_bytes == s.unique_bytes + (if deferred_hash is None || deferred_hash
                == Some(hash) {
                size as int
            } else {
                2 * size
            })
        }),
{
    let t = file_step(s, path, size, Some(hash), deferred_hash);
    let won = t.unique_files - s.unique_files;
    assert(won == 1 ==> won * size == size);
    assert(won == 2 ==> won * size == 2 * size);
    assert forall|h: Seq<char>| knows(t, size, h) <==> (h == hash || deferred_hash == Some(h)) by {
        let base = crate::model::seeded(size, deferred_hash);
        assert(t.buckets[size]->Materialized_0 == crate::model::recorded(base, hash, size));
    }
}

/// One entry keeps the distinct contents counted equal to the hashes in
/// the index, in number and in bytes.
pub proof fn law_step_counts_once(s: ScanModel, e: Event)
    requires
        counted_once(s),
    ensures
        counted_once(step(s, e)),
{
    let t = step(s, e);
    if let EntryKind::File(size) = e.kind {
        let before = known_hashes(s);
        let won = t.unique_files - s.unique_files;
        assert(won == 0 ==> won * size == 0);
        assert(won == 1 ==> won * size == size);
        assert(won == 2 ==> won * size == 2 * size);
        assert(vstd::set::fold::is_fun_commutative(add_size()));
        if !s.buckets.contains_key(size) || e.hash is None {
            assert(known_hashes(t) =~= before);
        } else {
            let h = e.hash->Some_0;
            if s.buckets[size] is Materialized {
                assert(known_hashes(t) =~= before.insert((size, h)));
                if before.contains((size, h)) {
                    assert(before.insert((size, h)) =~= before);
                } else {
                    vstd::set::fold::lemma_fold_insert(before, 0int, add_size(), (size, h));
                }
            } else {
                assert forall|g: Seq<char>| !before.contains((size, g)) by {}
                match e.deferred_hash {
                    Some(o) => {
                        let seeded = before.insert((size, o));
                        assert(known_hashes(t) =~= seeded.insert((size, h)));
                        vstd::set::fold::lemma_fold_insert(before, 0int, add_size(), (size, o));
                        if o == h {
                            assert(seeded.insert((size, h)) =~= seeded);
                        } else {
                            vstd::set::fold::lemma_fold_insert(
                                seeded,
                                0int,
                                add_size(),
                                (size, h),
                            );
                        }
                    },
                    None => {
                        assert(known_hashes(t) =~= before.insert((size, h)));
                        vstd::set::fold::lemma_fold_insert(before, 0int, add_size(), (size, h));
                    },
                }
            }
        }
    }
}

/// At every state that a scan reaches from the start, each hash in the index
/// was counted exactly once, with the size of its files.
pub proof fn law_replay_counts_once(events: Seq<Event>)
    ensures
        counted_once(replay(initial(), events)),
    decreases events.len(),
{
    if events.len() == 0 {
        assert(known_hashes(initial()) =~= Set::<(u64, Seq<char>)>::empty());
        vstd::set::fold::lemma_fold_empty::<(u64, Seq<char>), int>(0int, add_size());
    } else {
        law_replay_counts_once(events.drop_last());
        law_step_counts_once(replay(initial(), events.drop_last()), events.last());
    }
}

/// A scan of a single entry is one step.
pub proof fn law_replay_one(s: ScanModel, e: Event)
    ensures
        replay(s, seq![e]) == step(s, e),
{
    assert(seq![e].drop_last() =~= Seq::<Event>::empty());
    assert(replay(s, seq![e].drop_last()) == s);
    assert(seq![e].last() == e);
}

/// An excluded directory is visited as if it were empty, wherever it
/// stands, and a scan of it leaves the index and every total as they were,
/// whatever lies beneath it.
pub proof fn law_excluded_subtree_counts_nothing(
    s: ScanModel,
    path: Seq<char>,
    entries: Seq<Tree>,
)
    ensures
        visited(Tree::Directory { path, excluded: true, entries }) == visited(
            Tree::Directory { path, excluded: true, entries: Seq::empty() },
        ),
        replay(s, visited(Tree::Directory { path, excluded: true, entries })) == s,
{
    law_replay_one(s, crate::tree::directory_event(path));
}

/// A symbolic link leaves the index and every total as they were.
pub proof fn law_links_count_nothing(s: ScanModel, e: Event)
    requires
        e.kind is Symlink,
    ensures
        step(s, e) == s,
        replay(s, visited(Tree::Leaf(e))) == s,
{
    law_replay_one(s, e);
}

/// A scan of a directory without entries ends with every total at zero and
/// nothing in the index.
pub proof fn law_empty_tree(path: Seq<char>, excluded: bool)
    ensures
        replay(initial(), visited(Tree::Directory { path, excluded, entries: Seq::empty() }))
            == initial(),
        initial().files == 0,
        initial().bytes == 0,
        initial().unique_files == 0,
        initial().unique_bytes == 0,
        initial().buckets == Map::<u64, crate::model::Bucket>::empty(),
{
    let tree = Tree::Directory { path, excluded, entries: Seq::empty() };
    assert(crate::tree::visited_among(Seq::<Tree>::empty(), 0) =~= Seq::<Event>::empty());
    assert(visited(tree) =~= seq![crate::tree::directory_event(path)]);
    law_replay_one(initial(), crate::tree::directory_event(path));
}

/// Two scans of one tree, in which every read gives what it gave before, end
/// with the same index and the same totals.
pub proof fn law_scan_is_repeatable(first: Tree, second: Tree)
    requires
        first == second,
    ensures
        replay(initial(), visited(first)) == replay(initial(), visited(second)),
{
}

} // verus!
