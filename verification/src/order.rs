//! A scan in which every read succeeds, and why the order in which the
//! files are listed does not move its totals.

use crate::laws::{
    known_bytes, known_hashes, law_replay_counts_once, law_seen_totals, seen_bytes, seen_files,
};
use crate::model::{file_step, initial, replay, EntryKind, Event, ScanModel};
use vstd::prelude::*;

verus! {

/// A regular file as it lies on disk: its path, its size and the hash of
/// its content.
pub struct Content {
    pub path: Seq<char>,
    pub size: u64,
    pub hash: Seq<char>,
}

/// The weights of `files`, added up.
pub open spec fn sum_by(files: Seq<Content>, weight: spec_fn(Content) -> int) -> int
    decreases files.len(),
{
    if files.len() == 0 {
        0
    } else {
        sum_by(files.drop_last(), weight) + weight(files.last())
    }
}

/// 1 for a file of `size`, 0 for any other.
pub open spec fn is_of_size(size: u64) -> spec_fn(Content) -> int {
    |f: Content|
        if f.size == size {
            1int
        } else {
            0int
        }
}

/// The size of a file.
pub open spec fn size_of() -> spec_fn(Content) -> int {
    |f: Content| f.size as int
}

/// The number of files of `size` among `files`.
pub open spec fn of_size(files: Seq<Content>, size: u64) -> int {
    sum_by(files, is_of_size(size))
}

/// The hash of the first file of `size` among `files`.
pub open spec fn waiting_hash(files: Seq<Content>, size: u64) -> Option<Seq<char>>
    decreases files.len(),
{
    if files.len() == 0 {
        None
    } else {
        match waiting_hash(files.drop_last(), size) {
            Some(h) => Some(h),
            None => if files.last().size == size {
                Some(files.last().hash)
            } else {
                None
            },
        }
    }
}

/// What a scan reads for the file `f` after the files `earlier`, where no
/// read fails.
pub open spec fn read_of(earlier: Seq<Content>, f: Content) -> Event {
    Event {
        path: f.path,
        kind: EntryKind::File(f.size),
        hash: Some(f.hash),
        deferred_hash: waiting_hash(earlier, f.size),
    }
}

/// What a scan reads for `files`, taken in order, where no read fails.
pub open spec fn reads(files: Seq<Content>) -> Seq<Event>
    decreases files.len(),
{
    if files.len() == 0 {
        Seq::empty()
    } else {
        reads(files.drop_last()).push(read_of(files.drop_last(), files.last()))
    }
}

/// Whether a file of `size` with `hash` is among `files`.
pub open spec fn holds(files: Seq<Content>, size: u64, hash: Seq<char>) -> bool {
    exists|i: int|
        0 <= i < files.len() && (#[trigger] files[i]).size == size && files[i].hash == hash
}

/// The pairs of size and hash of the files whose size they share with
/// another file.
pub open spec fn settled(files: Seq<Content>) -> Set<(u64, Seq<char>)> {
    Set::new(|pair: (u64, Seq<char>)| of_size(files, pair.0) >= 2 && holds(files, pair.0, pair.1))
}

/// Whether the bucket of `size` in `s` is what the files of that size among
/// `files` make it: none where there is no such file, a deferred one where
/// there is one, and the hashes of them all where there are more.
pub open spec fn agrees_at(files: Seq<Content>, s: ScanModel, size: u64) -> bool {
    let n = of_size(files, size);
    &&& n >= 0
    &&& n == 0 ==> {
        &&& !s.buckets.contains_key(size)
        &&& waiting_hash(files, size) is None
        &&& forall|h: Seq<char>| !#[trigger] holds(files, size, h)
    }
    &&& n == 1 ==> {
        &&& s.buckets.contains_key(size)
        &&& s.buckets[size] is Deferred
        &&& waiting_hash(files, size) is Some
        &&& forall|h: Seq<char>| #[trigger]
            holds(files, size, h) <==> waiting_hash(files, size) == Some(h)
    }
    &&& n >= 2 ==> {
        &&& s.buckets.contains_key(size)
        &&& s.buckets[size] is Materialized
        &&& forall|h: Seq<char>| #[trigger]
            holds(files, size, h) <==> s.buckets[size]->Materialized_0.contains_key(h)
    }
}

/// A file is among `files` where it is the last or among the others.
proof fn lemma_holds_last(files: Seq<Content>, size: u64, hash: Seq<char>)
    requires
        files.len() > 0,
    ensures
        holds(files, size, hash) <==> (holds(files.drop_last(), size, hash) || (files.last().size
            == size && files.last().hash == hash)),
{
    let rest = files.drop_last();
    if holds(files, size, hash) {
        let i = choose|i: int|
            0 <= i < files.len() && (#[trigger] files[i]).size == size && files[i].hash == hash;
        if i < files.len() - 1 {
            assert(rest[i] == files[i]);
        }
    }
    if holds(rest, size, hash) {
        let j = choose|j: int|
            0 <= j < rest.len() && (#[trigger] rest[j]).size == size && rest[j].hash == hash;
        assert(files[j] == rest[j]);
    }
    if files.last().size == size && files.last().hash == hash {
        assert(files[files.len() - 1] == files.last());
    }
}

/// After a scan of `files` in which no read fails, every bucket is what the
/// files of its size make it.
pub proof fn law_index_follows_files(files: Seq<Content>)
    ensures
        forall|size: u64| #[trigger] agrees_at(files, replay(initial(), reads(files)), size),
    decreases files.len(),
{
    let t = replay(initial(), reads(files));
    if files.len() == 0 {
        assert forall|size: u64| #[trigger] agrees_at(files, t, size) by {}
    } else {
        let rest = files.drop_last();
        let f = files.last();
        let s = replay(initial(), reads(rest));
        let e = read_of(rest, f);
        law_index_follows_files(rest);
        assert(reads(files).drop_last() =~= reads(rest));
        assert(reads(files).last() == e);
        assert(t == file_step(s, f.path, f.size, Some(f.hash), waiting_hash(rest, f.size)));
        assert forall|size: u64| #[trigger] agrees_at(files, t, size) by {
            assert(agrees_at(rest, s, size));
            assert forall|h: Seq<char>|
                holds(files, size, h) <==> (holds(rest, size, h) || (f.size == size && f.hash
                    == h)) by {
                lemma_holds_last(files, size, h);
            }
            assert(of_size(files, size) == of_size(rest, size) + is_of_size(size)(f));
        }
    }
}

/// After a scan of `files` in which no read fails, the index holds the
/// hashes of the files that share their size with another, and no other.
pub proof fn law_index_holds_the_settled(files: Seq<Content>)
    ensures
        known_hashes(replay(initial(), reads(files))) == settled(files),
{
    let t = replay(initial(), reads(files));
    law_index_follows_files(files);
    assert forall|pair: (u64, Seq<char>)|
        known_hashes(t).contains(pair) <==> settled(files).contains(pair) by {
        assert(agrees_at(files, t, pair.0));
    }
    assert(known_hashes(t) =~= settled(files));
}

/// Taking one file out takes its weight from the sum.
proof fn lemma_sum_without(files: Seq<Content>, weight: spec_fn(Content) -> int, i: int)
    requires
        0 <= i < files.len(),
    ensures
        sum_by(files, weight) == sum_by(files.remove(i), weight) + weight(files[i]),
    decreases files.len(),
{
    if i == files.len() - 1 {
        assert(files.remove(i) =~= files.drop_last());
    } else {
        lemma_sum_without(files.drop_last(), weight, i);
        assert(files.remove(i).drop_last() =~= files.drop_last().remove(i));
        assert(files.remove(i).last() == files.last());
    }
}

/// The same files in another order have the same sum of weights.
pub proof fn law_sum_ignores_order(
    first: Seq<Content>,
    second: Seq<Content>,
    weight: spec_fn(Content) -> int,
)
    requires
        first.to_multiset() == second.to_multiset(),
    ensures
        sum_by(first, weight) == sum_by(second, weight),
    decreases first.len(),
{
    broadcast use vstd::multiset::group_multiset_axioms;

    vstd::seq_lib::to_multiset_len(first);
    vstd::seq_lib::to_multiset_len(second);
    if first.len() > 0 {
        let f = first.last();
        let rest = first.drop_last();
        assert(first =~= rest.push(f));
        vstd::seq_lib::to_multiset_build(rest, f);
        vstd::seq_lib::to_multiset_contains(second, f);
        assert(second.contains(f));
        let i = choose|i: int| 0 <= i < second.len() && second[i] == f;
        vstd::seq_lib::to_multiset_remove(second, i);
        assert(rest.to_multiset() =~= second.remove(i).to_multiset());
        law_sum_ignores_order(rest, second.remove(i), weight);
        lemma_sum_without(second, weight, i);
    }
}

/// A file that is among `first` is among the same files in another order.
proof fn lemma_holds_permuted(
    first: Seq<Content>,
    second: Seq<Content>,
    size: u64,
    hash: Seq<char>,
)
    requires
        first.to_multiset() == second.to_multiset(),
        holds(first, size, hash),
    ensures
        holds(second, size, hash),
{
    let i = choose|i: int|
        0 <= i < first.len() && (#[trigger] first[i]).size == size && first[i].hash == hash;
    let f = first[i];
    assert(first.contains(f));
    vstd::seq_lib::to_multiset_contains(first, f);
    vstd::seq_lib::to_multiset_contains(second, f);
    assert(second.contains(f));
    let j = choose|j: int| 0 <= j < second.len() && second[j] == f;
    assert(second[j].size == size && second[j].hash == hash);
}

/// The files and bytes that a scan of `files` sees are their number and the
/// sum of their sizes.
pub proof fn law_reads_are_all_seen(files: Seq<Content>)
    ensures
        reads(files).len() == files.len(),
        seen_files(reads(files)) == files.len(),
        seen_bytes(reads(files)) == sum_by(files, size_of()),
    decreases files.len(),
{
    if files.len() > 0 {
        law_reads_are_all_seen(files.drop_last());
        assert(reads(files).drop_last() =~= reads(files.drop_last()));
        assert(reads(files).last() == read_of(files.drop_last(), files.last()));
    }
}

/// Where no read fails, the totals at the end of a scan do not depend on
/// the order in which the files are listed.
pub proof fn law_order_does_not_move_the_totals(first: Seq<Content>, second: Seq<Content>)
    requires
        first.to_multiset() == second.to_multiset(),
    ensures
        replay(initial(), reads(first)).files == replay(initial(), reads(second)).files,
        replay(initial(), reads(first)).bytes == replay(initial(), reads(second)).bytes,
        replay(initial(), reads(first)).unique_files == replay(
            initial(),
            reads(second),
        ).unique_files,
        replay(initial(), reads(first)).unique_bytes == replay(
            initial(),
            reads(second),
        ).unique_bytes,
{
    let a = replay(initial(), reads(first));
    let b = replay(initial(), reads(second));
    vstd::seq_lib::to_multiset_len(first);
    vstd::seq_lib::to_multiset_len(second);
    law_reads_are_all_seen(first);
    law_reads_are_all_seen(second);
    law_seen_totals(initial(), reads(first));
    law_seen_totals(initial(), reads(second));
    law_sum_ignores_order(first, second, size_of());
    law_replay_counts_once(reads(first));
    law_replay_counts_once(reads(second));
    law_index_holds_the_settled(first);
    law_index_holds_the_settled(second);
    assert forall|pair: (u64, Seq<char>)|
        settled(first).contains(pair) <==> settled(second).contains(pair) by {
        law_sum_ignores_order(first, second, is_of_size(pair.0));
        if holds(first, pair.0, pair.1) {
            lemma_holds_permuted(first, second, pair.0, pair.1);
        }
        if holds(second, pair.0, pair.1) {
            lemma_holds_permuted(second, first, pair.0, pair.1);
        }
    }
    assert(settled(first) =~= settled(second));
    assert(known_bytes(a) == known_bytes(b));
}

} // verus!
