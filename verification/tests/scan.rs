use dupscan::filter::compile_patterns;
use dupscan::model::EntryKind;
use dupscan::scanner::{Entry, Need, Outcome, Scanner, SizeState, Verdict, Visit};
use dupscan::stat::Stat;

fn file(path: &str, size: u64) -> Entry {
    Entry { path: String::from(path), kind: EntryKind::File(size) }
}

fn content(byte: u8, len: usize) -> Vec<u8> {
    vec![byte; len]
}

fn hash_of(bytes: &[u8]) -> Option<String> {
    Some(sha256::digest(bytes))
}

fn totals(stat: &Stat) -> (u64, u64, u64, u64) {
    (stat.count, stat.size, stat.unique_count, stat.unique_size)
}

fn tally(scanner: &Scanner, size: u64, hash: &str) -> Option<(u64, u64)> {
    match scanner.index.get(&size) {
        Some(SizeState::Evaled(known)) => known.get(hash).copied(),
        _ => None,
    }
}

#[test]
fn new_scan_has_seen_nothing() {
    let scanner = Scanner::new();
    assert_eq!(totals(&scanner.stat), (0, 0, 0, 0));
    assert_eq!(scanner.stat.curr_path, "/");
    assert!(scanner.index.is_empty());
}

#[test]
fn empty_directory_leaves_all_totals_at_zero() {
    let mut scanner = Scanner::new();
    let root = Entry { path: String::from("/empty"), kind: EntryKind::Directory };
    assert_eq!(scanner.demand(&root), Need::Nothing);
    assert_eq!(scanner.observe(&vec![], root, None, None), Visit::Descend);
    assert_eq!(totals(&scanner.stat), (0, 0, 0, 0));
    assert!(scanner.index.is_empty());
}

#[test]
fn two_files_of_same_size_and_same_content() {
    let mut scanner = Scanner::new();
    let bytes = content(b'a', 100);
    let first = file("/t/a", 100);
    assert_eq!(scanner.demand(&first), Need::Nothing);
    let visit = scanner.observe(&vec![], first, None, None);
    assert_eq!(visit, Visit::Counted(Outcome { verdict: Verdict::Held, lost: None }));
    assert_eq!(totals(&scanner.stat), (1, 100, 0, 0));

    let second = file("/t/b", 100);
    assert_eq!(scanner.demand(&second), Need::HashBoth(String::from("/t/a")));
    let visit = scanner.observe(&vec![], second, hash_of(&bytes), hash_of(&bytes));
    assert_eq!(visit, Visit::Counted(Outcome { verdict: Verdict::Duplicate, lost: None }));
    assert_eq!(totals(&scanner.stat), (2, 200, 1, 100));
    assert_eq!(tally(&scanner, 100, &sha256::digest(&bytes[..])), Some((100, 2)));
}

#[test]
fn two_files_of_same_size_and_different_content() {
    let mut scanner = Scanner::new();
    let one = content(b'a', 100);
    let other = content(b'b', 100);
    scanner.observe(&vec![], file("/t/a", 100), None, None);
    let visit = scanner.observe(&vec![], file("/t/b", 100), hash_of(&other), hash_of(&one));
    assert_eq!(visit, Visit::Counted(Outcome { verdict: Verdict::Fresh, lost: None }));
    assert_eq!(totals(&scanner.stat), (2, 200, 2, 200));
    assert_eq!(tally(&scanner, 100, &sha256::digest(&one[..])), Some((100, 1)));
    assert_eq!(tally(&scanner, 100, &sha256::digest(&other[..])), Some((100, 1)));
}

#[test]
fn file_that_became_unreadable_is_seen_and_not_filed() {
    let mut scanner = Scanner::new();
    scanner.observe(&vec![], file("/t/a", 100), None, None);
    let visit = scanner.observe(&vec![], file("/t/gone", 100), None, None);
    assert_eq!(
        visit,
        Visit::Counted(Outcome { verdict: Verdict::Unreadable, lost: Some(String::from("/t/gone")) })
    );
    assert_eq!(totals(&scanner.stat), (2, 200, 0, 0));
    match scanner.index.get(&100) {
        Some(SizeState::Lazy(path)) => assert_eq!(path, "/t/a"),
        _ => panic!("the bucket was touched"),
    }
    assert_eq!(scanner.index.len(), 1);
}

#[test]
fn unreadable_file_leaves_a_materialized_bucket_untouched() {
    let mut scanner = Scanner::new();
    let bytes = content(b'a', 10);
    scanner.observe(&vec![], file("/t/a", 10), None, None);
    scanner.observe(&vec![], file("/t/b", 10), hash_of(&bytes), hash_of(&bytes));
    let need = scanner.demand(&file("/t/c", 10));
    assert_eq!(need, Need::Hash);
    let visit = scanner.observe(&vec![], file("/t/c", 10), None, None);
    assert_eq!(
        visit,
        Visit::Counted(Outcome { verdict: Verdict::Unreadable, lost: Some(String::from("/t/c")) })
    );
    assert_eq!(totals(&scanner.stat), (3, 30, 1, 10));
    assert_eq!(tally(&scanner, 10, &sha256::digest(&bytes[..])), Some((10, 2)));
}

#[test]
fn lost_deferred_file_is_abandoned_and_the_bucket_materialized() {
    let mut scanner = Scanner::new();
    let bytes = content(b'x', 64);
    scanner.observe(&vec![], file("/t/old", 64), None, None);
    let visit = scanner.observe(&vec![], file("/t/new", 64), hash_of(&bytes), None);
    assert_eq!(
        visit,
        Visit::Counted(Outcome { verdict: Verdict::Fresh, lost: Some(String::from("/t/old")) })
    );
    assert_eq!(totals(&scanner.stat), (2, 128, 1, 64));
    assert_eq!(tally(&scanner, 64, &sha256::digest(&bytes[..])), Some((64, 1)));
    assert_eq!(scanner.demand(&file("/t/next", 64)), Need::Hash);
    let visit = scanner.observe(&vec![], file("/t/next", 64), hash_of(&bytes), None);
    assert_eq!(visit, Visit::Counted(Outcome { verdict: Verdict::Duplicate, lost: None }));
    assert_eq!(totals(&scanner.stat), (3, 192, 1, 64));
    assert_eq!(tally(&scanner, 64, &sha256::digest(&bytes[..])), Some((64, 2)));
}

#[test]
fn file_of_a_size_seen_once_is_never_hashed() {
    let mut scanner = Scanner::new();
    for size in 1..=5u64 {
        let entry = file("/t/f", size);
        assert_eq!(scanner.demand(&entry), Need::Nothing);
        let visit = scanner.observe(&vec![], entry, None, None);
        assert_eq!(visit, Visit::Counted(Outcome { verdict: Verdict::Held, lost: None }));
    }
    assert_eq!(totals(&scanner.stat), (5, 15, 0, 0));
    assert_eq!(scanner.index.len(), 5);
}

#[test]
fn hashes_offered_for_a_first_file_are_not_used() {
    let mut scanner = Scanner::new();
    let bytes = content(b'q', 9);
    let visit = scanner.observe(&vec![], file("/t/a", 9), hash_of(&bytes), hash_of(&bytes));
    assert_eq!(visit, Visit::Counted(Outcome { verdict: Verdict::Held, lost: None }));
    assert_eq!(totals(&scanner.stat), (1, 9, 0, 0));
}

#[test]
fn each_hash_is_counted_once_in_a_materialized_bucket() {
    let mut scanner = Scanner::new();
    let a = content(b'a', 8);
    let b = content(b'b', 8);
    let c = content(b'c', 8);
    scanner.observe(&vec![], file("/1", 8), None, None);
    scanner.observe(&vec![], file("/2", 8), hash_of(&b), hash_of(&a));
    scanner.observe(&vec![], file("/3", 8), hash_of(&a), None);
    scanner.observe(&vec![], file("/4", 8), hash_of(&c), None);
    scanner.observe(&vec![], file("/5", 8), hash_of(&c), None);
    scanner.observe(&vec![], file("/6", 8), hash_of(&b), None);
    assert_eq!(totals(&scanner.stat), (6, 48, 3, 24));
    assert_eq!(tally(&scanner, 8, &sha256::digest(&a[..])), Some((8, 2)));
    assert_eq!(tally(&scanner, 8, &sha256::digest(&b[..])), Some((8, 2)));
    assert_eq!(tally(&scanner, 8, &sha256::digest(&c[..])), Some((8, 2)));
}

#[test]
fn same_hash_under_two_sizes_is_two_contents() {
    let mut scanner = Scanner::new();
    let h = Some(String::from("same"));
    scanner.observe(&vec![], file("/1", 1), None, None);
    scanner.observe(&vec![], file("/2", 1), h.clone(), h.clone());
    scanner.observe(&vec![], file("/3", 2), None, None);
    scanner.observe(&vec![], file("/4", 2), h.clone(), h.clone());
    assert_eq!(totals(&scanner.stat), (4, 6, 2, 3));
    assert_eq!(tally(&scanner, 1, "same"), Some((1, 2)));
    assert_eq!(tally(&scanner, 2, "same"), Some((2, 2)));
}

#[test]
fn empty_files_are_counted_like_any_other() {
    let mut scanner = Scanner::new();
    let empty = hash_of(&[]);
    assert_eq!(
        empty,
        Some(String::from("e3b0c44298fc1c149afbf4c8996fb92427ae41e4649b934ca495991b7852b855"))
    );
    scanner.observe(&vec![], file("/a", 0), None, None);
    scanner.observe(&vec![], file("/b", 0), empty.clone(), empty.clone());
    assert_eq!(totals(&scanner.stat), (2, 0, 1, 0));
}

#[test]
fn symlink_moves_no_total() {
    let mut scanner = Scanner::new();
    scanner.observe(&vec![], file("/t/a", 3), None, None);
    let link = Entry { path: String::from("/t/link"), kind: EntryKind::Symlink };
    assert_eq!(scanner.demand(&link), Need::Nothing);
    let visit = scanner.observe(&vec![], link, Some(String::from("h")), Some(String::from("g")));
    assert_eq!(visit, Visit::Ignored);
    assert_eq!(totals(&scanner.stat), (1, 3, 0, 0));
    assert_eq!(scanner.index.len(), 1);
}

#[test]
fn entry_without_metadata_is_reported_and_not_counted() {
    let mut scanner = Scanner::new();
    let entry = Entry { path: String::from("/t/x"), kind: EntryKind::Unreadable };
    assert_eq!(scanner.demand(&entry), Need::Nothing);
    assert_eq!(scanner.observe(&vec![], entry, None, None), Visit::Failed);
    assert_eq!(totals(&scanner.stat), (0, 0, 0, 0));
    assert!(scanner.index.is_empty());
}

#[test]
fn excluded_directory_is_pruned_and_moves_no_total() {
    let patterns = compile_patterns(&vec![String::from(r"/\.cache$")]).ok().unwrap();
    let mut scanner = Scanner::new();
    let skipped = Entry { path: String::from("/home/u/.cache"), kind: EntryKind::Directory };
    assert_eq!(scanner.observe(&patterns, skipped, None, None), Visit::Pruned);
    let walked = Entry { path: String::from("/home/u/src"), kind: EntryKind::Directory };
    assert_eq!(scanner.observe(&patterns, walked, None, None), Visit::Descend);
    assert_eq!(totals(&scanner.stat), (0, 0, 0, 0));
    assert!(scanner.index.is_empty());
}

#[test]
fn exclusion_is_not_applied_to_files() {
    let patterns = compile_patterns(&vec![String::from("skip")]).ok().unwrap();
    let mut scanner = Scanner::new();
    let visit = scanner.observe(&patterns, file("/t/skip.txt", 5), None, None);
    assert_eq!(visit, Visit::Counted(Outcome { verdict: Verdict::Held, lost: None }));
    assert_eq!(totals(&scanner.stat), (1, 5, 0, 0));
}

#[test]
fn marker_moves_on_every_fiftieth_file() {
    let mut scanner = Scanner::new();
    for i in 1..=120u64 {
        let path = format!("/t/{}", i);
        scanner.observe(&vec![], file(&path, 1000 + i), None, None);
        if i < 50 {
            assert_eq!(scanner.stat.curr_path, "/");
        } else if i < 100 {
            assert_eq!(scanner.stat.curr_path, "/t/50");
        } else {
            assert_eq!(scanner.stat.curr_path, "/t/100");
        }
    }
    assert_eq!(scanner.stat.count, 120);
}

#[test]
fn bytes_seen_include_files_whose_hash_failed() {
    let mut scanner = Scanner::new();
    let sizes = [10u64, 10, 20, 10, 20, 30];
    let hashes = [None, None, None, hash_of(b"0123456789"), None, None];
    let mut sum = 0;
    for (i, size) in sizes.iter().enumerate() {
        let path = format!("/t/{}", i);
        scanner.observe(&vec![], file(&path, *size), hashes[i].clone(), None);
        sum += size;
        assert_eq!(scanner.stat.size, sum);
        assert_eq!(scanner.stat.count, i as u64 + 1);
    }
    assert_eq!(totals(&scanner.stat), (6, 100, 1, 10));
}

fn run_once() -> (u64, u64, u64, u64) {
    let patterns = compile_patterns(&vec![String::from("^/r/out$")]).ok().unwrap();
    let a = content(b'a', 100);
    let b = content(b'b', 100);
    let mut scanner = Scanner::new();
    let root = Entry { path: String::from("/r"), kind: EntryKind::Directory };
    assert_eq!(scanner.observe(&patterns, root, None, None), Visit::Descend);
    scanner.observe(&patterns, file("/r/1", 100), None, None);
    scanner.observe(&patterns, file("/r/2", 100), hash_of(&a), hash_of(&a));
    let out = Entry { path: String::from("/r/out"), kind: EntryKind::Directory };
    assert_eq!(scanner.observe(&patterns, out, None, None), Visit::Pruned);
    let link = Entry { path: String::from("/r/l"), kind: EntryKind::Symlink };
    scanner.observe(&patterns, link, None, None);
    scanner.observe(&patterns, file("/r/3", 100), hash_of(&b), None);
    scanner.observe(&patterns, file("/r/4", 7), None, None);
    totals(&scanner.stat)
}

#[test]
fn scanning_twice_gives_the_same_totals() {
    let first = run_once();
    let second = run_once();
    assert_eq!(first, (4, 307, 2, 200));
    assert_eq!(first, second);
}

#[test]
fn stat_records_files_and_contents() {
    let mut stat = Stat::new();
    stat.record_file("/a", 12);
    stat.record_file("/b", 30);
    assert_eq!(totals(&stat), (2, 42, 0, 0));
    assert_eq!(stat.curr_path, "/");
    stat.record_unique(30);
    assert_eq!(totals(&stat), (2, 42, 1, 30));
    let copy = stat.snapshot();
    stat.record_file("/c", 1);
    assert_eq!(totals(&copy), (2, 42, 1, 30));
    assert_eq!(copy.curr_path, "/");
    assert_eq!(totals(&stat), (3, 43, 1, 30));
}

#[test]
fn stat_marker_takes_the_fiftieth_path() {
    let mut stat = Stat::new();
    for _ in 0..49 {
        stat.record_file("/early", 1);
    }
    assert_eq!(stat.curr_path, "/");
    stat.record_file("/fiftieth", 1);
    assert_eq!(stat.curr_path, "/fiftieth");
    stat.record_file("/later", 1);
    assert_eq!(stat.curr_path, "/fiftieth");
    assert_eq!(dupscan::model::SAMPLING_INTERVAL, 50);
}

#[test]
fn room_is_refused_where_a_counter_would_run_over() {
    let mut scanner = Scanner::new();
    assert!(scanner.has_room(0));
    assert!(scanner.has_room(u64::MAX / 2));
    assert!(!scanner.has_room(u64::MAX / 2 + 1));
    scanner.stat.size = 10;
    assert!(scanner.has_room(u64::MAX / 2));
    assert!(scanner.has_room(u64::MAX / 2 - 5));
    scanner.stat.unique_size = 0;
    scanner.stat.size = u64::MAX - 4;
    assert!(scanner.has_room(4));
    assert!(!scanner.has_room(5));
    scanner.stat.size = 0;
    scanner.stat.unique_size = u64::MAX - 8;
    assert!(scanner.has_room(4));
    assert!(!scanner.has_room(5));
    scanner.stat.unique_size = 0;
    scanner.stat.count = u64::MAX;
    assert!(!scanner.has_room(0));
    scanner.stat.count = u64::MAX - 1;
    assert!(scanner.has_room(0));
    scanner.stat.unique_count = u64::MAX - 1;
    assert!(!scanner.has_room(0));
    scanner.stat.unique_count = u64::MAX - 2;
    assert!(scanner.has_room(0));
}

fn scan_in_order(files: &[(&str, Vec<u8>)]) -> (u64, u64, u64, u64) {
    let mut scanner = Scanner::new();
    for (path, bytes) in files {
        let entry = file(path, bytes.len() as u64);
        let (hash, deferred_hash) = match scanner.demand(&entry) {
            Need::Nothing => (None, None),
            Need::Hash => (hash_of(bytes), None),
            Need::HashBoth(waiting) => {
                let first = files.iter().find(|(p, _)| *p == waiting).unwrap();
                (hash_of(bytes), hash_of(&first.1))
            }
        };
        assert!(scanner.has_room(bytes.len() as u64));
        scanner.observe(&vec![], entry, hash, deferred_hash);
    }
    totals(&scanner.stat)
}

#[test]
fn order_of_listing_does_not_move_the_totals() {
    let a = ("/a", content(b'x', 100));
    let b = ("/b", content(b'x', 100));
    let c = ("/c", content(b'y', 100));
    let d = ("/d", content(b'z', 7));
    let e = ("/e", content(b'y', 100));
    let f = ("/f", content(b'q', 64));
    let g = ("/g", content(b'r', 64));
    let expected = (7, 100 * 4 + 7 + 64 * 2, 4, 100 * 2 + 64 * 2);
    let forward = vec![a.clone(), b.clone(), c.clone(), d.clone(), e.clone(), f.clone(), g.clone()];
    assert_eq!(scan_in_order(&forward), expected);
    let backward = vec![g.clone(), f.clone(), e.clone(), d.clone(), c.clone(), b.clone(), a.clone()];
    assert_eq!(scan_in_order(&backward), expected);
    let mixed = vec![c, g, a, d, f, e, b];
    assert_eq!(scan_in_order(&mixed), expected);
}

#[test]
fn file_alone_in_its_size_is_no_distinct_content() {
    let only = vec![("/only", content(b'x', 10))];
    assert_eq!(scan_in_order(&only), (1, 10, 0, 0));
}
