use dupscan::model::{EntryKind, Metadata};
use dupscan::supervisor::{next_report, unlistable, worker_state, Report, Unlistable, Worker};

#[test]
fn reporter_stops_only_on_a_finished_worker() {
    assert_eq!(worker_state(false), Worker::Running);
    assert_eq!(worker_state(true), Worker::Finished);
    assert_eq!(next_report(Worker::Running), Report::Again);
    assert_eq!(next_report(Worker::Finished), Report::Last);
}

#[test]
fn only_an_unlistable_root_is_fatal() {
    assert_eq!(unlistable(0), Unlistable::Fatal);
    assert_eq!(unlistable(1), Unlistable::Skipped);
    assert_eq!(unlistable(12), Unlistable::Skipped);
}

#[test]
fn entry_kind_follows_the_metadata() {
    assert_eq!(EntryKind::of(None), EntryKind::Unreadable);
    let link_to_dir = Metadata { size: 9, is_dir: true, is_symlink: true };
    assert_eq!(EntryKind::of(Some(link_to_dir)), EntryKind::Symlink);
    let link = Metadata { size: 9, is_dir: false, is_symlink: true };
    assert_eq!(EntryKind::of(Some(link)), EntryKind::Symlink);
    let dir = Metadata { size: 4096, is_dir: true, is_symlink: false };
    assert_eq!(EntryKind::of(Some(dir)), EntryKind::Directory);
    let file = Metadata { size: 123, is_dir: false, is_symlink: false };
    assert_eq!(EntryKind::of(Some(file)), EntryKind::File(123));
}
