use hayate::fs::count::{walk_and_count, walk_step, WalkEntry, WalkStep};
use hayate::fs::entry::{dotted, index_of_name};
use hayate::fs::scanner::{Batcher, ScanAction, ScanEvent, BATCH_SIZE, CHANNEL_CAPACITY};
use hayate::fs::FileEntry;
use hayate::path::FilePath;

fn entry(path: &str) -> FileEntry {
    FileEntry::new(FilePath::new(path), false, 1)
}

#[test]
fn extracts_name_from_path() {
    let entry = FileEntry::new(FilePath::new("/home/user/notes.txt"), false, 42);
    assert_eq!(entry.name, "notes.txt");
    assert_eq!(entry.size, 42);
    assert!(!entry.is_dir);
}

#[test]
fn detects_hidden_entries_by_leading_dot() {
    let entry = FileEntry::new(FilePath::new("/home/user/.config"), true, 0);
    assert!(entry.is_hidden);
    assert!(entry.is_dir);
}

#[test]
fn non_dotfile_is_not_hidden() {
    let entry = FileEntry::new(FilePath::new("/home/user/config"), true, 0);
    assert!(!entry.is_hidden);
}

#[test]
fn falls_back_to_full_path_when_there_is_no_file_name() {
    // `/` has no file-name component; this must not panic.
    let entry = FileEntry::new(FilePath::new("/"), true, 0);
    assert_eq!(entry.name, "/");
}

#[test]
fn names_are_replaced_where_they_are_not_utf8() {
    let path = FilePath {
        bytes: b"/tmp/a\xffb".to_vec(),
    };
    assert_eq!(FileEntry::new(path, false, 0).name, "a\u{fffd}b");
}

#[test]
fn a_name_is_found_at_its_first_place() {
    let list = vec![entry("/x/a"), entry("/y/b"), entry("/z/b")];
    assert_eq!(index_of_name(&list, "b"), Some(1));
    assert_eq!(index_of_name(&list, "c"), None);
    assert!(dotted(".x"));
    assert!(!dotted("x.") && !dotted(""));
}

/// Feeds events to a batcher until it ends, as the scan does, and returns
/// the batches that it sent.
fn batches(events: Vec<ScanEvent>, size: usize) -> Vec<Vec<FileEntry>> {
    let mut batcher = Batcher::new(size);
    let mut sent = Vec::new();
    for event in events {
        match batcher.step(event) {
            ScanAction::Continue => {}
            ScanAction::Send(batch) => sent.push(batch),
            ScanAction::SendLast(batch) => {
                sent.push(batch);
                break;
            }
            ScanAction::Stop => break,
        }
    }
    sent
}

#[test]
fn streams_all_entries_in_a_directory() {
    let sent = batches(
        vec![
            ScanEvent::Entry(entry("/d/a.txt")),
            ScanEvent::Entry(entry("/d/b.txt")),
            ScanEvent::Skipped,
            ScanEvent::Failed,
            ScanEvent::Entry(entry("/d/sub")),
            ScanEvent::Exhausted,
        ],
        BATCH_SIZE,
    );
    let names: Vec<&str> = sent
        .iter()
        .flatten()
        .map(|entry| entry.name.as_str())
        .collect();
    assert_eq!(names, ["a.txt", "b.txt", "sub"]);
    assert_eq!(sent.len(), 1);
}

#[test]
fn batches_are_capped_at_the_configured_size() {
    let mut events: Vec<ScanEvent> = (0..7)
        .map(|i| ScanEvent::Entry(entry(&format!("/d/file-{i}"))))
        .collect();
    events.push(ScanEvent::Exhausted);

    let mut total = 0;
    for batch in batches(events, 3) {
        assert!(
            batch.len() <= 3,
            "batch exceeded configured size: {batch:?}"
        );
        total += batch.len();
    }
    assert_eq!(total, 7);
}

#[test]
fn every_batch_but_the_last_is_full() {
    let mut events: Vec<ScanEvent> = (0..7)
        .map(|i| ScanEvent::Entry(entry(&format!("/d/file-{i}"))))
        .collect();
    events.push(ScanEvent::Exhausted);
    let sizes: Vec<usize> = batches(events, 3).iter().map(Vec::len).collect();
    assert_eq!(sizes, [3, 3, 1]);
}

#[test]
fn already_cancelled_token_stops_before_the_first_batch() {
    let sent = batches(vec![ScanEvent::Cancelled, ScanEvent::Exhausted], 3);
    assert!(sent.is_empty());
}

#[test]
fn an_empty_directory_sends_nothing() {
    assert!(batches(vec![ScanEvent::Exhausted], 3).is_empty());
    assert_eq!((BATCH_SIZE, CHANNEL_CAPACITY), (100, 8));
}

#[test]
fn a_cancelled_scan_keeps_back_what_was_not_sent() {
    let sent = batches(
        vec![
            ScanEvent::Entry(entry("/d/a")),
            ScanEvent::Entry(entry("/d/b")),
            ScanEvent::Entry(entry("/d/c")),
            ScanEvent::Cancelled,
        ],
        2,
    );
    assert_eq!(sent.len(), 1);
    assert_eq!(sent[0].len(), 2);
}

fn going(entries: &[WalkEntry]) -> Vec<WalkStep> {
    entries
        .iter()
        .map(|entry| WalkStep {
            entry: *entry,
            cancelled: false,
        })
        .collect()
}

#[test]
fn counts_files_across_nested_directories() {
    let walk = going(&[
        WalkEntry::Other,
        WalkEntry::File,
        WalkEntry::Other,
        WalkEntry::File,
        WalkEntry::Other,
        WalkEntry::File,
        WalkEntry::File,
    ]);
    assert_eq!(walk_and_count(&walk), 4);
}

#[test]
fn does_not_count_directories_themselves() {
    let walk = going(&[WalkEntry::Other, WalkEntry::Other, WalkEntry::Other]);
    assert_eq!(walk_and_count(&walk), 0);
}

#[test]
fn a_single_file_counts_as_one() {
    assert_eq!(walk_and_count(&going(&[WalkEntry::Other, WalkEntry::File])), 1);
}

#[test]
fn already_cancelled_token_stops_before_counting_anything() {
    let mut walk = going(&[WalkEntry::Other, WalkEntry::File, WalkEntry::File]);
    for step in &mut walk {
        step.cancelled = true;
    }
    assert_eq!(walk_and_count(&walk), 0);
}

#[test]
fn skips_unreadable_subdirectories_without_panicking() {
    let walk = going(&[
        WalkEntry::Other,
        WalkEntry::File,
        WalkEntry::Other,
        WalkEntry::Unreadable,
    ]);
    assert_eq!(walk_and_count(&walk), 1);
}

#[test]
fn a_count_cancelled_midway_keeps_what_it_has() {
    let mut walk = going(&[WalkEntry::File; 5]);
    walk[3].cancelled = true;
    assert_eq!(walk_and_count(&walk), 3);
    assert_eq!(walk_step(3, walk[3]), None);
    assert_eq!(walk_step(3, walk[4]), Some(4));
}
