use hayate::app::history::History;
use hayate::app::AppState;
use hayate::fs::FileEntry;
use hayate::path::FilePath;

fn files(names: &[&str]) -> Vec<FileEntry> {
    names
        .iter()
        .map(|name| FileEntry::new(FilePath::new(name), false, 0))
        .collect()
}

fn at_tmp() -> AppState {
    AppState::new(FilePath::new("/tmp"))
}

#[test]
fn new_starts_not_quitting_with_the_given_dir() {
    let state = at_tmp();
    assert!(!state.should_quit);
    assert_eq!(state.current_dir, FilePath::new("/tmp"));
}

#[test]
fn default_starts_not_quitting() {
    assert!(!AppState::starting_in(None).should_quit);
    assert!(!AppState::starting_in(Some(FilePath::new("/home"))).should_quit);
}

#[test]
fn selected_entry_is_none_when_empty() {
    assert!(at_tmp().selected_entry().is_none());
}

#[test]
fn selected_entry_returns_the_entry_at_the_selected_index() {
    let mut state = at_tmp();
    state.entries = files(&["/tmp/a.txt", "/tmp/b.txt"]);
    state.selected = 1;

    assert_eq!(
        state.selected_entry().map(|e| e.name.as_str()),
        Some("b.txt")
    );
}

#[test]
fn selected_index_clamps_until_the_scan_catches_up() {
    let mut state = at_tmp();
    state.selected = 10;
    state.entries = files(&["/tmp/a.txt", "/tmp/b.txt"]);

    assert_eq!(state.selected_index(), Some(1));
    assert_eq!(
        state.selected_entry().map(|e| e.name.as_str()),
        Some("b.txt")
    );
    assert_eq!(
        state.selected, 10,
        "the intended index is kept for later batches"
    );
}

#[test]
fn scroll_preview_clamps_to_the_limit() {
    let mut state = at_tmp();
    state.scroll_preview(5, 3);
    assert_eq!(state.preview_scroll, 3);
    state.scroll_preview(-10, 3);
    assert_eq!(state.preview_scroll, 0);
}

#[test]
fn scroll_preview_survives_extreme_distances() {
    let mut state = at_tmp();
    state.scroll_preview(i32::MAX, u16::MAX);
    assert_eq!(state.preview_scroll, u16::MAX);
    state.scroll_preview(i32::MAX, 7);
    assert_eq!(state.preview_scroll, 7);
    state.scroll_preview(i32::MIN, u16::MAX);
    assert_eq!(state.preview_scroll, 0);
    state.scroll_preview(2, 7);
    assert_eq!(state.preview_scroll, 2);
}

#[test]
fn an_unreadable_working_directory_falls_back_to_the_dot() {
    assert_eq!(AppState::starting_in(None).current_dir.to_text(), ".");
    let state = AppState::starting_in(Some(FilePath::new("/srv")));
    assert_eq!(state.current_dir.to_text(), "/srv");
    assert_eq!((state.frame_width, state.frame_height), (80, 24));
}

#[test]
fn the_entry_to_keep_wins_over_the_saved_one() {
    let mut state = at_tmp();
    state.entries = files(&["/tmp/a", "/tmp/b", "/tmp/c"]);
    state
        .history
        .insert(FilePath::new("/tmp"), "c".into());

    state.sync_selection_after_listing_change(Some("b"));
    assert_eq!(state.selected, 1);
    state.sync_selection_after_listing_change(Some("gone"));
    assert_eq!(state.selected, 2);
    state.sync_selection_after_listing_change(None);
    assert_eq!(state.selected, 2);

    let mut state = at_tmp();
    state.entries = files(&["/tmp/a", "/tmp/b"]);
    state.selected = 9;
    state.sync_selection_after_listing_change(None);
    assert_eq!(state.selected, 9);
}

#[test]
fn history_holds_one_name_per_place() {
    let mut history = History::new();
    assert!(history.get(&FilePath::new("/tmp")).is_none());
    history.insert(FilePath::new("/tmp"), "a".into());
    history.insert(FilePath::new("/home"), "h".into());
    history.insert(FilePath::new("/tmp/"), "b".into());
    assert_eq!(
        history.get(&FilePath::new("/tmp/.")).map(|n| n.as_str()),
        Some("b")
    );
    assert_eq!(
        history.get(&FilePath::new("//home")).map(|n| n.as_str()),
        Some("h")
    );
    assert!(history.get(&FilePath::new("tmp")).is_none());
}

#[test]
fn histories_are_equal_by_what_they_hold() {
    let mut a = History::new();
    a.insert(FilePath::new("/tmp"), "x".into());
    a.insert(FilePath::new("/home"), "y".into());
    let mut b = History::new();
    b.insert(FilePath::new("/home/"), "y".into());
    assert_ne!(a, b);
    assert_ne!(b, a);
    b.insert(FilePath::new("/tmp"), "z".into());
    assert_ne!(a, b);
    b.insert(FilePath::new("/tmp/."), "x".into());
    assert_eq!(a, b);
    assert_eq!(a.clone(), a);
}

#[test]
fn a_clone_of_the_state_is_equal_to_it_until_either_changes() {
    let mut state = at_tmp();
    state.entries = files(&["/tmp/a", "/tmp/b"]);
    state.history.insert(FilePath::new("/tmp"), "b".into());
    state.notice = Some("hello".to_string());
    state.selected = 1;
    let mut copy = state.clone();
    assert_eq!(copy, state);
    copy.history.insert(FilePath::new("/home"), "h".into());
    assert_ne!(copy, state);
    let mut copy = state.clone();
    copy.entries.pop();
    assert_ne!(copy, state);
}
