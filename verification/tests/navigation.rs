use hayate::app::navigation::{
    enter_selected, initial_scan_plan, open_parent, usable_parent, ScanPlan,
};
use hayate::app::AppState;
use hayate::fs::FileEntry;
use hayate::path::FilePath;
use hayate::preview::FilePreview;

fn path(text: &str) -> FilePath {
    FilePath::new(text)
}

fn dir(text: &str) -> FileEntry {
    FileEntry::new(path(text), true, 0)
}

fn file(text: &str) -> FileEntry {
    FileEntry::new(path(text), false, 0)
}

fn state_in_project() -> AppState {
    let mut state = AppState::new(path("/tmp/project"));
    state.entries = vec![dir("/tmp/project/src"), file("/tmp/project/README.md")];
    state.parent_entries = vec![dir("/tmp/project"), dir("/tmp/other")];
    state.current_listing_complete = true;
    state.parent_listing_complete = true;
    state.selected = 0;
    state
}

#[test]
fn entering_a_file_is_a_noop() {
    let mut state = state_in_project();
    state.selected = 1;
    let generation = state.scan_generation;

    assert!(enter_selected(&mut state).is_none());
    assert_eq!(state.current_dir, path("/tmp/project"));
    assert_eq!(state.scan_generation, generation);
    assert_eq!(state.entries.len(), 2);
}

#[test]
fn entering_nothing_selected_is_a_noop() {
    let mut state = AppState::new(path("/tmp"));
    assert!(enter_selected(&mut state).is_none());
}

#[test]
fn entering_a_directory_reuses_current_listing_as_parent() {
    let mut state = state_in_project();

    let plan = enter_selected(&mut state).expect("should navigate");

    assert_eq!(state.current_dir, path("/tmp/project/src"));
    assert_eq!(state.scan_generation, 1);
    assert!(state.entries.is_empty());
    assert_eq!(state.parent_entries.len(), 2);
    assert_eq!(state.parent_entries[0].name, "src");
    assert_eq!(
        state
            .history
            .get(&path("/tmp/project"))
            .map(|n| n.as_str()),
        Some("src")
    );
    assert_eq!(
        plan,
        ScanPlan {
            current: Some(path("/tmp/project/src")),
            parent: None,
        }
    );
    assert!(state.recursive_file_count.is_none());
    assert!(!state.is_counting_recursively);
}

#[test]
fn entering_restores_saved_selection_once_the_listing_arrives() {
    let mut state = state_in_project();
    state
        .history
        .insert(path("/tmp/project/src"), "lib.rs".into());

    enter_selected(&mut state).unwrap();
    assert_eq!(state.selected, 0);

    state.entries = vec![
        file("/tmp/project/src/main.rs"),
        file("/tmp/project/src/lib.rs"),
    ];
    state.sync_selection_after_listing_change(None);

    assert_eq!(state.selected, 1);
}

#[test]
fn opening_parent_reuses_parent_listing_and_highlights_where_we_came_from() {
    let mut state = state_in_project();
    state.selected = 1; // README, so history records that.

    let plan = open_parent(&mut state).expect("should navigate");

    assert_eq!(state.current_dir, path("/tmp"));
    assert_eq!(state.entries.len(), 2);
    assert_eq!(state.entries[0].name, "project");
    assert_eq!(
        state.selected, 0,
        "the directory we left should be highlighted"
    );
    assert!(state.parent_entries.is_empty());
    assert_eq!(
        state
            .history
            .get(&path("/tmp/project"))
            .map(|n| n.as_str()),
        Some("README.md")
    );
    assert_eq!(
        plan,
        ScanPlan {
            current: None,
            parent: Some(path("/")),
        }
    );
}

#[test]
fn returning_to_a_directory_rescans_when_only_a_partial_listing_was_reused() {
    let mut state = state_in_project();
    // First scan batch only; the rest of /tmp/project never arrived.
    state.entries = vec![dir("/tmp/project/src")];
    state.current_listing_complete = false;

    enter_selected(&mut state).unwrap();
    let plan = open_parent(&mut state).unwrap();

    assert_eq!(
        plan.current,
        Some(path("/tmp/project")),
        "reusing a listing that never finished streaming drops the rest of the directory"
    );
}

#[test]
fn opening_parent_scans_current_if_the_parent_listing_was_still_empty() {
    let mut state = AppState::new(path("/tmp/project"));
    state.parent_entries.clear();

    let plan = open_parent(&mut state).unwrap();

    assert_eq!(
        plan,
        ScanPlan {
            current: Some(path("/tmp")),
            parent: Some(path("/")),
        }
    );
}

#[test]
fn opening_parent_at_root_is_a_noop() {
    let mut state = AppState::new(path("/"));
    let generation = state.scan_generation;

    assert!(open_parent(&mut state).is_none());
    assert_eq!(state.scan_generation, generation);
}

#[test]
fn initial_scan_plan_covers_current_and_parent() {
    let state = AppState::new(path("/tmp/project"));
    assert_eq!(
        initial_scan_plan(&state),
        ScanPlan {
            current: Some(path("/tmp/project")),
            parent: Some(path("/tmp")),
        }
    );
}

#[test]
fn initial_scan_plan_at_root_has_no_parent() {
    let state = AppState::new(path("/"));
    assert_eq!(
        initial_scan_plan(&state),
        ScanPlan {
            current: Some(path("/")),
            parent: None,
        }
    );
}

#[test]
fn round_trip_restores_selection_in_the_child() {
    let mut state = state_in_project();
    state.selected = 0;
    enter_selected(&mut state).unwrap();
    state.entries = vec![
        file("/tmp/project/src/main.rs"),
        file("/tmp/project/src/lib.rs"),
    ];
    state.selected = 1;

    open_parent(&mut state).unwrap();
    enter_selected(&mut state).unwrap();
    state.entries = vec![
        file("/tmp/project/src/main.rs"),
        file("/tmp/project/src/lib.rs"),
    ];
    state.sync_selection_after_listing_change(None);

    assert_eq!(state.current_dir, path("/tmp/project/src"));
    assert_eq!(state.selected, 1);
}

#[test]
fn changing_directory_clears_a_cached_preview() {
    let mut state = state_in_project();
    state.preview = FilePreview::Text {
        path: path("/tmp/project/README.md"),
        content: "hello".into(),
        truncated: false,
    };

    enter_selected(&mut state).unwrap();

    assert!(matches!(state.preview, FilePreview::Idle));
}

#[test]
fn entering_the_current_directory_is_a_noop() {
    let mut state = state_in_project();
    state.entries = vec![dir("/tmp/project/")];
    assert!(enter_selected(&mut state).is_none());
    assert_eq!(state.scan_generation, 0);
}

#[test]
fn climbing_back_shows_the_same_listing_again() {
    let mut state = state_in_project();
    state.entries = vec![
        file("/tmp/project/README.md"),
        dir("/tmp/project/src"),
        dir("/tmp/project/doc"),
    ];
    state.selected = 1;
    let before = state.entries.clone();

    enter_selected(&mut state).unwrap();
    let plan = open_parent(&mut state).unwrap();

    assert_eq!(state.entries, before);
    assert_eq!(state.selected, 1);
    assert_eq!(plan.current, None);
    assert_eq!(plan.parent, Some(path("/tmp")));
    assert_eq!(state.scan_generation, 2);
    assert_eq!(state.count_generation, 2);
}

#[test]
fn a_scan_error_moves_with_its_listing() {
    let mut state = state_in_project();
    state.current_scan_error = Some("denied".to_string());
    enter_selected(&mut state).unwrap();
    assert_eq!(state.parent_scan_error.as_deref(), Some("denied"));
    assert_eq!(state.current_scan_error, None);
    open_parent(&mut state).unwrap();
    assert_eq!(state.current_scan_error.as_deref(), Some("denied"));
    assert_eq!(state.parent_scan_error, None);
}

#[test]
fn climbing_falls_back_to_the_saved_highlight_and_then_to_the_top() {
    let mut state = state_in_project();
    state.parent_entries = vec![dir("/tmp/other"), dir("/tmp/more")];
    state.history.insert(path("/tmp"), "more".into());
    open_parent(&mut state).unwrap();
    assert_eq!(state.selected, 1);

    let mut state = state_in_project();
    state.parent_entries = vec![dir("/tmp/other"), dir("/tmp/more")];
    state.selected = 1;
    open_parent(&mut state).unwrap();
    assert_eq!(state.selected, 0);
}

#[test]
fn a_relative_path_of_one_part_has_no_usable_parent() {
    assert_eq!(usable_parent(&path("project")), None);
    assert_eq!(usable_parent(&path(".")), None);
    assert_eq!(usable_parent(&path("a/b")), Some(path("a")));
    assert_eq!(usable_parent(&path("/a")), Some(path("/")));
}
