use hayate::app::command::Command;
use hayate::app::jobs::{Job, JobAction, Report};
use hayate::app::navigation::ScanPlan;
use hayate::app::open_with::InteractionMode;
use hayate::app::{
    apply_open_with_key, dispatch_key, external_outcome, finish_key, handle_message, invalidate_cached_preview,
    preview_scroll_metrics, report_external, request_preview_if_needed, resolve_editor_spec,
    run_command, AppState, ExternalOutcome, LoopCtl, LoopEffect,
};
use hayate::app::turn::{turn, TurnAction, TurnEvent};
use hayate::event::{AppEvent, KeyCode, KeyEvent, KeyEventKind, KeyModifiers, TermEvent};
use hayate::fs::FileEntry;
use hayate::path::{FilePath, OsText};
use hayate::preview::{FilePreview, PreviewPayload};

fn path(text: &str) -> FilePath {
    FilePath::new(text)
}

fn state() -> AppState {
    AppState::new(path("/tmp"))
}

fn state_with_entries(count: usize) -> AppState {
    let mut state = state();
    state.entries = (0..count)
        .map(|i| FileEntry::new(path(&format!("/tmp/{i}.txt")), false, 0))
        .collect();
    state
}

fn in_project() -> AppState {
    let mut state = AppState::new(path("/tmp/project"));
    state.entries = vec![FileEntry::new(path("/tmp/project/src"), true, 0)];
    state
}

fn cancels(ctl: &LoopCtl, job: Job) -> bool {
    ctl.actions.contains(&JobAction::Cancel(job))
}

fn bare(code: KeyCode) -> KeyEvent {
    KeyEvent::new(code, KeyModifiers::none())
}

#[test]
fn quit_command_sets_should_quit() {
    let mut state = state();
    let mut ctl = LoopCtl::new();

    run_command(Command::Quit, &mut state, &mut ctl);

    assert!(state.should_quit);
}

#[test]
fn recount_command_is_a_noop_while_already_counting() {
    let mut state = state();
    state.is_counting_recursively = true;
    let mut ctl = LoopCtl::new();

    run_command(Command::RecountRecursive, &mut state, &mut ctl);

    assert!(ctl.actions.is_empty());
    assert!(!ctl.active_job);
}

#[test]
fn recount_command_starts_a_job_and_sets_the_flag() {
    let mut state = state();
    let mut ctl = LoopCtl::new();

    run_command(Command::RecountRecursive, &mut state, &mut ctl);

    assert!(state.is_counting_recursively);
    assert!(ctl.active_job);
    assert_eq!(
        ctl.take_actions(),
        vec![JobAction::Count {
            path: path("/tmp"),
            generation: 1
        }]
    );
    assert!(ctl.actions.is_empty());
}

#[test]
fn cancel_command_cancels_the_active_job_and_clears_the_flag() {
    let mut state = state();
    state.is_counting_recursively = true;
    let mut ctl = LoopCtl::new();
    ctl.active_job = true;

    run_command(Command::Cancel, &mut state, &mut ctl);

    assert_eq!(ctl.actions, vec![JobAction::Cancel(Job::Count)]);
    assert!(!ctl.active_job);
    assert!(!state.is_counting_recursively);
}

#[test]
fn cancel_command_is_a_harmless_noop_when_nothing_is_running() {
    let mut state = state();
    let mut ctl = LoopCtl::new();

    run_command(Command::Cancel, &mut state, &mut ctl);

    assert!(!state.should_quit);
    assert!(!ctl.active_job);
    assert!(ctl.actions.is_empty());
    assert_eq!(state.count_generation, 0);
}

#[test]
fn select_previous_stops_at_zero() {
    let mut state = state_with_entries(3);
    let mut ctl = LoopCtl::new();

    run_command(Command::SelectPrevious, &mut state, &mut ctl);
    assert_eq!(state.selected, 0);

    state.selected = 2;
    run_command(Command::SelectPrevious, &mut state, &mut ctl);
    assert_eq!(state.selected, 1);
}

#[test]
fn select_next_stops_at_the_last_entry() {
    let mut state = state_with_entries(3);
    let mut ctl = LoopCtl::new();

    run_command(Command::SelectNext, &mut state, &mut ctl);
    assert_eq!(state.selected, 1);

    state.selected = 2;
    run_command(Command::SelectNext, &mut state, &mut ctl);
    assert_eq!(state.selected, 2, "must not move past the last entry");
}

#[test]
fn select_next_on_empty_entries_does_not_panic_or_move() {
    let mut state = state();
    let mut ctl = LoopCtl::new();

    run_command(Command::SelectNext, &mut state, &mut ctl);

    assert_eq!(state.selected, 0);
}

#[test]
fn select_previous_moves_the_visible_highlight_when_selected_is_past_the_end() {
    let mut state = state_with_entries(3);
    state.selected = 10;
    let mut ctl = LoopCtl::new();

    run_command(Command::SelectPrevious, &mut state, &mut ctl);

    assert_eq!(
        state.selected_index(),
        Some(1),
        "k should move off the last visible row (selected={})",
        state.selected
    );
}

#[test]
fn select_next_when_selected_is_past_the_end_stays_on_the_last_visible_row() {
    let mut state = state_with_entries(3);
    state.selected = 10;
    let mut ctl = LoopCtl::new();

    run_command(Command::SelectNext, &mut state, &mut ctl);

    assert_eq!(
        state.selected_index(),
        Some(2),
        "j must not walk off the listing (selected={})",
        state.selected
    );
}

#[test]
fn a_stale_recount_finished_does_not_abort_a_newer_count() {
    let mut state = state();
    state.is_counting_recursively = true;
    state.count_generation = 1;
    let mut ctl = LoopCtl::new();
    ctl.active_job = true;

    handle_message(
        &mut state,
        &mut ctl,
        Report::RecursiveCountFinished(0, None),
    );

    assert!(
        state.is_counting_recursively,
        "a cancelled older count cleared the in-progress flag"
    );
    assert!(
        ctl.active_job,
        "a cancelled older count dropped the live job"
    );
    assert!(!cancels(&ctl, Job::Count));
}

#[test]
fn cancelling_a_recount_drops_a_late_successful_result() {
    let mut state = state();
    state.is_counting_recursively = true;
    state.count_generation = 1;
    let mut ctl = LoopCtl::new();
    ctl.active_job = true;

    run_command(Command::Cancel, &mut state, &mut ctl);
    handle_message(
        &mut state,
        &mut ctl,
        Report::RecursiveCountFinished(1, Some(99)),
    );

    assert!(!state.is_counting_recursively);
    assert!(state.recursive_file_count.is_none());
}

#[test]
fn a_stale_preview_ready_does_not_drop_the_live_preview_token() {
    let mut state = state();
    state.entries = vec![
        FileEntry::new(path("/tmp/a.txt"), false, 3),
        FileEntry::new(path("/tmp/b.txt"), false, 3),
    ];
    let mut ctl = LoopCtl::new();

    request_preview_if_needed(&mut state, &mut ctl);
    run_command(Command::SelectNext, &mut state, &mut ctl);
    request_preview_if_needed(&mut state, &mut ctl);
    assert!(ctl.preview_job, "b.txt preview should be in flight");
    ctl.take_actions();

    handle_message(
        &mut state,
        &mut ctl,
        Report::PreviewReady(
            path("/tmp/a.txt"),
            PreviewPayload::Text {
                content: "stale".into(),
                truncated: false,
            },
        ),
    );

    assert!(
        ctl.preview_job,
        "a late preview for a.txt dropped the read of b.txt"
    );
    assert!(ctl.actions.is_empty());
    assert_eq!(state.preview, FilePreview::Loading(path("/tmp/b.txt")));
}

#[test]
fn enter_directory_cancels_the_previous_scan_token() {
    let mut state = in_project();
    let mut ctl = LoopCtl::new();

    run_command(Command::EnterDirectory, &mut state, &mut ctl);

    assert_eq!(
        ctl.take_actions(),
        vec![
            JobAction::Cancel(Job::Scan),
            JobAction::ScanCurrent {
                path: path("/tmp/project/src"),
                generation: 1
            },
        ]
    );
    assert_eq!(state.current_dir, path("/tmp/project/src"));
}

#[test]
fn open_parent_at_root_does_not_cancel_scans() {
    let mut state = AppState::new(path("/"));
    let mut ctl = LoopCtl::new();

    run_command(Command::OpenParent, &mut state, &mut ctl);

    assert!(!cancels(&ctl, Job::Scan));
    assert_eq!(state.current_dir, path("/"));
}

#[test]
fn applying_a_scan_plan_also_cancels_an_in_flight_recount() {
    let mut state = in_project();
    state.is_counting_recursively = true;
    let mut ctl = LoopCtl::new();
    ctl.active_job = true;

    run_command(Command::EnterDirectory, &mut state, &mut ctl);

    assert!(cancels(&ctl, Job::Count));
    assert!(!ctl.active_job);
    assert!(!state.is_counting_recursively);
}

#[test]
fn applying_a_current_scan_plan_drops_stale_entries_and_errors() {
    let mut state = AppState::new(path("/tmp/project"));
    state.entries = vec![FileEntry::new(path("/tmp/project/stale.txt"), false, 0)];
    state.current_listing_complete = true;
    state.current_scan_error = Some("old error".into());
    let mut ctl = LoopCtl::new();

    ctl.apply_scan_plan(
        &mut state,
        ScanPlan {
            current: Some(path("/tmp/project/src")),
            parent: None,
        },
    );

    assert!(state.entries.is_empty());
    assert!(!state.current_listing_complete);
    assert!(state.current_scan_error.is_none());
}

#[test]
fn quitting_cancels_a_still_running_child_job_via_the_parent_token() {
    let cancel_token = tokio_util::sync::CancellationToken::new();
    let job_token = cancel_token.child_token();

    cancel_token.cancel();

    assert!(job_token.is_cancelled());
}

#[test]
fn requesting_preview_loads_the_selected_file() {
    let mut state = state();
    state.entries = vec![FileEntry::new(path("/tmp/a.txt"), false, 5)];
    let mut ctl = LoopCtl::new();

    request_preview_if_needed(&mut state, &mut ctl);
    assert!(matches!(state.preview, FilePreview::Loading(_)));
    assert_eq!(
        ctl.take_actions(),
        vec![JobAction::LoadPreview {
            path: path("/tmp/a.txt")
        }]
    );

    let payload = hayate::preview::loaded(Ok(b"hello".to_vec()), false).unwrap();
    handle_message(
        &mut state,
        &mut ctl,
        Report::PreviewReady(path("/tmp/a.txt"), payload),
    );

    assert!(matches!(
        state.preview,
        FilePreview::Text { ref content, .. } if content == "hello"
    ));
    assert!(!ctl.preview_job);
}

#[test]
fn requesting_preview_again_for_the_same_file_does_not_respawn() {
    let mut state = state();
    state.entries = vec![FileEntry::new(path("/tmp/a.txt"), false, 5)];
    let mut ctl = LoopCtl::new();

    request_preview_if_needed(&mut state, &mut ctl);
    ctl.take_actions();
    request_preview_if_needed(&mut state, &mut ctl);

    assert!(ctl.actions.is_empty());
    assert!(ctl.preview_job);
}

#[test]
fn requesting_preview_for_a_directory_clears_cached_file_text() {
    let mut state = state();
    state.entries = vec![FileEntry::new(path("/tmp/sub"), true, 0)];
    state.preview_scroll = 12;
    state.preview = FilePreview::Text {
        path: path("/tmp/old.txt"),
        content: "stale".into(),
        truncated: false,
    };
    let mut ctl = LoopCtl::new();
    ctl.preview_job = true;

    request_preview_if_needed(&mut state, &mut ctl);

    assert!(cancels(&ctl, Job::Preview));
    assert!(matches!(state.preview, FilePreview::Idle));
    assert_eq!(state.preview_scroll, 0);
    assert!(!ctl.preview_job);
}

fn tall_preview_state() -> AppState {
    let mut state = state();
    state.frame_width = 80;
    state.frame_height = 24;
    state.entries = vec![FileEntry::new(path("/tmp/a.txt"), false, 0)];
    state.preview = FilePreview::Text {
        path: path("/tmp/a.txt"),
        content: (0..80)
            .map(|i| format!("LINE-{i}"))
            .collect::<Vec<_>>()
            .join("\n"),
        truncated: false,
    };
    state
}

#[test]
fn preview_page_down_scrolls_without_moving_the_file_list() {
    let mut state = tall_preview_state();
    let mut ctl = LoopCtl::new();

    run_command(Command::PreviewPageDown, &mut state, &mut ctl);

    assert!(state.preview_scroll > 0);
    assert_eq!(state.selected, 0);
}

#[test]
fn preview_page_down_stops_at_the_last_visible_page() {
    let mut state = tall_preview_state();
    let mut ctl = LoopCtl::new();

    for _ in 0..20 {
        run_command(Command::PreviewPageDown, &mut state, &mut ctl);
    }

    let (_, limit) = preview_scroll_metrics(&state);
    assert_eq!(state.preview_scroll, limit);
    assert!(limit > 0);
}

#[test]
fn preview_page_up_from_the_top_stays_at_zero() {
    let mut state = tall_preview_state();
    let mut ctl = LoopCtl::new();

    run_command(Command::PreviewPageUp, &mut state, &mut ctl);

    assert_eq!(state.preview_scroll, 0);
}

#[test]
fn highlighting_a_different_file_resets_preview_scroll() {
    let mut state = tall_preview_state();
    state
        .entries
        .push(FileEntry::new(path("/tmp/b.txt"), false, 0));
    state.preview_scroll = 10;
    let mut ctl = LoopCtl::new();

    run_command(Command::SelectNext, &mut state, &mut ctl);
    request_preview_if_needed(&mut state, &mut ctl);

    assert_eq!(state.preview_scroll, 0);
}

#[test]
fn open_in_editor_on_a_file_does_not_cancel_scans() {
    let mut state = state_with_entries(2);
    let mut ctl = LoopCtl::new();

    let effect = run_command(Command::OpenInEditor, &mut state, &mut ctl);

    assert!(!cancels(&ctl, Job::Scan));
    assert_eq!(effect, LoopEffect::OpenEditor(path("/tmp/0.txt")));
}

#[test]
fn open_in_editor_on_a_directory_is_a_noop() {
    let mut state = state();
    state.entries = vec![FileEntry::new(path("/tmp/sub"), true, 0)];
    let mut ctl = LoopCtl::new();

    let effect = run_command(Command::OpenInEditor, &mut state, &mut ctl);

    assert_eq!(effect, LoopEffect::Nothing);
    assert_eq!(state.current_dir, path("/tmp"));
}

#[test]
fn open_in_editor_on_an_empty_listing_is_a_noop() {
    let mut state = state();
    let mut ctl = LoopCtl::new();

    assert_eq!(
        run_command(Command::OpenInEditor, &mut state, &mut ctl),
        LoopEffect::Nothing
    );
}

#[test]
fn enter_directory_on_a_file_does_not_open_the_editor() {
    let mut state = state_with_entries(1);
    let mut ctl = LoopCtl::new();

    let effect = run_command(Command::EnterDirectory, &mut state, &mut ctl);

    assert_eq!(
        effect,
        LoopEffect::Nothing,
        "l/Right must not launch $EDITOR"
    );
}

#[test]
fn activate_on_a_file_opens_the_editor() {
    let mut state = state_with_entries(1);
    let mut ctl = LoopCtl::new();

    let effect = run_command(Command::Activate, &mut state, &mut ctl);

    assert_eq!(effect, LoopEffect::OpenEditor(path("/tmp/0.txt")));
    assert_eq!(state.current_dir, path("/tmp"));
}

#[test]
fn activate_on_a_directory_enters_it() {
    let mut state = in_project();
    let mut ctl = LoopCtl::new();

    let effect = run_command(Command::Activate, &mut state, &mut ctl);

    assert_eq!(effect, LoopEffect::Nothing);
    assert_eq!(state.current_dir, path("/tmp/project/src"));
}

#[test]
fn a_command_clears_a_previous_notice() {
    let mut state = state();
    state.notice = Some("no editor found (set EDITOR, or install nvim/vim/vi/nano)".into());
    let mut ctl = LoopCtl::new();

    run_command(Command::SelectNext, &mut state, &mut ctl);

    assert!(state.notice.is_none());
}

#[test]
fn invalidate_cached_preview_drops_the_in_flight_token() {
    let mut state = state_with_entries(1);
    state.preview = FilePreview::Text {
        path: path("/tmp/0.txt"),
        content: "old".into(),
        truncated: false,
    };
    state.preview_scroll = 4;
    let mut ctl = LoopCtl::new();
    ctl.preview_job = true;

    invalidate_cached_preview(&mut state, &mut ctl);

    assert!(cancels(&ctl, Job::Preview));
    assert!(!ctl.preview_job);
    assert!(matches!(state.preview, FilePreview::Idle));
    assert_eq!(state.preview_scroll, 0);
}

#[test]
fn open_with_on_a_file_opens_the_picker_without_cancelling_scans() {
    let mut state = state_with_entries(1);
    let mut ctl = LoopCtl::new();

    let effect = run_command(Command::OpenWith, &mut state, &mut ctl);

    assert_eq!(effect, LoopEffect::Nothing);
    assert!(!cancels(&ctl, Job::Scan));
    assert!(matches!(state.mode, InteractionMode::OpenWith(_)));
    assert_eq!(state.open_with_generation, 1);
}

#[test]
fn open_with_on_a_directory_is_a_noop() {
    let mut state = state();
    state.entries = vec![FileEntry::new(path("/tmp/sub"), true, 0)];
    let mut ctl = LoopCtl::new();

    run_command(Command::OpenWith, &mut state, &mut ctl);

    assert!(matches!(state.mode, InteractionMode::Browser));
}

#[test]
fn j_in_the_open_with_picker_does_not_move_the_file_list() {
    let mut state = state_with_entries(3);
    state.selected = 0;
    let mut ctl = LoopCtl::new();
    run_command(Command::OpenWith, &mut state, &mut ctl);
    if let InteractionMode::OpenWith(prompt) = &mut state.mode {
        prompt.set_candidates(vec!["nvim".into(), "vim".into()]);
    }

    let effect = dispatch_key(bare(KeyCode::Char('j')), &mut state, &mut ctl);

    assert_eq!(effect, LoopEffect::Nothing);
    assert_eq!(
        state.selected, 0,
        "j must not move the file list while the picker is open"
    );
    match &state.mode {
        InteractionMode::OpenWith(prompt) => assert_eq!(prompt.selected, 1),
        InteractionMode::Browser => panic!("picker closed"),
    }
}

#[test]
fn q_in_the_open_with_picker_does_not_quit() {
    let mut state = state_with_entries(1);
    let mut ctl = LoopCtl::new();
    run_command(Command::OpenWith, &mut state, &mut ctl);

    dispatch_key(bare(KeyCode::Char('q')), &mut state, &mut ctl);

    assert!(!state.should_quit);
    match &state.mode {
        InteractionMode::OpenWith(prompt) => assert_eq!(prompt.query, "q"),
        InteractionMode::Browser => panic!("picker closed"),
    }
}

#[test]
fn ctrl_c_quits_even_while_the_picker_is_open() {
    let mut state = state_with_entries(1);
    let mut ctl = LoopCtl::new();
    run_command(Command::OpenWith, &mut state, &mut ctl);

    let key = KeyEvent::new(KeyCode::Char('c'), KeyModifiers::only_control());
    dispatch_key(key, &mut state, &mut ctl);

    assert!(state.should_quit);
}

#[test]
fn esc_closes_the_open_with_picker() {
    let mut state = state_with_entries(1);
    let mut ctl = LoopCtl::new();
    run_command(Command::OpenWith, &mut state, &mut ctl);
    assert!(ctl.open_with_job);

    dispatch_key(bare(KeyCode::Esc), &mut state, &mut ctl);

    assert!(matches!(state.mode, InteractionMode::Browser));
    assert!(!ctl.open_with_job);
    assert!(cancels(&ctl, Job::Listing));
}

#[test]
fn enter_in_the_picker_launches_the_typed_command() {
    let mut state = state_with_entries(1);
    let mut ctl = LoopCtl::new();
    run_command(Command::OpenWith, &mut state, &mut ctl);
    if let InteractionMode::OpenWith(prompt) = &mut state.mode {
        prompt.query = "hexdump -C".into();
    }

    let effect = dispatch_key(bare(KeyCode::Enter), &mut state, &mut ctl);

    match effect {
        LoopEffect::RunExternal {
            spec,
            report_nonzero,
        } => {
            assert!(report_nonzero);
            assert_eq!(spec.program, OsText::new("hexdump"));
            assert_eq!(
                spec.args,
                vec![OsText::new("-C"), OsText::new("/tmp/0.txt")]
            );
        }
        other => panic!("expected RunExternal, got {other:?}"),
    }
    assert!(matches!(state.mode, InteractionMode::Browser));
}

#[test]
fn an_empty_picker_answers_enter_with_a_notice() {
    let mut state = state_with_entries(1);
    let mut ctl = LoopCtl::new();
    run_command(Command::OpenWith, &mut state, &mut ctl);
    let effect = apply_open_with_key(bare(KeyCode::Enter), &mut state, &mut ctl);
    assert_eq!(effect, LoopEffect::Nothing);
    assert_eq!(state.notice.as_deref(), Some("command is empty"));
    assert!(matches!(state.mode, InteractionMode::OpenWith(_)));
}

#[test]
fn listed_programs_reach_the_picker_that_asked_for_them() {
    let mut state = state_with_entries(1);
    let mut ctl = LoopCtl::new();
    run_command(Command::OpenWith, &mut state, &mut ctl);
    assert_eq!(
        ctl.take_actions(),
        vec![JobAction::ListPrograms { generation: 1 }]
    );

    handle_message(
        &mut state,
        &mut ctl,
        Report::ProgramsListed(9, vec!["late".into()]),
    );
    handle_message(
        &mut state,
        &mut ctl,
        Report::ProgramsListed(1, vec!["vim".into()]),
    );

    match &state.mode {
        InteractionMode::OpenWith(prompt) => {
            assert_eq!(prompt.candidates, vec!["vim"]);
            assert!(prompt.listing_complete);
        }
        InteractionMode::Browser => panic!("picker closed"),
    }
}

#[test]
fn batches_of_an_old_generation_are_dropped() {
    let mut state = in_project();
    let mut ctl = LoopCtl::new();
    run_command(Command::EnterDirectory, &mut state, &mut ctl);

    let late = FileEntry::new(path("/tmp/project/late.txt"), false, 0);
    handle_message(
        &mut state,
        &mut ctl,
        Report::ScanBatch(0, vec![late.clone()]),
    );
    handle_message(&mut state, &mut ctl, Report::ScanFinished(0));
    handle_message(&mut state, &mut ctl, Report::ParentScanBatch(0, vec![late]));
    handle_message(&mut state, &mut ctl, Report::ParentScanFinished(0));
    assert!(state.entries.is_empty());
    assert_eq!(state.parent_entries.len(), 1);
    assert!(!state.current_listing_complete);
    assert!(!state.parent_listing_complete);

    let live = FileEntry::new(path("/tmp/project/src/lib.rs"), false, 0);
    handle_message(&mut state, &mut ctl, Report::ScanBatch(1, vec![live]));
    handle_message(&mut state, &mut ctl, Report::ScanFinished(1));
    assert_eq!(state.entries.len(), 1);
    assert!(state.current_listing_complete);
    assert_eq!(
        state.preview,
        FilePreview::Loading(path("/tmp/project/src/lib.rs"))
    );
}

fn batch(names: &[&str]) -> Vec<FileEntry> {
    names
        .iter()
        .map(|name| FileEntry::new(path(&format!("/tmp/project/src/{name}")), false, 0))
        .collect()
}

/// In `/tmp/project/src`, which was left with `lib.rs` highlighted.
fn back_in_src() -> (AppState, LoopCtl) {
    let mut state = in_project();
    state
        .history
        .insert(path("/tmp/project/src"), "lib.rs".into());
    let mut ctl = LoopCtl::new();
    run_command(Command::EnterDirectory, &mut state, &mut ctl);
    (state, ctl)
}

#[test]
fn the_saved_highlight_comes_back_as_the_listing_streams_in() {
    let (mut state, mut ctl) = back_in_src();
    let live = state.scan_generation;
    let a = batch(&["a.rs"]);
    handle_message(&mut state, &mut ctl, Report::ScanBatch(live, a));
    assert_eq!(state.selected, 0);
    let b = batch(&["lib.rs"]);
    handle_message(&mut state, &mut ctl, Report::ScanBatch(live, b));
    assert_eq!(state.selected, 1);

    // Having come back once, it does not follow the user around.
    run_command(Command::SelectPrevious, &mut state, &mut ctl);
    handle_message(&mut state, &mut ctl, Report::ScanBatch(live, vec![]));
    assert_eq!(state.selected, 0);
}

#[test]
fn a_highlight_that_the_user_moved_is_left_alone() {
    let (mut state, mut ctl) = back_in_src();
    let live = state.scan_generation;
    let a = batch(&["a.rs", "b.rs"]);
    handle_message(&mut state, &mut ctl, Report::ScanBatch(live, a));
    run_command(Command::SelectNext, &mut state, &mut ctl);
    run_command(Command::SelectPrevious, &mut state, &mut ctl);
    let b = batch(&["lib.rs"]);
    handle_message(&mut state, &mut ctl, Report::ScanBatch(live, b));
    assert_eq!(state.selected, 0);
}

#[test]
fn batches_do_not_move_the_highlight_without_a_change_of_directory() {
    let mut state = state_with_entries(2);
    state.history.insert(path("/tmp"), "1.txt".into());
    let mut ctl = LoopCtl::new();
    handle_message(&mut state, &mut ctl, Report::ScanBatch(0, vec![]));
    assert_eq!(state.selected, 0);
}

fn step(state: &mut AppState, ctl: &mut LoopCtl, event: TurnEvent<String>) -> TurnAction<String> {
    turn(state, ctl, event)
}

#[test]
fn a_turn_draws_waits_and_goes_on() {
    let mut state = state_with_entries(1);
    let mut ctl = LoopCtl::new();
    let size = Some((100, 50));
    assert!(matches!(
        step(&mut state, &mut ctl, TurnEvent::Begin { size }),
        TurnAction::Draw
    ));
    assert_eq!((state.frame_width, state.frame_height), (100, 50));
    assert!(matches!(
        step(&mut state, &mut ctl, TurnEvent::Drawn(Ok(()))),
        TurnAction::Wait
    ));
    for ignored in [
        AppEvent::Tick,
        AppEvent::Error("boom".to_string()),
        AppEvent::Input(TermEvent::Other),
    ] {
        assert!(matches!(
            step(&mut state, &mut ctl, TurnEvent::Input(Ok(ignored))),
            TurnAction::Next
        ));
        assert!(ctl.actions.is_empty());
    }
    let key = AppEvent::Input(TermEvent::Key(bare(KeyCode::Char('x'))));
    assert!(matches!(
        step(&mut state, &mut ctl, TurnEvent::Input(Ok(key))),
        TurnAction::Next
    ));
    assert_eq!(
        ctl.take_actions(),
        vec![JobAction::LoadPreview {
            path: path("/tmp/0.txt")
        }]
    );
    let report = Report::ScanFinished(0);
    assert!(matches!(
        step(&mut state, &mut ctl, TurnEvent::Reported(report)),
        TurnAction::Next
    ));
    assert!(state.current_listing_complete);
    assert!(matches!(
        step(&mut state, &mut ctl, TurnEvent::Begin { size: None }),
        TurnAction::Draw
    ));
    assert_eq!((state.frame_width, state.frame_height), (100, 50));
}

#[test]
fn a_turn_hands_the_terminal_to_a_launched_program() {
    let mut state = state_with_entries(1);
    let mut ctl = LoopCtl::new();
    run_command(Command::OpenWith, &mut state, &mut ctl);
    if let InteractionMode::OpenWith(prompt) = &mut state.mode {
        prompt.query = "less".into();
    }
    ctl.take_actions();
    let key = AppEvent::Input(TermEvent::Key(bare(KeyCode::Enter)));
    match step(&mut state, &mut ctl, TurnEvent::Input(Ok(key))) {
        TurnAction::Run(LoopEffect::RunExternal { spec, .. }) => {
            assert_eq!(spec.program, OsText::new("less"));
        }
        other => panic!("expected a program to run, got {other:?}"),
    }
    // The listing is cancelled before the program runs, and nothing is read yet.
    assert_eq!(ctl.take_actions(), vec![JobAction::Cancel(Job::Listing)]);
}

#[test]
fn the_loop_ends_on_quit_and_on_failures_and_cancels_its_jobs() {
    let mut state = state();
    let mut ctl = LoopCtl::new();
    let failure = || Err("gone".to_string());
    match step(&mut state, &mut ctl, TurnEvent::Drawn(failure())) {
        TurnAction::End(result) => assert_eq!(result, failure()),
        other => panic!("expected the end, got {other:?}"),
    }
    assert_eq!(ctl.take_actions(), vec![JobAction::CancelAll]);
    match step(
        &mut state,
        &mut ctl,
        TurnEvent::Input(Err("gone".to_string())),
    ) {
        TurnAction::End(result) => assert_eq!(result, failure()),
        other => panic!("expected the end, got {other:?}"),
    }
    assert_eq!(ctl.take_actions(), vec![JobAction::CancelAll]);
    state.should_quit = true;
    match step(&mut state, &mut ctl, TurnEvent::Begin { size: None }) {
        TurnAction::End(result) => assert_eq!(result, Ok(())),
        other => panic!("expected the end, got {other:?}"),
    }
    assert_eq!(ctl.take_actions(), vec![JobAction::CancelAll]);
}

#[test]
fn paging_goes_by_the_pane() {
    let mut state = tall_preview_state();
    let mut ctl = LoopCtl::new();
    // 24 rows less the border, less the row that stays.
    let (page, limit) = preview_scroll_metrics(&state);
    assert_eq!(page, 21);
    // Three header rows and eighty lines in twenty-two rows.
    assert_eq!(limit, 61);
    run_command(Command::PreviewPageDown, &mut state, &mut ctl);
    assert_eq!(state.preview_scroll, 21);
    run_command(Command::PreviewPageUp, &mut state, &mut ctl);
    assert_eq!(state.preview_scroll, 0);
}

#[test]
fn generations_wrap() {
    let mut state = state();
    state.count_generation = u64::MAX;
    let mut ctl = LoopCtl::new();
    run_command(Command::RecountRecursive, &mut state, &mut ctl);
    assert_eq!(state.count_generation, 0);
}

#[test]
fn a_missing_editor_becomes_a_notice() {
    let mut state = state();
    let target = path("/tmp/a.txt");
    assert_eq!(
        resolve_editor_spec(&mut state, &target, None, Some(" "), None),
        None
    );
    assert_eq!(
        state.notice.as_deref(),
        Some("no editor found (set EDITOR, or install nvim/vim/vi/nano)")
    );
    state.notice = None;
    let spec = resolve_editor_spec(&mut state, &target, None, None, Some("vi")).unwrap();
    assert_eq!(spec.program, OsText::new("vi"));
    assert_eq!(state.notice, None);
}

#[test]
fn outcomes_of_programs_become_notices() {
    let told = |outcome: ExternalOutcome, report_nonzero: bool| {
        let mut state = state();
        let ran = report_external(&mut state, "vim", report_nonzero, outcome);
        (ran, state.notice)
    };
    let ended = |success: bool, code: Option<i32>| ExternalOutcome::Ended { success, code };
    assert_eq!(told(ended(true, Some(0)), true), (true, None));
    assert_eq!(told(ended(false, Some(1)), false), (true, None));
    assert_eq!(
        told(ended(false, Some(127)), true),
        (true, Some("vim exited with status 127".to_string()))
    );
    assert_eq!(
        told(ended(false, Some(-1)), true),
        (true, Some("vim exited with status -1".to_string()))
    );
    assert_eq!(
        told(ended(false, None), true),
        (true, Some("vim was terminated by a signal".to_string()))
    );
    assert_eq!(
        told(ExternalOutcome::TaskFailed("gone".to_string()), true),
        (true, Some("editor task failed: gone".to_string()))
    );
    assert_eq!(
        told(ExternalOutcome::LaunchFailed("no such file".to_string()), false),
        (false, Some("no such file".to_string()))
    );
    for started in [true, false] {
        let message = "tty".to_string();
        assert_eq!(
            told(ExternalOutcome::ResumeFailed { message, started }, false),
            (started, Some("tty".to_string()))
        );
    }
    assert_eq!(
        told(ExternalOutcome::SuspendFailed("tty".to_string()), false),
        (false, Some("tty".to_string()))
    );
}

#[test]
fn a_program_that_ran_has_the_preview_read_again() {
    let mut state = tall_preview_state();
    let mut ctl = LoopCtl::new();
    finish_key(&mut state, &mut ctl, false);
    assert!(ctl.actions.is_empty());
    finish_key(&mut state, &mut ctl, true);
    assert_eq!(state.preview, FilePreview::Loading(path("/tmp/a.txt")));
    assert_eq!(
        ctl.take_actions(),
        vec![JobAction::LoadPreview {
            path: path("/tmp/a.txt")
        }]
    );
}

#[test]
fn releases_do_nothing_in_either_mode() {
    let mut state = state_with_entries(2);
    let mut ctl = LoopCtl::new();
    let release = |code: KeyCode| KeyEvent {
        code,
        modifiers: KeyModifiers::none(),
        kind: KeyEventKind::Release,
    };
    dispatch_key(release(KeyCode::Char('q')), &mut state, &mut ctl);
    assert!(!state.should_quit);
    run_command(Command::OpenWith, &mut state, &mut ctl);
    dispatch_key(release(KeyCode::Esc), &mut state, &mut ctl);
    assert!(matches!(state.mode, InteractionMode::OpenWith(_)));
}

fn in_step(state: &AppState, ctl: &LoopCtl) -> bool {
    ctl.active_job == state.is_counting_recursively
        && ctl.preview_job == matches!(state.preview, FilePreview::Loading(_))
        && ctl.open_with_job == matches!(state.mode, InteractionMode::OpenWith(_))
}

#[test]
fn jobs_and_state_stay_in_step_through_a_session() {
    let mut state = in_project();
    state
        .entries
        .push(FileEntry::new(path("/tmp/project/a.txt"), false, 0));
    let mut ctl = LoopCtl::new();
    assert!(in_step(&state, &ctl));
    for command in [
        Command::SelectNext,
        Command::RecountRecursive,
        Command::OpenWith,
        Command::Cancel,
        Command::RecountRecursive,
        Command::PreviewPageDown,
        Command::SelectPrevious,
        Command::Activate,
        Command::OpenParent,
        Command::Quit,
    ] {
        run_command(command, &mut state, &mut ctl);
        assert!(in_step(&state, &ctl), "after {command:?}");
        finish_key(&mut state, &mut ctl, false);
        assert!(in_step(&state, &ctl), "after the preview of {command:?}");
    }
    assert!(state.should_quit);
}

#[test]
fn a_failed_resume_is_told_before_anything_else() {
    let text = |s: &str| s.to_string();
    let resumed = || Err(text("tty"));
    for (status, started) in [
        (Ok(Ok((true, Some(0)))), true),
        (Ok(Err(text("no such file"))), false),
        (Err(text("gone")), true),
    ] {
        assert_eq!(
            external_outcome(resumed(), status),
            ExternalOutcome::ResumeFailed {
                message: text("tty"),
                started
            }
        );
    }
    assert_eq!(
        external_outcome(Ok(()), Ok(Ok((false, Some(3))))),
        ExternalOutcome::Ended {
            success: false,
            code: Some(3)
        }
    );
    assert_eq!(
        external_outcome(Ok(()), Ok(Err(text("no such file")))),
        ExternalOutcome::LaunchFailed(text("no such file"))
    );
    assert_eq!(
        external_outcome(Ok(()), Err(text("gone"))),
        ExternalOutcome::TaskFailed(text("gone"))
    );
}

#[test]
fn plans_modes_effects_and_events_can_be_cloned() {
    let plan = ScanPlan {
        current: Some(path("/a")),
        parent: None,
    };
    assert_eq!(plan.clone(), plan);
    let mut state = state_with_entries(1);
    let mut ctl = LoopCtl::new();
    run_command(Command::OpenWith, &mut state, &mut ctl);
    if let InteractionMode::OpenWith(prompt) = &mut state.mode {
        prompt.set_candidates(vec!["vim".into(), "less".into()]);
        let rows = prompt.visible_rows();
        assert_eq!(rows.clone(), rows);
    }
    assert_eq!(state.mode.clone(), state.mode);
    let effect = dispatch_key(bare(KeyCode::Enter), &mut state, &mut ctl);
    assert!(matches!(effect, LoopEffect::RunExternal { .. }));
    assert_eq!(effect.clone(), effect);
    let event = AppEvent::Error("boom".to_string());
    assert_eq!(event.clone(), event);
}
