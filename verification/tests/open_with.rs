use compact_str::CompactString;
use hayate::app::editor::EditorError;
use hayate::app::open_with::{
    confirm, handle_key, matching_binaries, visible_rows, OpenWithAction, OpenWithPrompt,
    OpenWithRow, CANDIDATE_LIMIT, CURATED, DISPLAY_LIMIT,
};
use hayate::app::path_listing::{ListingAction, ListingEvent, PathListing};
use hayate::event::{KeyCode, KeyEvent, KeyEventKind, KeyModifiers};
use hayate::path::{FilePath, OsText};

fn bare(code: KeyCode) -> KeyEvent {
    KeyEvent::new(code, KeyModifiers::none())
}

fn names(list: &[&str]) -> Vec<CompactString> {
    list.iter().map(|name| CompactString::from(*name)).collect()
}

fn prompt_with(candidates: &[&str]) -> OpenWithPrompt {
    let mut prompt = OpenWithPrompt::new(FilePath::new("/tmp/notes.txt"), 1);
    prompt.set_candidates(names(candidates));
    prompt
}

#[test]
fn empty_query_shows_curated_binaries_that_exist_on_path() {
    let rows = visible_rows("", &names(&["less", "cat", "vim", "firefox"]));
    assert_eq!(
        rows,
        vec![
            OpenWithRow::Binary("vim".into()),
            OpenWithRow::Binary("less".into()),
        ]
    );
}

#[test]
fn empty_query_hides_curated_names_that_are_missing() {
    let rows = visible_rows("", &names(&["cat", "grep"]));
    assert!(rows.is_empty());
}

#[test]
fn non_empty_query_puts_the_typed_command_first() {
    let rows = visible_rows("mpv --fs", &names(&["mpv", "vim"]));
    assert_eq!(rows[0], OpenWithRow::Custom("mpv --fs".into()));
    assert!(rows.contains(&OpenWithRow::Binary("mpv".into())));
}

#[test]
fn prefix_matches_rank_above_substring_matches() {
    let rows = visible_rows("vi", &names(&["nvim", "vim", "vi", "evil"]));
    let binaries: Vec<_> = rows
        .into_iter()
        .filter_map(|row| match row {
            OpenWithRow::Binary(name) => Some(name.to_string()),
            OpenWithRow::Custom(_) => None,
        })
        .collect();
    assert_eq!(binaries, vec!["vi", "vim", "evil", "nvim"]);
}

#[test]
fn matching_is_capped() {
    let candidates: Vec<CompactString> = (0..50)
        .map(|i| CompactString::from(format!("tool-{i:02}")))
        .collect();
    let rows = visible_rows("tool", &candidates);
    let binaries = rows
        .iter()
        .filter(|row| matches!(row, OpenWithRow::Binary(_)))
        .count();
    assert_eq!(binaries, DISPLAY_LIMIT);
}

#[test]
fn confirm_empty_rows_is_an_error() {
    let prompt = prompt_with(&["cat"]);
    assert_eq!(confirm(&prompt), Err(EditorError::Empty));
}

#[test]
fn confirm_custom_row_keeps_flags_and_appends_the_file() {
    let mut prompt = prompt_with(&["code"]);
    prompt.query = "code --wait".into();
    let spec = confirm(&prompt).unwrap();
    assert_eq!(spec.program, OsText::new("code"));
    assert_eq!(
        spec.args,
        vec![OsText::new("--wait"), OsText::new("/tmp/notes.txt")]
    );
}

#[test]
fn confirm_binary_row_appends_the_file() {
    let mut prompt = prompt_with(&["vim", "nano"]);
    prompt.selected = 1;
    let spec = confirm(&prompt).unwrap();
    assert_eq!(spec.program, OsText::new("nano"));
    assert_eq!(spec.args, vec![OsText::new("/tmp/notes.txt")]);
}

#[test]
fn typing_resets_the_highlight_to_the_typed_command() {
    let mut prompt = prompt_with(&["vim", "nano"]);
    prompt.selected = 1;
    let action = handle_key(&mut prompt, bare(KeyCode::Char('m')));
    assert_eq!(action, OpenWithAction::Nothing);
    assert_eq!(prompt.query, "m");
    assert_eq!(prompt.selected, 0);
    assert_eq!(prompt.visible_rows()[0], OpenWithRow::Custom("m".into()));
}

#[test]
fn j_and_k_move_the_picker_not_past_the_ends() {
    let mut prompt = prompt_with(&["nvim", "vim"]);
    assert_eq!(prompt.visible_rows().len(), 2);

    handle_key(&mut prompt, bare(KeyCode::Char('j')));
    assert_eq!(prompt.selected, 1);
    handle_key(&mut prompt, bare(KeyCode::Char('j')));
    assert_eq!(prompt.selected, 1, "must not wrap past the last row");

    handle_key(&mut prompt, bare(KeyCode::Char('k')));
    assert_eq!(prompt.selected, 0);
    handle_key(&mut prompt, bare(KeyCode::Char('k')));
    assert_eq!(prompt.selected, 0, "must not wrap past the first row");
}

#[test]
fn q_types_into_the_query_instead_of_quitting() {
    let mut prompt = prompt_with(&["vim"]);
    handle_key(&mut prompt, bare(KeyCode::Char('q')));
    assert_eq!(prompt.query, "q");
}

#[test]
fn esc_closes_the_modal() {
    let mut prompt = prompt_with(&["vim"]);
    assert_eq!(
        handle_key(&mut prompt, bare(KeyCode::Esc)),
        OpenWithAction::Close
    );
}

#[test]
fn enter_on_empty_picker_returns_a_notice() {
    let mut prompt = prompt_with(&["cat"]);
    assert_eq!(
        handle_key(&mut prompt, bare(KeyCode::Enter)),
        OpenWithAction::Notice(EditorError::Empty.to_string())
    );
}

#[test]
fn ctrl_u_clears_the_query() {
    let mut prompt = prompt_with(&["vim"]);
    prompt.query = "nvim".into();
    handle_key(
        &mut prompt,
        KeyEvent::new(KeyCode::Char('u'), KeyModifiers::only_control()),
    );
    assert!(prompt.query.is_empty());
    assert_eq!(prompt.selected, 0);
}

#[test]
fn backspace_edits_the_query() {
    let mut prompt = prompt_with(&["vim"]);
    prompt.query = "vi".into();
    handle_key(&mut prompt, bare(KeyCode::Backspace));
    assert_eq!(prompt.query, "v");
}

#[test]
fn release_kind_is_ignored() {
    let mut prompt = prompt_with(&["vim"]);
    let key = KeyEvent {
        code: KeyCode::Char('x'),
        modifiers: KeyModifiers::none(),
        kind: KeyEventKind::Release,
    };
    handle_key(&mut prompt, key);
    assert!(prompt.query.is_empty());
}

#[test]
fn enter_launches_the_highlighted_row() {
    let mut prompt = prompt_with(&["vim", "less"]);
    prompt.selected = 99;
    match handle_key(&mut prompt, bare(KeyCode::Enter)) {
        OpenWithAction::Launch(spec) => assert_eq!(spec.program, OsText::new("less")),
        other => panic!("expected a launch, got {other:?}"),
    }
}

#[test]
fn arrows_move_like_the_letters() {
    let mut prompt = prompt_with(&["nvim", "vim", "vi"]);
    handle_key(&mut prompt, bare(KeyCode::Down));
    handle_key(&mut prompt, bare(KeyCode::Down));
    assert_eq!(prompt.selected, 2);
    handle_key(&mut prompt, bare(KeyCode::Up));
    assert_eq!(prompt.selected, 1);

    let mut nothing = prompt_with(&["cat"]);
    nothing.selected = 5;
    handle_key(&mut nothing, bare(KeyCode::Down));
    assert_eq!(nothing.selected, 5);
    handle_key(&mut nothing, bare(KeyCode::Up));
    assert_eq!(nothing.selected, 0);
}

#[test]
fn shifted_letters_are_typed_and_other_modifiers_are_not() {
    let mut prompt = prompt_with(&[]);
    handle_key(
        &mut prompt,
        KeyEvent::new(KeyCode::Char('K'), KeyModifiers::only_shift()),
    );
    assert_eq!(prompt.query, "K");
    handle_key(
        &mut prompt,
        KeyEvent::new(KeyCode::Char('j'), KeyModifiers::only_shift()),
    );
    assert_eq!(prompt.query, "Kj");
    handle_key(
        &mut prompt,
        KeyEvent::new(KeyCode::Char('x'), KeyModifiers::only_control()),
    );
    assert_eq!(prompt.query, "Kj");
    assert_eq!(
        handle_key(
            &mut prompt,
            KeyEvent::new(KeyCode::Esc, KeyModifiers::only_shift())
        ),
        OpenWithAction::Nothing
    );
}

#[test]
fn backspace_takes_whole_characters_and_stops_at_the_start() {
    let mut prompt = prompt_with(&[]);
    prompt.query = "aé".into();
    handle_key(&mut prompt, bare(KeyCode::Backspace));
    assert_eq!(prompt.query, "a");
    handle_key(&mut prompt, bare(KeyCode::Backspace));
    handle_key(&mut prompt, bare(KeyCode::Backspace));
    assert_eq!(prompt.query, "");
}

#[test]
fn matching_ignores_case_and_everything_after_the_first_word() {
    let found = matching_binaries("VIM -R x", &names(&["gVim", "Vimdiff", "vim", "emacs"]));
    assert_eq!(found, names(&["Vimdiff", "vim", "gVim"]));
}

#[test]
fn blank_queries_offer_the_curated_programs() {
    let all: Vec<CompactString> = CURATED.iter().map(|n| CompactString::from(*n)).collect();
    let rows = visible_rows(" \t ", &all);
    let expected: Vec<OpenWithRow> = all.into_iter().map(OpenWithRow::Binary).collect();
    assert_eq!(rows, expected);
    assert_eq!(rows[4], OpenWithRow::Binary("xdg-open".into()));
}

#[test]
fn programs_are_sorted_as_the_standard_library_sorts_them() {
    let list = [
        "toolé", "tool", "tool-b", "tool_a", "toolB", "tool~", "tool", "tool-a", "toolz", "to",
    ];
    let mut expected: Vec<&str> = list
        .iter()
        .copied()
        .filter(|n| n.starts_with("tool"))
        .collect();
    expected.sort();
    assert_eq!(matching_binaries("tool", &names(&list)), names(&expected));
}

#[test]
fn a_new_prompt_is_named_after_its_file() {
    let prompt = OpenWithPrompt::new(FilePath::new("/tmp/notes.txt"), 7);
    assert_eq!(prompt.target_name, "notes.txt");
    assert_eq!(prompt.generation, 7);
    assert!(!prompt.listing_complete);
    assert_eq!(OpenWithPrompt::new(FilePath::new("/"), 7).target_name, "/");
}

#[test]
fn taking_candidates_clamps_the_highlight() {
    let mut prompt = OpenWithPrompt::new(FilePath::new("/tmp/notes.txt"), 1);
    prompt.selected = 9;
    prompt.listing_error = Some("late".to_string());
    prompt.set_candidates(names(&["vim", "vi"]));
    assert_eq!(prompt.selected, 1);
    assert!(prompt.listing_complete);
    assert_eq!(prompt.listing_error, None);
    prompt.set_candidates(names(&[]));
    assert_eq!(prompt.selected, 0);
}

/// Walks directories of (name, executable) pairs as the program walks the
/// real search path.
fn listed(dirs: &[&[(&str, bool)]], cancelled: bool) -> Vec<String> {
    let mut listing = PathListing::new();
    for dir in dirs {
        if listing.step(ListingEvent::Directory { cancelled }) == ListingAction::Stop {
            break;
        }
        for (name, runnable) in *dir {
            let read = Some(name.to_string());
            match listing.step(ListingEvent::Entry { read, cancelled }) {
                ListingAction::Examine => {
                    let name = name.to_string();
                    let runnable = *runnable;
                    listing.step(ListingEvent::Examined { name, runnable });
                }
                ListingAction::Continue => {}
                ListingAction::LeaveDirectory | ListingAction::Stop => break,
            }
        }
    }
    listing
        .into_names()
        .iter()
        .map(|name| name.to_string())
        .collect()
}

#[test]
fn list_path_executables_keeps_the_first_path_directory_win() {
    let names = listed(
        &[
            &[("vim", true), ("not-exec", false)],
            &[("vim", true), ("nvim", true)],
        ],
        false,
    );
    assert_eq!(
        names,
        ["vim", "nvim"],
        "the later vim must not appear twice"
    );
}

#[test]
fn list_path_executables_stops_when_cancelled() {
    assert!(listed(&[&[("vim", true)]], true).is_empty());
}

#[test]
fn hidden_and_nameless_entries_are_not_listed() {
    let names = listed(&[&[(".hidden", true), ("", true), ("ok", true)]], false);
    assert_eq!(names, ["ok"]);
}

#[test]
fn a_name_that_was_not_runnable_may_still_be_found_later() {
    let names = listed(&[&[("tool", false)], &[("tool", true)]], false);
    assert_eq!(names, ["tool"]);
}

#[test]
fn an_unreadable_entry_is_passed_over() {
    let mut listing = PathListing::new();
    assert_eq!(
        listing.step(ListingEvent::Entry {
            read: None,
            cancelled: false
        }),
        ListingAction::Continue
    );
    assert_eq!(
        listing.step(ListingEvent::Entry {
            read: None,
            cancelled: true
        }),
        ListingAction::LeaveDirectory
    );
}

#[test]
fn the_listing_is_bounded() {
    let mut listing = PathListing::new();
    for i in 0..CANDIDATE_LIMIT + 10 {
        let name = format!("tool-{i}");
        listing.step(ListingEvent::Examined {
            name,
            runnable: true,
        });
    }
    assert_eq!(
        listing.step(ListingEvent::Directory { cancelled: false }),
        ListingAction::Stop
    );
    assert_eq!(
        listing.step(ListingEvent::Entry {
            read: Some("more".to_string()),
            cancelled: false
        }),
        ListingAction::LeaveDirectory
    );
    assert_eq!(listing.into_names().len(), CANDIDATE_LIMIT);
}
