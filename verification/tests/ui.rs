use hayate::app::open_with::{InteractionMode, OpenWithPrompt};
use hayate::app::AppState;
use hayate::fs::FileEntry;
use hayate::path::FilePath;
use hayate::preview::FilePreview;
use hayate::ui::{banner, BANNER_TITLE};
use hayate::ui::layout::{centerable, centered, split_panes, Rect, PANE_SHARES};
use hayate::ui::panes::{current, entry_label, open_with, parent, preview};

fn path(text: &str) -> FilePath {
    FilePath::new(text)
}

fn at(text: &str) -> AppState {
    AppState::new(path(text))
}

fn entries(names: &[&str]) -> Vec<FileEntry> {
    names
        .iter()
        .map(|name| FileEntry::new(path(&format!("/tmp/{name}")), false, 0))
        .collect()
}

#[test]
fn splits_into_three_titled_panes() {
    let state = at("/tmp");
    let columns = split_panes(Rect::new(0, 0, 80, 10));
    assert_eq!(
        columns,
        [
            Rect::new(0, 0, 16, 10),
            Rect::new(16, 0, 32, 10),
            Rect::new(48, 0, 32, 10)
        ]
    );
    assert!(parent::TITLE.contains("[1] Parent"));
    assert!(current::title(&state).contains("[2] Current"));
    assert!(preview::TITLE.contains("[3] Preview"));
}

#[test]
fn fixed_lines_are_spelled_out() {
    assert_eq!(parent::TITLE, "[1] Parent");
    assert_eq!(preview::TITLE, "[3] Preview");
    assert_eq!(
        open_with::FOOTER,
        "Enter open   Esc cancel   type a command"
    );
    assert_eq!(BANNER_TITLE, "Hayate");
}

#[test]
fn layout_does_not_panic_on_degenerate_terminal_sizes() {
    let state = AppState::starting_in(None);
    for (width, height) in [(0, 0), (1, 1), (2, 2), (3, 1)] {
        let columns = split_panes(Rect::new(0, 0, width, height));
        let total: u16 = columns.iter().map(|c| c.width).sum();
        assert_eq!(total, width);
        parent::parent_pane(&state);
        current::rows(&state);
        preview::preview_pane(&state, columns[2]);
    }
}

fn expected_columns(area: Rect) -> [Rect; 3] {
    let width = u32::from(area.width.min(u16::MAX - area.x));
    let first = ((2 * width + 5) / 10) as u16;
    let second = ((6 * width + 5) / 10) as u16;
    let pane = |from: u16, to: u16| Rect {
        x: area.x + from,
        y: area.y,
        width: to - from,
        height: area.height,
    };
    [
        pane(0, first),
        pane(first, second),
        pane(second, width as u16),
    ]
}

#[test]
fn panes_take_a_fifth_and_two_fifths_twice() {
    for width in 0..=2000u16 {
        let area = Rect::new(0, 0, width, 24);
        assert_eq!(split_panes(area), expected_columns(area), "width {width}");
    }
}

#[test]
fn the_shares_make_up_the_whole() {
    assert_eq!(PANE_SHARES, [20, 40, 40]);
}

#[test]
fn wide_and_offset_areas_split_alike() {
    for width in (0..=u16::MAX).step_by(97) {
        let area = Rect::new(0, 3, width, 7);
        assert_eq!(split_panes(area), expected_columns(area), "width {width}");
    }
    for x in (0..=u16::MAX).step_by(1009) {
        for width in [0, 1, 2, 3, 7, 80, 133, 6001, u16::MAX] {
            let area = Rect {
                x,
                y: u16::MAX,
                width,
                height: u16::MAX,
            };
            assert_eq!(split_panes(area), expected_columns(area), "{area:?}");
        }
    }
}

#[test]
fn renders_quit_hint_and_current_dir() {
    let content = banner(&at("/tmp"));
    assert!(content.contains("Press 'q' to quit"));
    assert!(content.contains("/tmp"));
    assert_eq!(content, "Hayate File Manager - Press 'q' to quit\n/tmp");
}

#[test]
fn mod_does_not_panic_on_degenerate_terminal_sizes() {
    let state = AppState::starting_in(None);
    assert_eq!(
        banner(&state),
        "Hayate File Manager - Press 'q' to quit\n."
    );
}

#[test]
fn title_shows_entry_count_and_recount_prompt_by_default() {
    let mut state = at("/tmp");
    state.entries = entries(&["a.txt", "b.txt"]);

    let title = current::title(&state);

    assert!(title.contains("[2] Current (2 entries)"));
    assert!(title.contains("press 'r' to count"));
    assert_eq!(
        title,
        "[2] Current (2 entries) — press 'r' to count files recursively"
    );
}

#[test]
fn title_shows_counting_in_progress() {
    let mut state = at("/tmp");
    state.is_counting_recursively = true;
    assert!(current::title(&state).contains("counting recursively"));
    assert_eq!(
        current::recount_status(&state),
        "counting recursively... (Esc to cancel)"
    );
}

#[test]
fn title_shows_completed_recursive_count() {
    let mut state = at("/tmp");
    state.recursive_file_count = Some(42);
    assert!(current::title(&state).contains("42 files recursively"));
    assert_eq!(
        current::recount_status(&state),
        "42 files recursively (r to recount)"
    );
}

#[test]
fn only_the_selected_row_is_reversed() {
    let mut state = at("/tmp");
    state.entries = entries(&["a.txt", "b.txt", "c.txt"]);
    state.selected = 1;

    let rows = current::rows(&state);

    let selected_row = rows.iter().find(|row| row.label.contains("b.txt"));
    assert!(selected_row.is_some_and(|row| row.highlighted), "{rows:?}");
    for name in ["a.txt", "c.txt"] {
        let row = rows.iter().find(|row| row.label.contains(name));
        assert!(row.is_some_and(|row| !row.highlighted), "{rows:?}");
    }
}

#[test]
fn directories_get_a_trailing_slash() {
    let mut state = at("/tmp");
    state.entries = vec![FileEntry::new(path("/tmp/sub"), true, 0)];
    assert!(current::rows(&state)
        .iter()
        .any(|row| row.label.contains("sub/")));
    assert_eq!(entry_label(&state.entries[0]), "sub/");
    assert_eq!(entry_label(&entries(&["file"])[0]), "file");
}

#[test]
fn does_not_panic_when_empty_or_area_is_degenerate() {
    assert!(current::rows(&at("/tmp")).is_empty());
}

#[test]
fn the_highlight_past_the_end_is_painted_on_the_last_row() {
    let mut state = at("/tmp");
    state.entries = entries(&["a", "b"]);
    state.selected = 9;
    let marks: Vec<bool> = current::rows(&state).iter().map(|r| r.highlighted).collect();
    assert_eq!(marks, [false, true]);
}

fn picker_state(query: &str, candidates: &[&str]) -> AppState {
    let mut state = at("/tmp");
    state.entries = vec![FileEntry::new(path("/tmp/notes.txt"), false, 4)];
    let mut prompt = OpenWithPrompt::new(path("/tmp/notes.txt"), 1);
    prompt.query = query.into();
    prompt.set_candidates(candidates.iter().map(|name| (*name).into()).collect());
    state.mode = InteractionMode::OpenWith(prompt);
    state
}

#[test]
fn overlay_shows_the_filename_and_query() {
    let state = picker_state("mpv", &["mpv", "vim"]);
    let overlay = open_with::overlay(&state, Rect::new(0, 0, 80, 20)).unwrap();
    let title = overlay.title.unwrap();
    let body = overlay.body.unwrap();
    assert!(title.contains("Open with"), "{title:?}");
    assert!(title.contains("notes.txt"), "{title:?}");
    assert_eq!(body.query, "> mpv");
    assert_eq!(body.items, ["run  mpv", "mpv"]);
    assert_eq!(body.selected, Some(0));
    assert_eq!(overlay.area, Rect::new(16, 2, 48, 16));
}

#[test]
fn overlay_does_not_draw_in_browser_mode() {
    assert!(open_with::overlay(&at("/tmp"), Rect::new(0, 0, 40, 10)).is_none());
}

#[test]
fn empty_listing_shows_a_type_hint() {
    let mut state = picker_state("", &["cat"]);
    let body = |state: &AppState| {
        open_with::overlay(state, Rect::new(0, 0, 80, 16))
            .unwrap()
            .body
            .unwrap()
    };
    let shown = body(&state);
    assert_eq!(shown.items, ["(type a command)"]);
    assert_eq!(shown.query, "> ");
    assert_eq!(shown.selected, None);

    if let InteractionMode::OpenWith(prompt) = &mut state.mode {
        prompt.listing_error = Some("denied".to_string());
    }
    assert_eq!(body(&state).items, ["listing failed: denied"]);
    if let InteractionMode::OpenWith(prompt) = &mut state.mode {
        prompt.listing_complete = false;
    }
    assert_eq!(body(&state).items, ["loading PATH…"]);
}

#[test]
fn open_with_does_not_panic_on_degenerate_areas() {
    let state = picker_state("vim", &["vim"]);
    for (width, height, framed, filled) in [
        (0, 0, false, false),
        (1, 1, false, false),
        (10, 4, true, false),
        (10, 5, true, true),
    ] {
        let overlay = open_with::overlay(&state, Rect::new(0, 0, width, height)).unwrap();
        assert_eq!(overlay.title.is_some(), framed, "{width}x{height}");
        assert_eq!(overlay.body.is_some(), filled, "{width}x{height}");
    }
}

#[test]
fn centred_areas_stay_inside() {
    let screen = Rect::new(5, 6, 100, 40);
    assert_eq!(centered(screen, 60, 16), Rect::new(25, 18, 60, 16));
    assert_eq!(centered(screen, 0, 0), Rect::new(54, 25, 1, 1));
    assert_eq!(centered(screen, 300, 99), screen);
    let empty = Rect::new(5, 6, 0, 40);
    assert_eq!(centered(empty, 60, 16), empty);
    assert!(centerable(screen, 60, 16) && centerable(empty, 60, 16));
}

#[test]
fn areas_past_the_coordinate_range_are_cut_off() {
    for (x, y, width, height) in [
        (0, 0, 80, 24),
        (u16::MAX, 5, 10, 10),
        (65000, 65000, 1000, 535),
        (1, 1, u16::MAX, u16::MAX),
    ] {
        let raw = ratatui::layout::Rect::new(x, y, width, height);
        let ours = Rect::new(x, y, width, height);
        assert_eq!(
            (ours.x, ours.y, ours.width, ours.height),
            (raw.x, raw.y, raw.width, raw.height)
        );
    }
    let wide = Rect {
        x: 65000,
        y: 0,
        width: 1000,
        height: 20,
    };
    assert!(centerable(wide, 60, 16));
    assert_eq!(centered(wide, 60, 16), Rect::new(65200, 2, 335, 16));
    let far = Rect {
        x: u16::MAX,
        ..wide
    };
    assert!(!centerable(far, 60, 16));
    assert!(centerable(far, 100, 16));
}

#[test]
fn very_long_texts_scroll_as_far_as_can_be_scrolled() {
    let area = Rect::new(0, 0, 40, 12);
    let rows = |n: usize| preview::scroll_limit(&text_state(&"\n".repeat(n)), area);
    // Three rows of header, ten rows to show the text in.
    assert_eq!(rows(65535 + 7 - 1), 65534);
    assert_eq!(rows(65535 + 7), u16::MAX);
    assert_eq!(rows(65535 + 7 + 2), u16::MAX);
}

#[test]
fn root_directory_shows_a_no_parent_placeholder() {
    let pane = parent::parent_pane(&at("/"));
    assert!(pane.rows.iter().any(|row| row.label.contains("no parent")));
    assert_eq!(pane.selected, None);
}

#[test]
fn current_dir_is_highlighted_among_its_siblings() {
    let mut state = at("/tmp/project");
    state.parent_entries = vec![
        FileEntry::new(path("/tmp/project"), true, 0),
        FileEntry::new(path("/tmp/other"), true, 0),
    ];

    let pane = parent::parent_pane(&state);

    let current_row = pane.rows.iter().find(|row| row.label.contains("project"));
    assert!(current_row.is_some_and(|row| row.highlighted), "{pane:?}");
    let sibling_row = pane.rows.iter().find(|row| row.label.contains("other"));
    assert!(sibling_row.is_some_and(|row| !row.highlighted), "{pane:?}");
    assert_eq!(pane.selected, Some(0));
}

#[test]
fn parent_does_not_panic_on_degenerate_areas() {
    let pane = parent::parent_pane(&at("/tmp"));
    assert!(pane.rows.is_empty());
    assert_eq!(pane.selected, None);
}

#[test]
fn a_failed_parent_scan_is_told() {
    let mut state = at("/tmp/project");
    state.parent_entries = vec![FileEntry::new(path("/tmp/project"), true, 0)];
    state.parent_scan_error = Some("denied".to_string());
    let pane = parent::parent_pane(&state);
    assert_eq!(pane.rows.len(), 1);
    assert_eq!(pane.rows[0].label, "scan failed: denied");
    assert!(!pane.rows[0].highlighted);
    assert_eq!(pane.selected, None);
}

fn text_state(content: &str) -> AppState {
    let mut state = at("/tmp");
    state.entries = vec![FileEntry::new(
        path("/tmp/a.txt"),
        false,
        content.len() as u64,
    )];
    state.preview = FilePreview::Text {
        path: path("/tmp/a.txt"),
        content: content.into(),
        truncated: false,
    };
    state
}

#[test]
fn shows_a_placeholder_when_nothing_is_selected() {
    assert!(preview::preview_text(&at("/tmp")).contains("nothing selected"));
}

#[test]
fn shows_directory_marker_for_a_dir_without_reading_contents() {
    let mut state = at("/tmp");
    state.entries = vec![FileEntry::new(path("/tmp/sub"), true, 0)];

    let content = preview::preview_text(&state);

    assert!(content.contains("sub/"));
    assert!(content.contains("<directory>"));
    assert!(!content.contains("Loading preview"));
}

#[test]
fn shows_cached_text_contents() {
    let content = preview::preview_text(&text_state("hello"));

    assert!(content.contains("a.txt"));
    assert!(content.contains("hello"));
    assert!(!content.contains("[truncated]"));
    assert_eq!(content, "a.txt\n5 bytes\n\nhello");
}

#[test]
fn shows_truncated_marker() {
    let mut state = text_state("hello");
    if let FilePreview::Text { truncated, .. } = &mut state.preview {
        *truncated = true;
    }
    state.entries[0].size = 99;

    let content = preview::preview_text(&state);
    assert!(content.contains("[truncated]"));
    assert_eq!(content, "a.txt\n99 bytes\n\nhello\n\n[truncated]");
}

#[test]
fn shows_binary_placeholder() {
    let mut state = at("/tmp");
    state.entries = vec![FileEntry::new(path("/tmp/a.bin"), false, 8)];
    state.preview = FilePreview::Binary {
        path: path("/tmp/a.bin"),
    };

    assert!(preview::preview_text(&state).contains("<binary file>"));
}

#[test]
fn previews_that_are_not_there_are_being_loaded() {
    let mut state = text_state("hello");
    state.preview = FilePreview::Error {
        path: path("/tmp/a.txt"),
        message: "denied".into(),
    };
    assert_eq!(
        preview::preview_text(&state),
        "a.txt\n5 bytes\n\npreview failed: denied"
    );
    for stale in [
        FilePreview::Idle,
        FilePreview::Loading(path("/tmp/a.txt")),
        FilePreview::Binary {
            path: path("/tmp/b.bin"),
        },
    ] {
        state.preview = stale;
        assert_eq!(
            preview::preview_text(&state),
            "a.txt\n5 bytes\n\nLoading preview..."
        );
    }
}

#[test]
fn scrolling_hides_the_top_and_reveals_later_lines() {
    let mut lines = vec!["HEADER".to_string()];
    lines.extend((0..20).map(|i| format!("LINE-{i}")));
    let mut state = text_state(&lines.join("\n"));
    let area = Rect::new(0, 0, 24, 8);

    assert_eq!(preview::preview_pane(&state, area).scroll, 0);

    state.preview_scroll = preview::scroll_limit(&state, area).max(1);
    let scrolled = preview::preview_pane(&state, area);

    // Three rows of header, twenty-one lines, six rows to show them in.
    assert_eq!(scrolled.scroll, 18);
    let visible: Vec<&str> = scrolled.text.lines().skip(18).take(6).collect();
    assert!(!visible.contains(&"HEADER"));
    assert_eq!(visible.last(), Some(&"LINE-19"));

    state.preview_scroll = 1000;
    assert_eq!(preview::preview_pane(&state, area).scroll, 18);
}

#[test]
fn scroll_limit_is_zero_when_content_fits() {
    let state = text_state("short");
    assert_eq!(preview::scroll_limit(&state, Rect::new(0, 0, 40, 20)), 0);
}

#[test]
fn preview_does_not_panic_on_degenerate_areas() {
    let state = at("/tmp");
    for (width, height) in [(0u16, 0u16), (1, 1)] {
        let area = Rect::new(0, 0, width, height);
        assert_eq!(preview::preview_pane(&state, area).scroll, 0);
        assert_eq!(preview::page_size(area), 1);
    }
}

#[test]
fn lines_are_wrapped_at_the_width() {
    let count = preview::wrapped_line_count;
    assert_eq!(count("", 10), 1);
    assert_eq!(count("a", 10), 1);
    assert_eq!(count("0123456789", 10), 1);
    assert_eq!(count("0123456789a", 10), 2);
    assert_eq!(count("a\n\nb\n", 10), 3);
    assert_eq!(count("abc\r\ndef", 3), 2);
    assert_eq!(count("abc\rdef", 3), 3);
    assert_eq!(count("abc\r", 3), 2);
    assert_eq!(count("éééé", 2), 2);
    assert_eq!(count("long line\nanother\n", 0), 2);
}

#[test]
fn pages_leave_one_row_in_sight() {
    assert_eq!(preview::page_size(Rect::new(0, 0, 30, 24)), 21);
    assert_eq!(preview::page_size(Rect::new(0, 0, 30, 4)), 1);
    assert_eq!(preview::page_size(Rect::new(0, 0, 30, 5)), 2);
    assert_eq!(preview::page_size(Rect::new(0, 0, 1, 24)), 1);
}

#[test]
fn the_border_takes_a_cell_on_every_side() {
    // Ten columns inside, so eleven characters take two of the two rows.
    let area = Rect {
        x: u16::MAX,
        y: u16::MAX,
        width: 12,
        height: 4,
    };
    let limit = |content: &str| preview::scroll_limit(&text_state(content), area);
    assert_eq!(limit("0123456789"), 2);
    assert_eq!(limit("0123456789a"), 3);
}

#[test]
fn lines_are_those_of_the_standard_library() {
    for text in ["", "\n", "\r\n", "a", "a\n", "a\r\n\r\nb", "\n\n", "a\rb\n\r", "\r\r\n"] {
        let expected = text.lines().count().max(1);
        assert_eq!(preview::wrapped_line_count(text, 0), expected, "{text:?}");
        assert_eq!(preview::wrapped_line_count(text, 80), expected, "{text:?}");
        let narrow: usize = text.lines().map(|line| line.chars().count().max(1)).sum();
        assert_eq!(preview::wrapped_line_count(text, 1), narrow.max(1), "{text:?}");
    }
}
