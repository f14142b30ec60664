use hayate::path::FilePath;
use hayate::preview::{
    control, load_step, loaded, payload_from_bytes, sanitize_for_preview, FilePreview, LoadAction,
    LoadEvent, PreviewPayload, PREVIEW_BYTE_LIMIT,
};

#[test]
fn loads_utf8_text() {
    let result = loaded(Ok(b"hello preview".to_vec()), false).unwrap();
    assert_eq!(
        result,
        PreviewPayload::Text {
            content: "hello preview".into(),
            truncated: false,
        }
    );
}

#[test]
fn truncates_over_the_byte_limit() {
    let contents = "a".repeat(PREVIEW_BYTE_LIMIT + 32);
    match loaded(Ok(contents.into_bytes()), false).unwrap() {
        PreviewPayload::Text { content, truncated } => {
            assert!(truncated);
            assert_eq!(content.len(), PREVIEW_BYTE_LIMIT);
        }
        other => panic!("expected truncated text, got {other:?}"),
    }
}

#[test]
fn nul_bytes_are_treated_as_binary() {
    assert_eq!(
        loaded(Ok(b"abc\0def".to_vec()), false).unwrap(),
        PreviewPayload::Binary
    );
}

#[test]
fn missing_file_is_an_error_not_a_panic() {
    let reason = "No such file or directory".to_string();
    for cancelled in [false, true] {
        match loaded(Err(reason.clone()), cancelled) {
            Some(PreviewPayload::Error(message)) => assert_eq!(message, reason),
            other => panic!("expected error, got {other:?}"),
        }
    }
}

/// Reads a preview as the program does, with the token cancelled before or
/// during the read.
fn load(read: Result<Vec<u8>, String>, before: bool, during: bool) -> Option<PreviewPayload> {
    match load_step(LoadEvent::Asked { cancelled: before }) {
        LoadAction::Done(outcome) => outcome,
        LoadAction::Read => {
            let cancelled = before || during;
            match load_step(LoadEvent::Read { read, cancelled }) {
                LoadAction::Done(outcome) => outcome,
                LoadAction::Read => panic!("read twice"),
            }
        }
    }
}

#[test]
fn cancelled_token_returns_none() {
    assert!(load(Ok(b"hello".to_vec()), true, false).is_none());
    assert!(load(Ok(b"hello".to_vec()), false, true).is_none());
    assert!(loaded(Ok(b"hello".to_vec()), true).is_none());
}

#[test]
fn a_read_cancelled_before_it_began_has_no_outcome_even_for_a_missing_file() {
    let missing = || Err("No such file or directory".to_string());
    assert_eq!(load(missing(), true, false), None);
    assert_eq!(
        load(missing(), false, true),
        Some(PreviewPayload::Error(
            "No such file or directory".to_string()
        ))
    );
    assert_eq!(
        load(Ok(b"hi".to_vec()), false, false),
        Some(PreviewPayload::Text {
            content: "hi".into(),
            truncated: false
        })
    );
}

#[test]
fn idle_has_no_path() {
    assert!(FilePreview::Idle.path().is_none());
}

#[test]
fn tabs_expand_to_spaces_so_they_cannot_punch_holes_in_the_preview() {
    assert_eq!(sanitize_for_preview("\thello"), "        hello");
    assert_eq!(sanitize_for_preview("ab\tc"), "ab      c");
}

#[test]
fn viminfo_style_tabs_are_expanded_when_loaded() {
    let bytes = "\"\tCHAR\t0\n\tGRUB\n|1,4\n".as_bytes().to_vec();
    match loaded(Ok(bytes), false).unwrap() {
        PreviewPayload::Text { content, .. } => {
            assert!(!content.contains('\t'), "raw tab survived: {content:?}");
            assert!(content.contains("CHAR"));
            assert!(content.contains("GRUB"));
            assert_eq!(
                content,
                "\"       CHAR    0\n        GRUB\n|1,4\n"
            );
        }
        other => panic!("expected text, got {other:?}"),
    }
}

#[test]
fn control_characters_become_spaces() {
    assert_eq!(sanitize_for_preview("a\rb"), "a b");
    assert_eq!(sanitize_for_preview("a\r\nb"), "a \nb");
    assert_eq!(sanitize_for_preview("a\u{1b}[1mb\u{9f}c"), "a [1mb c");
    assert_eq!(sanitize_for_preview("a\r\tb"), "a       b");
    assert_eq!(sanitize_for_preview("1234567\r\tb"), "1234567         b");
    assert_eq!(sanitize_for_preview("12345678\tx"), "12345678        x");
    assert_eq!(sanitize_for_preview("\u{1}\tx"), "        x");
}

#[test]
fn sanitizing_twice_changes_nothing_more() {
    let once = sanitize_for_preview("a\tb\r\nc\u{7}d\té\t|");
    assert_eq!(sanitize_for_preview(&once), once);
}

#[test]
fn control_characters_are_those_of_the_standard_library() {
    for code in 0..=0x10ffffu32 {
        if let Some(c) = char::from_u32(code) {
            assert_eq!(control(c), c.is_control(), "U+{code:04X}");
        }
    }
}

#[test]
fn the_limit_itself_is_not_truncated() {
    let mut bytes = vec![b'x'; PREVIEW_BYTE_LIMIT];
    match payload_from_bytes(bytes.clone()) {
        PreviewPayload::Text { content, truncated } => {
            assert!(!truncated);
            assert_eq!(content.len(), PREVIEW_BYTE_LIMIT);
        }
        other => panic!("expected text, got {other:?}"),
    }
    // A NUL past the limit is cut off before it can count.
    bytes.push(0);
    assert!(matches!(
        payload_from_bytes(bytes),
        PreviewPayload::Text {
            truncated: true,
            ..
        }
    ));
    assert_eq!(PREVIEW_BYTE_LIMIT, 64 * 1024);
}

#[test]
fn invalid_utf8_is_replaced() {
    assert_eq!(
        payload_from_bytes(vec![b'a', 0xff, b'b']),
        PreviewPayload::Text {
            content: "a\u{fffd}b".into(),
            truncated: false,
        }
    );
}

#[test]
fn every_preview_but_the_idle_one_has_a_path() {
    let path = || FilePath::new("/tmp/a");
    let previews = [
        FilePreview::Loading(path()),
        PreviewPayload::Binary.into_preview(path()),
        PreviewPayload::Error("why".into()).into_preview(path()),
        PreviewPayload::Text {
            content: "x".into(),
            truncated: true,
        }
        .into_preview(path()),
    ];
    for preview in &previews {
        assert_eq!(preview.path(), Some(&path()));
        assert_eq!(&preview.clone(), preview);
    }
    assert_eq!(
        previews[2],
        FilePreview::Error {
            path: path(),
            message: "why".into()
        }
    );
}
