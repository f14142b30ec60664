use std::path::Path;

use hayate::path::{FilePath, OsText};
use hayate::text::{
    begins_with, chars_of, has_part, in_order, lower_of, push_numeral, push_signed_numeral,
    same_text, space, string_of, trimmed, words_of,
};

const PATHS: [&str; 22] = [
    "", "/", "//", ".", "..", "./", "/.", "/..", "a", "a/", "a//", "a/.", "a/..", "/a", "/a/b",
    "/a//b/", "a/./b", "./a", "../a/b", "/a/b/.", "a b/c d", ".hidden/x",
];

fn text_of(path: &Path) -> String {
    path.to_string_lossy().into_owned()
}

#[test]
fn parents_are_those_of_the_standard_library() {
    for text in PATHS {
        let expected = Path::new(text).parent().map(text_of);
        let found = FilePath::new(text).parent().map(|p| p.to_text());
        assert_eq!(found, expected, "path {text:?}");
    }
}

#[test]
fn file_names_are_those_of_the_standard_library() {
    for text in PATHS {
        let expected = Path::new(text)
            .file_name()
            .map(|n| n.to_string_lossy().into_owned().into_bytes());
        assert_eq!(FilePath::new(text).file_name(), expected, "path {text:?}");
    }
}

#[test]
fn paths_are_equal_where_the_standard_library_says_so() {
    for a in PATHS {
        for b in PATHS {
            let expected = Path::new(a) == Path::new(b);
            assert_eq!(
                FilePath::new(a) == FilePath::new(b),
                expected,
                "paths {a:?} and {b:?}"
            );
        }
    }
}

#[test]
fn joining_is_that_of_the_standard_library() {
    for dir in PATHS {
        for name in ["x", "", "/abs", ".", "x/y"] {
            let expected = text_of(&Path::new(dir).join(name));
            assert_eq!(FilePath::new(dir).join(name).to_text(), expected);
        }
    }
}

#[test]
fn going_up_from_a_child_leads_back() {
    for dir in ["/", "/a", "/a/", "a/b", "."] {
        let dir = FilePath::new(dir);
        assert_eq!(dir.join("child").parent(), Some(dir));
    }
}

#[test]
fn paths_shown_as_arguments_keep_their_bytes() {
    let path = FilePath {
        bytes: b"/tmp/\xff".to_vec(),
    };
    assert_eq!(path.to_os_text().bytes, path.bytes);
    assert_eq!(path.to_text(), "/tmp/\u{fffd}");
    assert_eq!(OsText::new("é").bytes, "é".as_bytes());
    assert_eq!(path.shown_name(), "\u{fffd}");
}

#[test]
fn white_space_is_that_of_the_standard_library() {
    for code in 0..=0x10ffffu32 {
        if let Some(c) = char::from_u32(code) {
            assert_eq!(space(c), c.is_whitespace(), "U+{code:04X}");
        }
    }
}

const TEXTS: [&str; 9] = [
    "", " ", "a", " a ", "a b", "\ta  b\u{3000}c\n", "  ", "é \u{a0}x", "one two three ",
];

#[test]
fn words_and_trimming_are_those_of_the_standard_library() {
    for text in TEXTS {
        let expected: Vec<&str> = text.split_whitespace().collect();
        assert_eq!(words_of(text), expected);
        assert_eq!(trimmed(text), text.trim());
    }
}

#[test]
fn texts_are_ordered_as_the_standard_library_orders_them() {
    let mut texts: Vec<&str> = TEXTS.to_vec();
    texts.extend(["ab", "aé", "b", "\u{10000}", "\u{ffff}", "Z"]);
    for a in &texts {
        for b in &texts {
            assert_eq!(in_order(&chars_of(a), &chars_of(b)), a <= b, "{a:?} {b:?}");
            assert_eq!(same_text(a, b), a == b);
            assert_eq!(begins_with(&chars_of(a), &chars_of(b)), a.starts_with(b));
            assert_eq!(has_part(&chars_of(a), &chars_of(b)), a.contains(b));
        }
    }
}

#[test]
fn only_ascii_letters_change_their_case() {
    let chars = chars_of("AbÉZ[@");
    let lower = lower_of(&chars);
    assert_eq!(
        string_of(&lower, 0, lower.len()),
        "AbÉZ[@".to_ascii_lowercase()
    );
    assert_eq!(string_of(&chars, 1, 3), "bÉ");
}

#[test]
fn numbers_are_written_in_decimal() {
    for n in [0, 7, 10, 99, 1234567890, u64::MAX] {
        let mut text = "n=".to_string();
        push_numeral(&mut text, n);
        assert_eq!(text, format!("n={n}"));
    }
    for n in [0, -1, 255, i32::MIN, i32::MAX] {
        let mut text = String::new();
        push_signed_numeral(&mut text, n);
        assert_eq!(text, n.to_string());
    }
}
