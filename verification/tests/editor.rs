use std::path::Path;

use hayate::app::editor::{
    first_on_path, is_executable_mode, launch_spec, launch_spec_from_env, pick_var,
    resolve_editor, split_paths, EditorError, LaunchError, PATH_FALLBACKS,
};
use hayate::path::{FilePath, OsText};

#[test]
fn editor_wins_over_visual_and_fallback() {
    assert_eq!(
        resolve_editor(Some("vim"), Some("nano"), Some("vi")).unwrap(),
        "vim"
    );
}

#[test]
fn visual_is_used_when_editor_is_unset() {
    assert_eq!(
        resolve_editor(None, Some("nano"), Some("vim")).unwrap(),
        "nano"
    );
}

#[test]
fn blank_editor_falls_back_to_visual() {
    assert_eq!(
        resolve_editor(Some("  "), Some("nano"), Some("vim")).unwrap(),
        "nano"
    );
}

#[test]
fn path_fallback_is_used_when_env_is_unset() {
    assert_eq!(resolve_editor(None, None, Some("vim")).unwrap(), "vim");
}

#[test]
fn path_fallback_is_used_when_env_is_blank() {
    assert_eq!(
        resolve_editor(Some("  "), Some("\t"), Some("nvim")).unwrap(),
        "nvim"
    );
}

#[test]
fn missing_env_and_fallback_is_not_found() {
    assert_eq!(
        resolve_editor(None, None, None),
        Err(EditorError::NotFound)
    );
}

#[test]
fn trims_surrounding_whitespace() {
    assert_eq!(
        resolve_editor(Some("  nvim  "), None, None).unwrap(),
        "nvim"
    );
}

#[test]
fn launch_spec_appends_the_path_as_the_last_arg() {
    let spec = launch_spec("vim", &FilePath::new("/tmp/notes.txt")).unwrap();
    assert_eq!(spec.program, OsText::new("vim"));
    assert_eq!(spec.args, vec![OsText::new("/tmp/notes.txt")]);
}

#[test]
fn launch_spec_keeps_editor_flags() {
    let spec = launch_spec("code --wait", &FilePath::new("/tmp/a.rs")).unwrap();
    assert_eq!(spec.program, OsText::new("code"));
    assert_eq!(
        spec.args,
        vec![OsText::new("--wait"), OsText::new("/tmp/a.rs")]
    );
}

#[test]
fn launch_spec_does_not_split_the_file_path() {
    let spec = launch_spec("vim", &FilePath::new("/tmp/my notes.txt")).unwrap();
    assert_eq!(spec.args, vec![OsText::new("/tmp/my notes.txt")]);
}

#[test]
fn launch_spec_rejects_an_empty_program() {
    assert_eq!(
        launch_spec("", &FilePath::new("/tmp/a.txt")),
        Err(EditorError::Empty)
    );
    assert_eq!(
        launch_spec("   ", &FilePath::new("/tmp/a.txt")),
        Err(EditorError::Empty)
    );
}

/// A file tree in which exactly the given paths are executable.
fn only(runnable: Vec<&str>) -> impl Fn(&FilePath) -> bool {
    let paths: Vec<FilePath> = runnable.into_iter().map(FilePath::new).collect();
    move |path: &FilePath| paths.contains(path)
}

#[test]
fn first_on_path_prefers_nvim_over_vim_regardless_of_directory_order() {
    assert_eq!(
        first_on_path(
            &["nvim", "vim", "vi", "nano"],
            Some(b"/early:/late"),
            only(vec!["/early/vim", "/late/nvim"])
        ),
        Some("nvim"),
        "nvim must win even when vim sits in an earlier directory"
    );
}

#[test]
fn first_on_path_skips_a_non_executable_file() {
    assert_eq!(
        first_on_path(
            &["nvim", "vim", "vi"],
            Some(b"/bin"),
            only(vec!["/bin/vi"])
        ),
        Some("vi")
    );
}

#[test]
fn first_on_path_returns_none_when_nothing_matches() {
    assert_eq!(
        first_on_path(&["nvim", "vim", "vi", "nano"], Some(b"/bin"), only(vec![])),
        None
    );
}

#[test]
fn first_on_path_returns_none_without_a_path() {
    assert_eq!(first_on_path(&["vim"], None, only(vec!["/bin/vim"])), None);
}

#[test]
fn fallbacks_are_tried_in_their_order() {
    assert_eq!(PATH_FALLBACKS, ["nvim", "vim", "vi", "nano"]);
    assert_eq!(
        first_on_path(
            &PATH_FALLBACKS,
            Some(b"/usr/bin"),
            only(vec!["/usr/bin/nano", "/usr/bin/vi"])
        ),
        Some("vi")
    );
}

#[test]
fn search_path_is_split_at_every_colon() {
    let cases: Vec<(&str, Vec<&str>)> = vec![
        ("", vec![""]),
        (":", vec!["", ""]),
        ("/bin", vec!["/bin"]),
        ("/bin::/usr/bin:", vec!["/bin", "", "/usr/bin", ""]),
        ("a:b c:d", vec!["a", "b c", "d"]),
    ];
    for (list, expected) in cases {
        let found: Vec<String> = split_paths(list.as_bytes())
            .iter()
            .map(|dir| dir.to_text())
            .collect();
        assert_eq!(found, expected, "search path {list:?}");
    }
}

#[test]
fn candidate_paths_are_joined_like_the_standard_library_joins_them() {
    for (dir, name) in [("/bin", "vim"), ("/bin/", "vim"), ("", "vim"), ("a", "/vim")] {
        let expected = Path::new(dir).join(name).to_string_lossy().into_owned();
        assert_eq!(FilePath::new(dir).join(name).to_text(), expected);
    }
}

#[test]
fn only_regular_files_with_an_execute_bit_are_runnable() {
    assert!(is_executable_mode(true, 0o755));
    assert!(is_executable_mode(true, 0o001));
    assert!(is_executable_mode(true, 0o010));
    assert!(!is_executable_mode(true, 0o644));
    assert!(!is_executable_mode(false, 0o755));
}

#[test]
fn blank_variables_count_as_unset() {
    assert_eq!(pick_var(None), None);
    assert_eq!(pick_var(Some(" \t\n")), None);
    assert_eq!(pick_var(Some("\u{a0}vi\u{3000}")), Some("vi".to_string()));
}

#[test]
fn environment_is_resolved_and_split_in_one_go() {
    let path = FilePath::new("/tmp/a b.txt");
    let spec = launch_spec_from_env(&path, Some("code  --wait\t-n"), Some("vi"), None).unwrap();
    assert_eq!(spec.program, OsText::new("code"));
    assert_eq!(
        spec.args,
        vec![
            OsText::new("--wait"),
            OsText::new("-n"),
            OsText::new("/tmp/a b.txt")
        ]
    );
    assert_eq!(
        launch_spec_from_env(&path, None, None, None),
        Err(EditorError::NotFound)
    );
}

#[test]
fn error_messages_are_spelled_out() {
    assert_eq!(
        EditorError::NotFound.to_string(),
        "no editor found (set EDITOR, or install nvim/vim/vi/nano)"
    );
    assert_eq!(EditorError::Empty.to_string(), "command is empty");
    assert_eq!(
        LaunchError::Resolve(EditorError::Empty).to_string(),
        "command is empty"
    );
    assert_eq!(
        LaunchError::Spawn {
            program: "vim".to_string(),
            source: "not found".to_string()
        }
        .to_string(),
        "failed to run vim: not found"
    );
}

#[test]
fn a_launch_can_be_cloned() {
    let spec = launch_spec("code --wait", &FilePath::new("/tmp/a.rs")).unwrap();
    assert_eq!(spec.clone(), spec);
    assert_eq!(spec.program.to_text(), "code");
}
