//! Picks the editor from `EDITOR`, `VISUAL` and the search path, and builds the
//! arguments with which a file is opened.
//!
//! The search path is a Unix search path on every system: `:` alone separates
//! its directories, which are Unix paths.

use vstd::prelude::*;
use vstd::utf8::encode_utf8;

use crate::path::{joined, FilePath, OsText};
use crate::text::{is_space, trim, trim_back, trim_front, trimmed, words, words_of};

verus! {

/// Tried in order when neither `EDITOR` nor `VISUAL` is set. Most machines have one of these
/// even when the variables were never exported.
pub const PATH_FALLBACKS: [&'static str; 4] = ["nvim", "vim", "vi", "nano"];

#[derive(Debug, Clone, Copy, PartialEq, Eq, Structural)]
pub enum EditorError {
    NotFound,
    Empty,
}

impl EditorError {
    /// The message shown for the error.
    pub open spec fn message(self) -> Seq<char> {
        match self {
            EditorError::NotFound => "no editor found (set EDITOR, or install nvim/vim/vi/nano)"@,
            EditorError::Empty => "command is empty"@,
        }
    }

    pub fn to_string(&self) -> (r: String)
        ensures
            r@ == self.message(),
    {
        match self {
            EditorError::NotFound => "no editor found (set EDITOR, or install nvim/vim/vi/nano)".to_owned(),
            EditorError::Empty => "command is empty".to_owned(),
        }
    }
}

/// Why an editor could not be run.
#[derive(Debug, PartialEq, Eq)]
pub enum LaunchError {
    Resolve(EditorError),
    /// The program did not start; `source` is the system's reason.
    Spawn { program: String, source: String },
}

impl LaunchError {
    /// The message shown for the error.
    pub open spec fn message(self) -> Seq<char> {
        match self {
            LaunchError::Resolve(error) => error.message(),
            LaunchError::Spawn { program, source } => "failed to run "@ + program@ + ": "@
                + source@,
        }
    }

    pub fn to_string(&self) -> (r: String)
        ensures
            r@ == self.message(),
    {
        match self {
            LaunchError::Resolve(error) => error.to_string(),
            LaunchError::Spawn { program, source } => {
                let mut r: String = "failed to run ".to_owned();
                r.append(program.as_str());
                r.append(": ");
                r.append(source.as_str());
                r
            },
        }
    }
}

/// A program and its arguments. The file path is always the last argument.
#[derive(Debug, PartialEq, Eq)]
pub struct EditorLaunch {
    pub program: OsText,
    pub args: Vec<OsText>,
}

/// What an [`EditorLaunch`] runs.
#[verifier::ext_equal]
pub struct LaunchView {
    pub program: Seq<u8>,
    pub args: Seq<Seq<u8>>,
}

/// The bytes of each argument.
pub open spec fn arg_views(args: Seq<OsText>) -> Seq<Seq<u8>> {
    args.map_values(|a: OsText| a@)
}

impl View for EditorLaunch {
    type V = LaunchView;

    open spec fn view(&self) -> LaunchView {
        LaunchView { program: self.program@, args: arg_views(self.args@) }
    }
}

impl Clone for EditorLaunch {
    fn clone(&self) -> (r: EditorLaunch)
        ensures
            r@ == self@,
    {
        let mut args: Vec<OsText> = Vec::new();
        let mut i: usize = 0;
        while i < self.args.len()
            invariant
                i <= self.args.len(),
                arg_views(args@) == arg_views(self.args@.take(i as int)),
            decreases self.args.len() - i,
        {
            let arg = self.args[i].clone();
            proof {
                assert(self.args@.take(i + 1) == self.args@.take(i as int).push(
                    self.args@[i as int],
                ));
                assert(arg_views(args@.push(arg)) == arg_views(args@).push(arg@));
                assert(arg_views(self.args@.take(i + 1)) == arg_views(
                    self.args@.take(i as int),
                ).push(arg@));
            }
            args.push(arg);
            i += 1;
        }
        assert(self.args@.take(i as int) == self.args@);
        EditorLaunch { program: self.program.clone(), args }
    }
}

/// The trimmed value of a variable; a blank one counts as unset.
pub open spec fn picked(value: Option<Seq<char>>) -> Option<Seq<char>> {
    match value {
        Some(v) => if trim(v).len() == 0 {
            None
        } else {
            Some(trim(v))
        },
        None => None,
    }
}

/// The characters of an optional text.
pub open spec fn opt_str(value: Option<&str>) -> Option<Seq<char>> {
    match value {
        Some(v) => Some(v@),
        None => None,
    }
}

/// The first variable that is set: `EDITOR` wins over `VISUAL`, which wins over the fallback.
pub open spec fn chosen_editor(
    editor: Option<Seq<char>>,
    visual: Option<Seq<char>>,
    fallback: Option<Seq<char>>,
) -> Option<Seq<char>> {
    if picked(editor) is Some {
        picked(editor)
    } else if picked(visual) is Some {
        picked(visual)
    } else {
        picked(fallback)
    }
}

/// `EDITOR` wins over `VISUAL`, then a fallback from the search path. Values are trimmed; one
/// that is all white space is treated as unset.
pub fn resolve_editor(
    editor: Option<&str>,
    visual: Option<&str>,
    fallback: Option<&str>,
) -> (r: Result<String, EditorError>)
    ensures
        match chosen_editor(opt_str(editor), opt_str(visual), opt_str(fallback)) {
            Some(command) => r matches Ok(c) && c@ == command,
            None => r == Err::<String, EditorError>(EditorError::NotFound),
        },
{
    if let Some(command) = pick_var(editor) {
        return Ok(command);
    }
    if let Some(command) = pick_var(visual) {
        return Ok(command);
    }
    match pick_var(fallback) {
        Some(command) => Ok(command),
        None => Err(EditorError::NotFound),
    }
}

/// The trimmed value of a variable, unless it is unset or blank.
pub fn pick_var(value: Option<&str>) -> (r: Option<String>)
    ensures
        r is Some == picked(opt_str(value)) is Some,
        r matches Some(v) ==> v@ == picked(opt_str(value))->0,
{
    match value {
        Some(v) => {
            let t = trimmed(v);
            if t.as_str().is_empty() {
                None
            } else {
                Some(t)
            }
        },
        None => None,
    }
}

/// What a command line and a file path launch: the first word with the other words as flags and
/// the path, whole, as the last argument.
pub open spec fn launch_of(command: Seq<char>, path: Seq<u8>) -> Option<LaunchView> {
    let w = words(command);
    if w.len() == 0 {
        None
    } else {
        Some(
            LaunchView {
                program: encode_utf8(w[0]),
                args: w.skip(1).map_values(|word: Seq<char>| encode_utf8(word)).push(path),
            },
        )
    }
}

/// Whether a result is the launch that was called for, or the error for an empty command.
pub open spec fn launch_result(
    r: Result<EditorLaunch, EditorError>,
    wanted: Option<LaunchView>,
) -> bool {
    match wanted {
        Some(launch) => r matches Ok(spec) && spec@ == launch,
        None => r == Err::<EditorLaunch, EditorError>(EditorError::Empty),
    }
}

/// Splits `editor` on white space so that values like `code --wait` work, then appends `path`.
/// No shell is involved, so the path is never interpolated.
pub fn launch_spec(editor: &str, path: &FilePath) -> (r: Result<EditorLaunch, EditorError>)
    ensures
        launch_result(r, launch_of(editor@, path@)),
{
    let parts = words_of(editor);
    let ghost w = words(editor@);
    if parts.len() == 0 {
        assert(w.len() == 0);
        return Err(EditorError::Empty);
    }
    assert(w.len() == parts.len());
    let program = OsText::new(parts[0].as_str());
    let mut args: Vec<OsText> = Vec::new();
    let mut i: usize = 1;
    let ghost enc = |word: Seq<char>| encode_utf8(word);
    assert(w.subrange(1, 1).map_values(enc) == arg_views(args@));
    while i < parts.len()
        invariant
            1 <= i <= parts.len(),
            crate::text::texts_of(parts@) == w,
            enc == (|word: Seq<char>| encode_utf8(word)),
            arg_views(args@) == w.subrange(1, i as int).map_values(enc),
        decreases parts.len() - i,
    {
        let arg = OsText::new(parts[i].as_str());
        proof {
            assert(parts@[i as int]@ == w[i as int]);
            assert(arg@ == enc(w[i as int]));
            assert(w.subrange(1, i + 1) == w.subrange(1, i as int).push(w[i as int]));
            assert(arg_views(args@.push(arg)) == arg_views(args@).push(arg@));
            assert(w.subrange(1, i + 1).map_values(enc) == w.subrange(1, i as int).map_values(
                enc,
            ).push(arg@));
        }
        args.push(arg);
        i += 1;
    }
    let last = path.to_os_text();
    proof {
        assert(w.subrange(1, i as int) == w.skip(1));
        assert(arg_views(args@.push(last)) == arg_views(args@).push(last@));
        assert(parts@[0]@ == w[0]);
    }
    args.push(last);
    Ok(EditorLaunch { program, args })
}

/// What the environment and a file path launch.
pub open spec fn launch_from(
    editor: Option<Seq<char>>,
    visual: Option<Seq<char>>,
    fallback: Option<Seq<char>>,
    path: Seq<u8>,
) -> Result<LaunchView, EditorError> {
    match chosen_editor(editor, visual, fallback) {
        None => Err(EditorError::NotFound),
        Some(command) => match launch_of(command, path) {
            Some(launch) => Ok(launch),
            None => Err(EditorError::Empty),
        },
    }
}

/// The launch of the editor that the environment calls for.
pub fn launch_spec_from_env(
    path: &FilePath,
    editor: Option<&str>,
    visual: Option<&str>,
    fallback: Option<&str>,
) -> (r: Result<EditorLaunch, EditorError>)
    ensures
        match launch_from(opt_str(editor), opt_str(visual), opt_str(fallback), path@) {
            Ok(launch) => r matches Ok(spec) && spec@ == launch,
            Err(error) => r == Err::<EditorLaunch, EditorError>(error),
        },
{
    match resolve_editor(editor, visual, fallback) {
        Ok(command) => launch_spec(command.as_str(), path),
        Err(error) => Err(error),
    }
}

/// The separator of the search path, `:`, as on Unix.
pub const PATH_LIST_SEPARATOR: u8 = 58;

/// The directories of a search path, empty ones included.
pub open spec fn search_dirs(list: Seq<u8>) -> Seq<Seq<u8>>
    decreases list.len(),
{
    if list.len() == 0 {
        seq![Seq::empty()]
    } else {
        let before = search_dirs(list.drop_last());
        if list.last() == PATH_LIST_SEPARATOR {
            before.push(Seq::empty())
        } else {
            before.drop_last().push(before.last().push(list.last()))
        }
    }
}

/// The bytes of each path of a list.
pub open spec fn path_views(list: Seq<FilePath>) -> Seq<Seq<u8>> {
    list.map_values(|p: FilePath| p@)
}

/// The directories of a search path.
pub fn split_paths(list: &[u8]) -> (r: Vec<FilePath>)
    ensures
        path_views(r@) == search_dirs(list@),
{
    let mut done: Vec<FilePath> = Vec::new();
    let mut open: Vec<u8> = Vec::new();
    let mut i: usize = 0;
    assert(path_views(done@).push(open@) == search_dirs(list@.take(0)));
    while i < list.len()
        invariant
            i <= list.len(),
            path_views(done@).push(open@) == search_dirs(list@.take(i as int)),
        decreases list.len() - i,
    {
        let ghost before = search_dirs(list@.take(i as int));
        assert(list@.take(i + 1).drop_last() == list@.take(i as int));
        assert(before.drop_last() == path_views(done@));
        assert(before.last() == open@);
        if list[i] == PATH_LIST_SEPARATOR {
            let dir = FilePath { bytes: open };
            assert(path_views(done@.push(dir)) == path_views(done@).push(dir@));
            done.push(dir);
            open = Vec::new();
        } else {
            open.push(list[i]);
        }
        assert(path_views(done@).push(open@) == search_dirs(list@.take(i + 1)));
        i += 1;
    }
    assert(list@.take(i as int) == list@);
    let dir = FilePath { bytes: open };
    assert(path_views(done@.push(dir)) == path_views(done@).push(dir@));
    done.push(dir);
    done
}

/// Whether `runnable` may answer `yes` for the path with these bytes.
pub open spec fn may_answer<F: Fn(&FilePath) -> bool>(runnable: F, path: Seq<u8>, yes: bool) -> bool {
    exists|p: FilePath| p@ == path && #[trigger] call_ensures(runnable, (&p,), yes)
}

/// Whether `runnable` may have turned the name down in each of the first `n` directories.
pub open spec fn turned_down<F: Fn(&FilePath) -> bool>(
    runnable: F,
    name: Seq<char>,
    dirs: Seq<Seq<u8>>,
    n: int,
) -> bool {
    forall|d: int|
        0 <= d < n ==> may_answer(runnable, joined(#[trigger] dirs[d], encode_utf8(name)), false)
}

/// Whether the name at position `i` is what the search finds: some directory answered yes for
/// it, no directory before that one did, and every earlier name was turned down everywhere.
pub open spec fn found_at<F: Fn(&FilePath) -> bool>(
    runnable: F,
    names: Seq<&str>,
    dirs: Seq<Seq<u8>>,
    i: int,
) -> bool {
    &&& forall|k: int| 0 <= k < i ==> turned_down(runnable, #[trigger] names[k]@, dirs, dirs.len() as int)
    &&& exists|d: int|
        0 <= d < dirs.len() && #[trigger] turned_down(runnable, names[i]@, dirs, d) && may_answer(
            runnable,
            joined(dirs[d], encode_utf8(names[i]@)),
            true,
        )
}

/// Whether `found` is what a search for `names` through the directories gives.
pub open spec fn is_search_result<F: Fn(&FilePath) -> bool>(
    runnable: F,
    names: Seq<&str>,
    dirs: Seq<Seq<u8>>,
    found: Option<Seq<char>>,
) -> bool {
    match found {
        Some(name) => exists|i: int|
            0 <= i < names.len() && name == names[i]@ && #[trigger] found_at(
                runnable,
                names,
                dirs,
                i,
            ),
        None => forall|k: int|
            0 <= k < names.len() ==> turned_down(
                runnable,
                #[trigger] names[k]@,
                dirs,
                dirs.len() as int,
            ),
    }
}

/// First of `names` that is runnable somewhere on the search path. Names are searched in order,
/// so that `nvim` beats `vim` even if `vim` stands in an earlier directory.
pub fn first_on_path<'a, F: Fn(&FilePath) -> bool>(
    names: &[&'a str],
    path_var: Option<&[u8]>,
    runnable: F,
) -> (r: Option<&'a str>)
    requires
        forall|p: FilePath| #[trigger] call_requires(runnable, (&p,)),
    ensures
        path_var is None ==> r is None,
        path_var matches Some(list) ==> is_search_result(
            runnable,
            names@,
            search_dirs(list@),
            opt_str(r),
        ),
{
    let list: &[u8] = match path_var {
        Some(list) => list,
        None => {
            return None;
        },
    };
    let dirs = split_paths(list);
    let ghost all = search_dirs(list@);
    let mut i: usize = 0;
    while i < names.len()
        invariant
            i <= names.len(),
            path_views(dirs@) == all,
            forall|p: FilePath| #[trigger] call_requires(runnable, (&p,)),
            forall|k: int| 0 <= k < i ==> turned_down(runnable, #[trigger] names@[k]@, all, all.len() as int),
            all == search_dirs(list@),
            path_var == Some(list),
        decreases names.len() - i,
    {
        let mut d: usize = 0;
        while d < dirs.len()
            invariant
                i < names.len(),
                d <= dirs.len(),
                path_views(dirs@) == all,
                forall|p: FilePath| #[trigger] call_requires(runnable, (&p,)),
                forall|k: int|
                    0 <= k < i ==> turned_down(runnable, #[trigger] names@[k]@, all, all.len() as int),
                turned_down(runnable, names@[i as int]@, all, d as int),
                all == search_dirs(list@),
                path_var == Some(list),
            decreases dirs.len() - d,
        {
            let candidate = dirs[d].join(names[i]);
            assert(all[d as int] == dirs@[d as int]@);
            let yes: bool = runnable(&candidate);
            assert(may_answer(runnable, candidate@, yes));
            if yes {
                let name: &'a str = names[i];
                assert(name@ == names@[i as int]@);
                assert(found_at(runnable, names@, all, i as int));
                return Some(name);
            }
            d += 1;
        }
        i += 1;
    }
    None
}

/// Whether a file with these permission bits can be executed: it is a regular file, and some
/// class of users may execute it.
pub fn is_executable_mode(is_file: bool, mode: u32) -> (r: bool)
    ensures
        r == (is_file && mode & 0o111 != 0),
{
    is_file && mode & 0o111 != 0
}

/// The file path is the last argument of every launch, whole, whatever it holds.
pub proof fn path_is_the_last_argument(command: Seq<char>, path: Seq<u8>)
    ensures
        launch_of(command, path) matches Some(launch) ==> launch.args.len() > 0
            && launch.args.last() == path && launch.args.len() == words(command).len(),
{
}

proof fn lemma_trimmed_end(s: Seq<char>)
    ensures
        trim_back(s).len() > 0 ==> !is_space(trim_back(s).last()),
    decreases s.len(),
{
    if s.len() > 0 && is_space(s.last()) {
        lemma_trimmed_end(s.drop_last());
    }
}

/// An editor that was found can be launched: the only error left is that none was found.
pub proof fn found_editors_can_be_launched(
    editor: Option<Seq<char>>,
    visual: Option<Seq<char>>,
    fallback: Option<Seq<char>>,
    path: Seq<u8>,
)
    ensures
        launch_from(editor, visual, fallback, path) is Ok == chosen_editor(
            editor,
            visual,
            fallback,
        ) is Some,
        launch_from(editor, visual, fallback, path) != Err::<LaunchView, EditorError>(
            EditorError::Empty,
        ),
{
    assert forall|v: Seq<char>| trim(v).len() > 0 implies (#[trigger] words(trim(v))).len() > 0 by {
        lemma_trimmed_end(trim_front(v));
    }
}

} // verus!
