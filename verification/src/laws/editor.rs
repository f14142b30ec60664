//! Laws of commands, editors and the search path.

use vstd::prelude::*;
use vstd::utf8::encode_utf8;

use crate::app::command::{key_command, Command};
use crate::app::editor::{
    chosen_editor, is_search_result, launch_from, launch_of, may_answer, search_dirs, turned_down,
    EditorError, LaunchError, LaunchView, PATH_FALLBACKS,
};
use crate::event::{KeyCode, KeyEvent, KeyEventKind};
use crate::laws::picker::bare;
use crate::path::{joined, FilePath};
use crate::text::{trim, words};

verus! {

/// Which keys trigger which command: a bare `q`, or `c` with Control and whatever else, quits; a
/// bare `r` counts; a bare Escape cancels; and no other key does anything. Only presses count.
pub proof fn keys_trigger_these_commands(key: KeyEvent)
    ensures
        key_command(key) == Some(Command::Quit) <==> key.kind == KeyEventKind::Press && (key.code
            == KeyCode::Char('c') && key.modifiers.control || key.code == KeyCode::Char('q')
            && key.modifiers == bare()),
        key_command(key) == Some(Command::RecountRecursive) <==> key.kind == KeyEventKind::Press
            && key.code == KeyCode::Char('r') && key.modifiers == bare(),
        key_command(key) == Some(Command::Cancel) <==> key.kind == KeyEventKind::Press && key.code
            == KeyCode::Esc && key.modifiers == bare(),
        key_command(key) matches Some(command) ==> command == Command::Quit || command
            == Command::RecountRecursive || command == Command::Cancel,
{
}

/// Whether a variable is set to something other than white space.
pub open spec fn is_set(value: Option<Seq<char>>) -> bool {
    value matches Some(text) && trim(text).len() > 0
}

/// The first of the three that is set is chosen, trimmed, whatever the later ones are; where none
/// is, none is chosen.
pub proof fn the_first_set_editor_wins(
    editor: Option<Seq<char>>,
    visual: Option<Seq<char>>,
    fallback: Option<Seq<char>>,
)
    ensures
        is_set(editor) ==> chosen_editor(editor, visual, fallback) == Some(trim(editor->0)),
        !is_set(editor) && is_set(visual) ==> chosen_editor(editor, visual, fallback) == Some(
            trim(visual->0),
        ),
        !is_set(editor) && !is_set(visual) && is_set(fallback) ==> chosen_editor(
            editor,
            visual,
            fallback,
        ) == Some(trim(fallback->0)),
        !is_set(editor) && !is_set(visual) && !is_set(fallback) ==> chosen_editor(
            editor,
            visual,
            fallback,
        ) is None,
{
}

/// A command line launches its words, in order, with the path of the file behind them, whole.
/// Without a word it launches nothing.
pub proof fn commands_launch_their_words(command: Seq<char>, path: Seq<u8>)
    ensures
        words(command).len() == 0 ==> launch_of(command, path) is None,
        words(command).len() > 0 ==> {
            &&& launch_of(command, path) matches Some(launch)
            &&& seq![launch.program] + launch.args == words(command).map_values(
                |word: Seq<char>| encode_utf8(word),
            ).push(path)
        },
{
    if words(command).len() > 0 {
        let launch = launch_of(command, path)->0;
        assert(seq![launch.program] + launch.args =~= words(command).map_values(
            |word: Seq<char>| encode_utf8(word),
        ).push(path));
    }
}

/// What is launched is the chosen editor; where none is chosen the error says so.
pub proof fn the_chosen_editor_is_launched(
    editor: Option<Seq<char>>,
    visual: Option<Seq<char>>,
    fallback: Option<Seq<char>>,
    path: Seq<u8>,
)
    ensures
        chosen_editor(editor, visual, fallback) is None ==> launch_from(
            editor,
            visual,
            fallback,
            path,
        ) == Err::<LaunchView, EditorError>(EditorError::NotFound),
        chosen_editor(editor, visual, fallback) matches Some(command) ==> launch_from(
            editor,
            visual,
            fallback,
            path,
        ) == (match launch_of(command, path) {
            Some(launch) => Ok::<LaunchView, EditorError>(launch),
            None => Err(EditorError::Empty),
        }),
{
}

/// What the errors say, and which editors are looked for.
pub proof fn errors_say_this(program: String, source: String, error: EditorError)
    ensures
        EditorError::NotFound.message()
            == "no editor found (set EDITOR, or install nvim/vim/vi/nano)"@,
        EditorError::Empty.message() == "command is empty"@,
        LaunchError::Resolve(error).message() == error.message(),
        (LaunchError::Spawn { program, source }).message() == "failed to run "@ + program@ + ": "@
            + source@,
        PATH_FALLBACKS@.len() == 4,
        PATH_FALLBACKS@[0]@ == "nvim"@,
        PATH_FALLBACKS@[1]@ == "vim"@,
        PATH_FALLBACKS@[2]@ == "vi"@,
        PATH_FALLBACKS@[3]@ == "nano"@,
{
}

/// Whether a byte string holds no colon.
pub open spec fn without_colon(s: Seq<u8>) -> bool {
    forall|i: int| 0 <= i < s.len() ==> #[trigger] s[i] != 58
}

proof fn lemma_one_directory(s: Seq<u8>)
    requires
        without_colon(s),
    ensures
        search_dirs(s) == seq![s],
    decreases s.len(),
{
    if s.len() > 0 {
        assert forall|i: int| 0 <= i < s.drop_last().len() implies #[trigger] s.drop_last()[i]
            != 58 by {
            assert(s.drop_last()[i] == s[i]);
        }
        lemma_one_directory(s.drop_last());
        assert(s.last() == s[s.len() - 1]);
        assert(s.drop_last().push(s.last()) == s);
        assert(search_dirs(s) =~= seq![s]);
    } else {
        assert(s =~= Seq::<u8>::empty());
    }
}

proof fn lemma_directories_behind_a_colon(a: Seq<u8>, b: Seq<u8>)
    ensures
        search_dirs(b).len() > 0,
        search_dirs(a.push(58) + b) == search_dirs(a) + search_dirs(b),
    decreases b.len(),
{
    let s = a.push(58) + b;
    if b.len() == 0 {
        assert(s == a.push(58));
        assert(s.drop_last() == a);
        assert(search_dirs(s) =~= search_dirs(a) + search_dirs(b));
    } else {
        lemma_directories_behind_a_colon(a, b.drop_last());
        assert(s.drop_last() == a.push(58) + b.drop_last());
        assert(s.last() == b.last());
        assert(search_dirs(s) =~= search_dirs(a) + search_dirs(b));
    }
}

/// A colon parts the directories of a search path: those before it are followed by those behind
/// it, empty ones too. Without a colon there is one directory. This says what the directories of
/// any search path are.
pub proof fn colons_part_directories(a: Seq<u8>, b: Seq<u8>)
    ensures
        search_dirs(a.push(58) + b) == search_dirs(a) + search_dirs(b),
        without_colon(a) ==> search_dirs(a) == seq![a],
{
    lemma_directories_behind_a_colon(a, b);
    if without_colon(a) {
        lemma_one_directory(a);
    }
}

/// Where every question has one answer, the search finds the first of the names that is runnable
/// in some directory, whichever directory that is, and finds none only if no name is runnable
/// anywhere.
pub proof fn the_first_runnable_name_is_found<F: Fn(&FilePath) -> bool>(
    runnable: F,
    is_runnable: spec_fn(Seq<u8>) -> bool,
    names: Seq<&str>,
    dirs: Seq<Seq<u8>>,
    found: Option<Seq<char>>,
)
    requires
        forall|p: FilePath, yes: bool| #[trigger]
            call_ensures(runnable, (&p,), yes) ==> yes == is_runnable(p@),
        is_search_result(runnable, names, dirs, found),
    ensures
        found matches Some(name) ==> exists|i: int, d: int|
            #![trigger names[i], dirs[d]]
            {
                &&& 0 <= i < names.len() && names[i]@ == name
                &&& 0 <= d < dirs.len() && is_runnable(joined(dirs[d], encode_utf8(name)))
                &&& forall|k: int, e: int|
                    #![trigger names[k], dirs[e]]
                    0 <= k < i && 0 <= e < dirs.len() ==> !is_runnable(
                        joined(dirs[e], encode_utf8(names[k]@)),
                    )
            },
        found is None ==> forall|k: int, e: int|
            #![trigger names[k], dirs[e]]
            0 <= k < names.len() && 0 <= e < dirs.len() ==> !is_runnable(
                joined(dirs[e], encode_utf8(names[k]@)),
            ),
{
    assert forall|path: Seq<u8>, yes: bool| #[trigger]
        may_answer(runnable, path, yes) implies yes == is_runnable(path) by {}
    assert forall|name: Seq<char>, n: int, e: int|
        #![trigger turned_down(runnable, name, dirs, n), dirs[e]]
        turned_down(runnable, name, dirs, n) && 0 <= e < n implies !is_runnable(
        joined(dirs[e], encode_utf8(name)),
    ) by {
        assert(may_answer(runnable, joined(dirs[e], encode_utf8(name)), false));
    }
    match found {
        Some(name) => {
            let i = choose|i: int|
                0 <= i < names.len() && name == names[i]@
                    && #[trigger] crate::app::editor::found_at(runnable, names, dirs, i);
            let d = choose|d: int|
                0 <= d < dirs.len() && #[trigger] turned_down(runnable, names[i]@, dirs, d)
                    && may_answer(runnable, joined(dirs[d], encode_utf8(names[i]@)), true);
            assert(is_runnable(joined(dirs[d], encode_utf8(name))));
            assert forall|k: int, e: int|
                #![trigger names[k], dirs[e]]
                0 <= k < i && 0 <= e < dirs.len() implies !is_runnable(
                joined(dirs[e], encode_utf8(names[k]@)),
            ) by {
                assert(turned_down(runnable, names[k]@, dirs, dirs.len() as int));
            }
            assert(names[i]@ == name);
        },
        None => {
            assert forall|k: int, e: int|
                #![trigger names[k], dirs[e]]
                0 <= k < names.len() && 0 <= e < dirs.len() implies !is_runnable(
                joined(dirs[e], encode_utf8(names[k]@)),
            ) by {
                assert(turned_down(runnable, names[k]@, dirs, dirs.len() as int));
            }
        },
    }
}

} // verus!
