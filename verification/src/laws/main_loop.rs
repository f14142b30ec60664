//! Laws of commands, keys, reports and turns.

use compact_str::CompactString;
use vstd::prelude::*;

use crate::app::command::{key_command, Command};
use crate::app::control::CtlView;
use crate::app::jobs::{Job, JobActionView, Report};
use crate::app::message::Message;
use crate::app::navigation::{usable_parent_of, PlanView};
use crate::app::open_with::{picker_step, ActionView, ModeView, PromptView};
use crate::app::state::{next_generation, StateView};
use crate::app::turn::{TurnEvent, TurnView};
use crate::app::{outcome_notice, was_started, EffectView, ExternalOutcome, LoopView};
use crate::compact::compact_chars;
use crate::event::{AppEvent, KeyCode, KeyEvent, TermEvent};
use crate::path::{same_place, FilePath};
use crate::preview::{PreviewPayload, PreviewView};
use crate::text::signed_numeral;
use crate::ui::layout::{pane, Rect};
use crate::ui::panes::preview::{page_of, scroll_limit_of};

verus! {

/// The file to preview is the highlighted entry, if it is not a directory; and a preview belongs
/// to a file if it is one of the same place.
pub proof fn highlighted_files_are_previewed(state: StateView, path: Seq<u8>)
    ensures
        state.highlighted_file() is Some == (state.highlighted() is Some
            && !state.highlighted()->0.is_dir),
        state.highlighted_file() matches Some(file) ==> file == state.highlighted()->0.path,
        state.previews(path) == (state.preview.path() is Some && same_place(
            state.preview.path()->0,
            path,
        )),
        state.editor_effect() == (match state.highlighted_file() {
            Some(file) => EffectView::OpenEditor(file),
            None => EffectView::Nothing,
        }),
        state.preview_area() == pane(
            (Rect { x: 0, y: 0, width: state.frame_width, height: state.frame_height }),
            2,
        ),
{
}

/// A file that is highlighted and neither shown nor being read is read: a live read is cancelled,
/// the new one asked for behind that, and the pane scrolled to the top. Where it is shown or being
/// read nothing happens, and where no file is highlighted the preview is dropped and its read
/// cancelled. Nothing else changes.
pub proof fn missing_previews_are_read(before: LoopView, path: Seq<u8>)
    ensures
        ({
            let after = before.with_preview_requested();
            let stopped = if before.ctl.preview_job {
                before.ctl.actions.push(JobActionView::Cancel(Job::Preview))
            } else {
                before.ctl.actions
            };
            let wanted = before.state.highlighted_file();
            &&& wanted is None ==> after == (LoopView {
                state: StateView {
                    preview: PreviewView::Idle,
                    preview_scroll: 0,
                    ..before.state
                },
                ctl: CtlView { preview_job: false, actions: stopped, ..before.ctl },
            })
            &&& wanted == Some(path) && before.state.previews(path) ==> after == before
            &&& wanted == Some(path) && !before.state.previews(path) ==> after == (LoopView {
                state: StateView {
                    preview: PreviewView::Loading(path),
                    preview_scroll: 0,
                    ..before.state
                },
                ctl: CtlView {
                    preview_job: true,
                    actions: stopped.push(JobActionView::LoadPreview { path }),
                    ..before.ctl
                },
            })
        }),
{
}

/// A live report does what its job was started for, and no more: a count is taken down and is
/// over; a preview is shown and is over; the programs reach the picker that asked for them; the
/// end of a scan completes its listing.
pub proof fn live_reports_take_effect(
    before: LoopView,
    count: Option<u64>,
    path: FilePath,
    payload: PreviewPayload,
    names: Vec<CompactString>,
    prompt: PromptView,
)
    ensures
        before.applied(Report::RecursiveCountFinished(before.state.count_generation, count)) == (
        LoopView {
            state: StateView {
                is_counting_recursively: false,
                recursive_file_count: if count is Some {
                    count
                } else {
                    before.state.recursive_file_count
                },
                ..before.state
            },
            ctl: CtlView { active_job: false, ..before.ctl },
        }),
        before.state.previews(path@) ==> before.applied(Report::PreviewReady(path, payload)) == (
        LoopView {
            state: StateView { preview: payload@.preview_of(path@), ..before.state },
            ctl: CtlView { preview_job: false, ..before.ctl },
        }),
        before.state.mode == ModeView::OpenWith(prompt) ==> before.applied(
            Report::ProgramsListed(prompt.generation, names),
        ) == (LoopView {
            state: StateView {
                mode: ModeView::OpenWith(
                    prompt.with_candidates(names@.map_values(|s: CompactString| compact_chars(s))),
                ),
                ..before.state
            },
            ..before
        }),
        before.applied(Report::ScanFinished(before.state.scan_generation)) == (LoopView {
            state: StateView { current_listing_complete: true, ..before.state },
            ..before
        }),
        before.applied(Report::ParentScanFinished(before.state.scan_generation)) == (LoopView {
            state: StateView { parent_listing_complete: true, ..before.state },
            ..before
        }),
{
}

/// A batch moves nothing but the highlight, and that only where it is still to be restored.
pub proof fn batches_change_their_listing_alone(before: LoopView, batch: Vec<crate::fs::FileEntry>)
    ensures
        ({
            let generation = before.state.scan_generation;
            let after = before.applied(Report::ScanBatch(generation, batch));
            let listed = before.state.updated(Message::ScanBatch(batch));
            let parent = before.applied(Report::ParentScanBatch(generation, batch));
            &&& after == (LoopView { state: listed.with_highlight_restored(), ..before })
            &&& !before.state.restore_pending ==> after.state == listed
            &&& parent == (LoopView {
                state: before.state.updated(Message::ParentScanBatch(batch)),
                ..before
            })
        }),
{
}

/// A state without a notice.
pub open spec fn unnoticed(state: StateView) -> StateView {
    StateView { notice: None, ..state }
}

/// Quitting says so and does nothing else.
pub proof fn quitting_only_quits(before: LoopView)
    ensures
        before.commanded(Command::Quit) == (LoopView {
            state: StateView { should_quit: true, ..unnoticed(before.state) },
            ..before
        }),
        before.command_effect(Command::Quit) == EffectView::Nothing,
{
}

/// A count is started for the current directory, in a new generation, unless one is running.
/// Cancelling ends the counting; a live count is cancelled once and its report made late.
pub proof fn counts_are_started_and_cancelled(before: LoopView)
    ensures
        before.state.is_counting_recursively ==> before.commanded(Command::RecountRecursive) == (
        LoopView { state: unnoticed(before.state), ..before }),
        !before.state.is_counting_recursively ==> before.commanded(Command::RecountRecursive) == (
        LoopView {
            state: StateView {
                is_counting_recursively: true,
                count_generation: next_generation(before.state.count_generation),
                ..unnoticed(before.state)
            },
            ctl: CtlView {
                active_job: true,
                actions: before.ctl.actions.push(
                    JobActionView::Count {
                        path: before.state.current_dir,
                        generation: next_generation(before.state.count_generation),
                    },
                ),
                ..before.ctl
            },
        }),
        !before.ctl.active_job ==> before.commanded(Command::Cancel) == (LoopView {
            state: StateView { is_counting_recursively: false, ..unnoticed(before.state) },
            ..before
        }),
        before.ctl.active_job ==> before.commanded(Command::Cancel) == (LoopView {
            state: StateView {
                is_counting_recursively: false,
                count_generation: next_generation(before.state.count_generation),
                ..unnoticed(before.state)
            },
            ctl: CtlView {
                active_job: false,
                actions: before.ctl.actions.push(JobActionView::Cancel(Job::Count)),
                ..before.ctl
            },
        }),
{
}

/// Moving the highlight moves the highlight, ends the wait for the saved one, and does nothing
/// else. One move undoes the other where there is room.
pub proof fn moves_undo_each_other(before: LoopView)
    ensures
        ({
            let next = before.commanded(Command::SelectNext);
            let previous = before.commanded(Command::SelectPrevious);
            let at = before.state.highlight();
            &&& next == (LoopView {
                state: StateView {
                    selected: next.state.selected,
                    restore_pending: false,
                    ..unnoticed(before.state)
                },
                ..before
            })
            &&& previous == (LoopView {
                state: StateView {
                    selected: previous.state.selected,
                    restore_pending: false,
                    ..unnoticed(before.state)
                },
                ..before
            })
            &&& at is Some && at->0 + 1 < before.state.entries.len() ==> next.state.selected
                == at->0 + 1 && next.commanded(Command::SelectPrevious).state.highlight() == at
            &&& at is Some && at->0 > 0 ==> previous.state.selected == at->0 - 1
                && previous.commanded(Command::SelectNext).state.highlight() == at
            &&& at is Some && at->0 == 0 ==> previous.state.selected == 0
        }),
{
}

/// Entering and activating lead into the highlighted directory and have it scanned; climbing
/// leads to the parent and has scanned what is missing. Where there is no way nothing happens.
pub proof fn directories_are_changed_and_scanned(before: LoopView, dir: Seq<u8>)
    ensures
        ({
            let s = unnoticed(before.state);
            let entered = before.commanded(Command::EnterDirectory);
            let activated = before.commanded(Command::Activate);
            let climbed = before.commanded(Command::OpenParent);
            let plan = PlanView { current: Some(dir), parent: None };
            &&& activated == entered
            &&& before.state.way_down() is None ==> entered == (LoopView { state: s, ..before })
            &&& before.state.way_down() == Some(dir) ==> entered == (LoopView {
                state: s.entered(dir).with_plan(plan),
                ctl: before.ctl.with_plan(plan, next_generation(s.scan_generation)),
            })
            &&& usable_parent_of(s.current_dir) is None ==> climbed == (LoopView {
                state: s,
                ..before
            })
            &&& usable_parent_of(s.current_dir) == Some(dir) ==> climbed == (LoopView {
                state: s.climbed(dir).with_plan(s.climbing_plan(dir)),
                ctl: before.ctl.with_plan(
                    s.climbing_plan(dir),
                    next_generation(s.scan_generation),
                ),
            })
        }),
{
}

/// Opening with asks which program for the highlighted file, in a new generation, and has the
/// programs listed; for anything else it does nothing.
pub proof fn the_picker_opens_for_files(before: LoopView, path: Seq<u8>)
    ensures
        ({
            let s = unnoticed(before.state);
            let after = before.commanded(Command::OpenWith);
            let generation = next_generation(s.open_with_generation);
            &&& s.highlighted_file() is None ==> after == (LoopView { state: s, ..before })
            &&& s.highlighted_file() == Some(path) ==> after == (LoopView {
                state: StateView {
                    open_with_generation: generation,
                    mode: ModeView::OpenWith(PromptView::fresh(path, generation)),
                    ..s
                },
                ctl: before.ctl.with_listing(generation),
            })
        }),
{
}

/// Only opening a file in the editor takes over the terminal from the file list: asked for as
/// such, or by activating where there is no way down. It changes nothing but the notice.
pub proof fn only_files_are_opened(before: LoopView, command: Command)
    ensures
        before.command_effect(command) == (if command == Command::OpenInEditor || command
            == Command::Activate && before.state.way_down() is None {
            before.state.editor_effect()
        } else {
            EffectView::Nothing
        }),
        before.commanded(Command::OpenInEditor) == (LoopView {
            state: unnoticed(before.state),
            ..before
        }),
{
}

/// Paging moves the preview by a page where there is room, up as well as down, and to the end
/// where there is not. Paging up undoes paging down wherever no end is reached.
pub proof fn paging_up_undoes_paging_down(before: LoopView)
    ensures
        ({
            let s = unnoticed(before.state);
            let page = page_of(s.preview_area()) as int;
            let limit = scroll_limit_of(s, s.preview_area()) as int;
            let at = s.preview_scroll as int;
            let down = before.commanded(Command::PreviewPageDown).state;
            let up = before.commanded(Command::PreviewPageUp).state;
            &&& at + page <= limit ==> down.preview_scroll == at + page
            &&& at + page > limit ==> down.preview_scroll == limit
            &&& page <= at <= limit + page ==> up.preview_scroll == at - page
            &&& at < page ==> up.preview_scroll == 0
            &&& at - page > limit ==> up.preview_scroll == limit
            &&& page >= 1
            &&& at + page <= limit ==> before.commanded(Command::PreviewPageDown).commanded(
                Command::PreviewPageUp,
            ).state.preview_scroll == at
            &&& page <= at <= limit ==> before.commanded(Command::PreviewPageUp).commanded(
                Command::PreviewPageDown,
            ).state.preview_scroll == at
        }),
{
    let s = unnoticed(before.state);
    let down = before.commanded(Command::PreviewPageDown).state;
    let up = before.commanded(Command::PreviewPageUp).state;
    assert(down.highlighted() == s.highlighted() && up.highlighted() == s.highlighted());
    assert(down.preview_area() == s.preview_area() && up.preview_area() == s.preview_area());
}

/// A key in the picker does what the picker makes of it. Closing it, by itself or by a launch,
/// leads back to the file list and cancels a live listing; a launch is run and its failure
/// reported; a message becomes the notice, and anything else clears it.
pub proof fn picker_keys_do_what_the_picker_says(
    before: LoopView,
    prompt: PromptView,
    key: KeyEvent,
)
    ensures
        ({
            let (after, action) = picker_step(prompt, key);
            let picked = before.picked(prompt, key);
            let effect = before.picked_effect(prompt, key);
            let closed = LoopView {
                state: StateView { mode: ModeView::Browser, notice: None, ..before.state },
                ctl: CtlView {
                    open_with_job: false,
                    actions: if before.ctl.open_with_job {
                        before.ctl.actions.push(JobActionView::Cancel(Job::Listing))
                    } else {
                        before.ctl.actions
                    },
                    ..before.ctl
                },
            };
            match action {
                ActionView::Nothing => picked == (LoopView {
                    state: StateView {
                        mode: ModeView::OpenWith(after),
                        notice: None,
                        ..before.state
                    },
                    ..before
                }) && effect == EffectView::Nothing,
                ActionView::Notice(message) => picked == (LoopView {
                    state: StateView {
                        mode: ModeView::OpenWith(after),
                        notice: Some(message),
                        ..before.state
                    },
                    ..before
                }) && effect == EffectView::Nothing,
                ActionView::Close => picked == closed && effect == EffectView::Nothing,
                ActionView::Launch(spec) => picked == closed && effect
                    == (EffectView::RunExternal { spec, report_nonzero: true }),
            }
        }),
{
}

/// A key goes to the picker while it is open and to the file list otherwise; only `c` with
/// Control quits either way. A key without a command does nothing to the file list.
pub proof fn keys_go_where_they_belong(before: LoopView, key: KeyEvent, prompt: PromptView)
    ensures
        ({
            let exit = key_command(key) == Some(Command::Quit) && key.modifiers.control;
            &&& exit ==> key.code == KeyCode::Char('c')
            &&& exit ==> before.keyed(key) == before.commanded(Command::Quit)
                && before.keyed_effect(key) == EffectView::Nothing
            &&& !exit && before.state.mode == ModeView::OpenWith(prompt) ==> before.keyed(key)
                == before.picked(prompt, key) && before.keyed_effect(key) == before.picked_effect(
                prompt,
                key,
            )
            &&& !exit && before.state.mode == ModeView::Browser && key_command(key) is None
                ==> before.keyed(key) == before && before.keyed_effect(key) == EffectView::Nothing
            &&& !exit && before.state.mode == ModeView::Browser && key_command(key) is Some
                ==> before.keyed(key) == before.commanded(key_command(key)->0)
                && before.keyed_effect(key) == before.command_effect(key_command(key)->0)
        }),
{
}

/// A turn begins by ending the loop or by drawing at the size of the terminal, waits once it has
/// drawn, and does what comes: a key, a report, or nothing. Where a key runs a program the preview
/// is left for later; otherwise it is seen to at once.
pub proof fn turns_do_what_comes<E>(
    before: LoopView,
    size: Option<(u16, u16)>,
    key: KeyEvent,
    report: Report,
    message: String,
)
    ensures
        !before.state.should_quit ==> {
            let after = before.turned(TurnEvent::<E>::Begin { size });
            &&& before.turn_action(TurnEvent::<E>::Begin { size }) == TurnView::<E>::Draw
            &&& after.ctl == before.ctl
            &&& size is None ==> after == before
            &&& size matches Some(s) ==> after.state == (StateView {
                frame_width: s.0,
                frame_height: s.1,
                ..before.state
            })
        },
        before.turned(TurnEvent::<E>::Drawn(Ok(()))) == before,
        before.turn_action(TurnEvent::<E>::Drawn(Ok(()))) == TurnView::<E>::Wait,
        before.turned(TurnEvent::<E>::Reported(report)) == before.applied(
            report,
        ).with_preview_requested(),
        before.turn_action(TurnEvent::<E>::Reported(report)) == TurnView::<E>::Next,
        ({
            let event = TurnEvent::<E>::Input(Ok(AppEvent::Input(TermEvent::Key(key))));
            let effect = before.keyed_effect(key);
            &&& effect == EffectView::Nothing ==> before.turned(event) == before.keyed(
                key,
            ).with_preview_requested() && before.turn_action(event) == TurnView::<E>::Next
            &&& effect != EffectView::Nothing ==> before.turned(event) == before.keyed(key)
                && before.turn_action(event) == TurnView::<E>::Run(effect)
        }),
        before.turned(TurnEvent::<E>::Input(Ok(AppEvent::Tick))) == before,
        before.turned(TurnEvent::<E>::Input(Ok(AppEvent::Error(message)))) == before,
        before.turned(TurnEvent::<E>::Input(Ok(AppEvent::Input(TermEvent::Other)))) == before,
        before.turn_action(TurnEvent::<E>::Input(Ok(AppEvent::Tick))) == TurnView::<E>::Next,
        before.turn_action(TurnEvent::<E>::Input(Ok(AppEvent::Error(message)))) == TurnView::<
            E,
        >::Next,
        before.turn_action(TurnEvent::<E>::Input(Ok(AppEvent::Input(TermEvent::Other))))
            == TurnView::<E>::Next,
{
}

/// What is told of a program: why it could not be run, or, where that is asked for, that it did
/// not end well. It was started unless it could not be, or the terminal could not be given away.
pub proof fn outcomes_are_told(
    program: Seq<char>,
    report_nonzero: bool,
    message: String,
    started: bool,
    success: bool,
    code: Option<i32>,
)
    ensures
        outcome_notice(program, report_nonzero, ExternalOutcome::SuspendFailed(message)) == Some(
            message@,
        ),
        outcome_notice(
            program,
            report_nonzero,
            (ExternalOutcome::ResumeFailed { message, started }),
        ) == Some(message@),
        outcome_notice(program, report_nonzero, ExternalOutcome::LaunchFailed(message)) == Some(
            message@,
        ),
        outcome_notice(program, report_nonzero, ExternalOutcome::TaskFailed(message)) == Some(
            "editor task failed: "@ + message@,
        ),
        success || !report_nonzero ==> outcome_notice(
            program,
            report_nonzero,
            (ExternalOutcome::Ended { success, code }),
        ) is None,
        !success && report_nonzero ==> outcome_notice(
            program,
            report_nonzero,
            (ExternalOutcome::Ended { success, code }),
        ) == Some(
            if code is Some {
                program + " exited with status "@ + signed_numeral(code->0 as int)
            } else {
                program + " was terminated by a signal"@
            },
        ),
        !was_started(ExternalOutcome::SuspendFailed(message)),
        !was_started(ExternalOutcome::LaunchFailed(message)),
        was_started(ExternalOutcome::TaskFailed(message)),
        was_started((ExternalOutcome::Ended { success, code })),
        was_started((ExternalOutcome::ResumeFailed { message, started })) == started,
{
}

} // verus!
