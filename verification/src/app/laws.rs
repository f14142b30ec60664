//! What holds of the main loop as a whole.

use vstd::prelude::*;

use super::command::{key_command, Command};
use super::control::CtlView;
use super::editor::{EditorError, LaunchView};
use super::jobs::Report;
use super::navigation::{usable_parent_of, PlanView};
use super::open_with::{picker_step, ActionView, ModeView, PromptView};
use super::state::StateView;
use super::turn::TurnEvent;
use super::{EffectView, LoopView};
use crate::event::{AppEvent, KeyCode, KeyEvent, KeyEventKind, KeyModifiers, TermEvent};
use crate::fs::entry::{entry_views, name_position, name_position_is_the_first};
use crate::fs::FileEntry;
use crate::preview::PreviewView;
use crate::ui::panes::preview::scroll_limit_of;

verus! {

/// Control and `c` quit, whatever is open.
pub proof fn control_c_quits_everywhere(before: LoopView, key: KeyEvent)
    requires
        key.kind == KeyEventKind::Press,
        key.code == KeyCode::Char('c'),
        key.modifiers.control,
    ensures
        before.keyed(key).state.should_quit,
        before.keyed_effect(key) == EffectView::Nothing,
{
}

/// Nothing but a quit key makes the program quit, and in the picker only the one with Control.
pub proof fn only_quit_keys_quit(before: LoopView, key: KeyEvent)
    requires
        !before.state.should_quit,
        before.keyed(key).state.should_quit,
    ensures
        key_command(key) == Some(Command::Quit),
        before.state.mode is OpenWith ==> key.modifiers.control,
{
}

/// While the picker is open, keys change the picker and the notice, and nothing else.
pub proof fn picker_keys_leave_the_files_alone(before: LoopView, key: KeyEvent)
    requires
        before.state.mode is OpenWith,
        !LoopView::is_emergency_exit(key),
    ensures
        before.keyed(key).state == (StateView {
            mode: before.keyed(key).state.mode,
            notice: before.keyed(key).state.notice,
            ..before.state
        }),
{
}

/// A bare `q` in the picker is typed.
pub proof fn q_is_typed_into_the_picker(before: LoopView, prompt: PromptView, key: KeyEvent)
    requires
        before.state.mode == ModeView::OpenWith(prompt),
        key == (KeyEvent {
            code: KeyCode::Char('q'),
            modifiers: KeyModifiers::bare(),
            kind: KeyEventKind::Press,
        }),
    ensures
        before.keyed(key).state.mode == ModeView::OpenWith(
            PromptView { query: prompt.query.push('q'), selected: 0, ..prompt },
        ),
        before.keyed(key).state.should_quit == before.state.should_quit,
{
}

/// Releases and repeats of a key do not reach the files, and do not run anything.
pub proof fn only_presses_count(before: LoopView, key: KeyEvent)
    requires
        key.kind != KeyEventKind::Press,
    ensures
        before.keyed(key).ctl == before.ctl,
        before.keyed(key).state == (StateView {
            notice: before.keyed(key).state.notice,
            ..before.state
        }),
        before.keyed_effect(key) == EffectView::Nothing,
{
}

/// Every command clears the notice.
pub proof fn commands_clear_the_notice(before: LoopView, command: Command)
    ensures
        before.commanded(command).state.notice is None,
{
}

/// The highlight moves by one entry and stops at either end.
pub proof fn highlight_moves_by_one(before: LoopView)
    ensures
        before.state.highlight() matches Some(i) ==> {
            &&& before.commanded(Command::SelectNext).state.highlight() == Some(
                if i + 1 < before.state.entries.len() {
                    (i + 1) as nat
                } else {
                    i
                },
            )
            &&& before.commanded(Command::SelectPrevious).state.highlight() == Some(
                if i > 0 {
                    (i - 1) as nat
                } else {
                    0
                },
            )
        },
        before.state.highlight() is None ==> {
            &&& before.commanded(Command::SelectNext).state.highlight() is None
            &&& before.commanded(Command::SelectPrevious).state.highlight() is None
        },
{
}

/// Paging the preview stays within what there is to see and leaves the file list alone.
pub proof fn paging_stays_within_the_preview(before: LoopView, down: bool)
    ensures
        ({
            let command = if down {
                Command::PreviewPageDown
            } else {
                Command::PreviewPageUp
            };
            let after = before.commanded(command);
            let shown = StateView { notice: None, ..before.state };
            &&& after.ctl == before.ctl
            &&& after.state == (StateView {
                preview_scroll: after.state.preview_scroll,
                ..shown
            })
            &&& after.state.preview_scroll <= scroll_limit_of(shown, shown.preview_area())
        }),
{
}

/// Whether a report belongs to a job that still counts.
pub open spec fn is_live(before: LoopView, report: Report) -> bool {
    match report {
        Report::ScanBatch(generation, _) => generation == before.state.scan_generation,
        Report::ScanFinished(generation) => generation == before.state.scan_generation,
        Report::ParentScanBatch(generation, _) => generation == before.state.scan_generation,
        Report::ParentScanFinished(generation) => generation == before.state.scan_generation,
        Report::RecursiveCountFinished(generation, _) => generation
            == before.state.count_generation,
        Report::PreviewReady(path, _) => before.state.previews(path@),
        Report::ProgramsListed(generation, _) => before.state.mode matches ModeView::OpenWith(
            prompt,
        ) && prompt.generation == generation,
    }
}

/// A late report changes nothing: neither what is shown nor what is known of the live jobs.
pub proof fn late_reports_change_nothing(before: LoopView, report: Report)
    requires
        !is_live(before, report),
    ensures
        before.applied(report) == before,
        before.with_preview_requested() == before ==> before.applied(
            report,
        ).with_preview_requested() == before,
{
}

/// The result of a recursive count that was cancelled is dropped when it arrives after all.
pub proof fn cancelled_count_is_dropped(before: LoopView, count: Option<u64>)
    requires
        before.ctl.active_job,
    ensures
        ({
            let after = before.commanded(Command::Cancel);
            &&& !after.state.is_counting_recursively
            &&& !after.ctl.active_job
            &&& after.applied(
                Report::RecursiveCountFinished(before.state.count_generation, count),
            ) == after
        }),
{
}

/// Once the directory has changed, reports of scans and counts of the old one are late.
pub proof fn old_directory_reports_are_late(before: LoopView, command: Command, report: Report)
    requires
        command == Command::EnterDirectory || command == Command::Activate || command
            == Command::OpenParent,
        command == Command::OpenParent ==> usable_parent_of(before.state.current_dir) is Some,
        command != Command::OpenParent ==> before.state.way_down() is Some,
        is_live(before, report),
        !(report is PreviewReady),
        !(report is ProgramsListed),
    ensures
        !is_live(before.commanded(command), report),
{
}

/// Asking for the preview twice is asking for it once: a file that is loaded or being loaded is
/// not read again.
pub proof fn preview_is_requested_once(before: LoopView)
    ensures
        before.with_preview_requested().with_preview_requested()
            == before.with_preview_requested(),
{
}

/// Whether the jobs taken for live are the ones that the state is waiting for.
pub open spec fn jobs_match_the_state(l: LoopView) -> bool {
    &&& l.ctl.active_job == l.state.is_counting_recursively
    &&& l.ctl.preview_job == (l.state.preview is Loading)
    &&& l.ctl.open_with_job == (l.state.mode is OpenWith)
}

/// When the program starts, with the first scans asked for, the jobs and the state are in step.
pub proof fn jobs_start_in_step(dir: Seq<u8>, plan: PlanView)
    ensures
        jobs_match_the_state(
            LoopView {
                state: StateView::fresh(dir),
                ctl: CtlView {
                    active_job: false,
                    preview_job: false,
                    open_with_job: false,
                    actions: Seq::empty(),
                },
            }.with_plan(plan),
        ),
{
}

proof fn lemma_commands_stay_in_step(before: LoopView, command: Command)
    requires
        jobs_match_the_state(before),
    ensures
        jobs_match_the_state(before.commanded(command)),
{
}

proof fn lemma_picker_keys_stay_in_step(before: LoopView, prompt: PromptView, key: KeyEvent)
    requires
        jobs_match_the_state(before),
        before.state.mode == ModeView::OpenWith(prompt),
    ensures
        jobs_match_the_state(before.picked(prompt, key)),
{
    let action = picker_step(prompt, key).1;
    assert(action is Nothing || action is Notice || action is Close || action is Launch);
}

/// Keys, commands and reports keep the jobs and the state in step. So the title never tells of a
/// count that is not running, and the preview never waits for a read that nobody makes.
pub proof fn jobs_stay_in_step(before: LoopView, key: KeyEvent, command: Command, report: Report)
    requires
        jobs_match_the_state(before),
    ensures
        jobs_match_the_state(before.keyed(key)),
        jobs_match_the_state(before.commanded(command)),
        jobs_match_the_state(before.applied(report)),
        jobs_match_the_state(before.with_preview_requested()),
        jobs_match_the_state(before.without_preview()),
{
    lemma_commands_stay_in_step(before, command);
    lemma_commands_stay_in_step(before, Command::Quit);
    if let Some(meant) = key_command(key) {
        lemma_commands_stay_in_step(before, meant);
    }
    if let ModeView::OpenWith(prompt) = before.state.mode {
        lemma_picker_keys_stay_in_step(before, prompt, key);
    }
    assert(jobs_match_the_state(before.keyed(key)));
    lemma_reports_stay_in_step(before, report);
}

proof fn lemma_reports_stay_in_step(before: LoopView, report: Report)
    requires
        jobs_match_the_state(before),
    ensures
        jobs_match_the_state(before.applied(report)),
{
}

/// Whatever is shown once the preview was seen to belongs to the highlighted file; for a
/// directory or an empty listing nothing is kept.
pub proof fn preview_belongs_to_the_highlight(before: LoopView)
    ensures
        match before.state.highlighted_file() {
            Some(path) => before.with_preview_requested().state.previews(path),
            None => before.with_preview_requested().state.preview == PreviewView::Idle,
        },
{
}

/// A new directory is shown from the top, with nothing left of the old one but its listing in
/// the parent pane.
pub proof fn entering_starts_afresh(before: LoopView, dir: Seq<u8>)
    requires
        before.state.way_down() == Some(dir),
    ensures
        ({
            let after = before.commanded(Command::EnterDirectory).state;
            &&& after.current_dir == dir
            &&& after.entries.len() == 0
            &&& after.selected == 0
            &&& after.parent_entries == before.state.entries
            &&& after.preview == PreviewView::Idle
            &&& after.recursive_file_count is None
        }),
{
}

/// The picker runs something only by launching the highlighted row, and is closed by then.
pub proof fn launching_closes_the_picker(before: LoopView, prompt: PromptView, key: KeyEvent)
    requires
        before.state.mode == ModeView::OpenWith(prompt),
    ensures
        before.keyed_effect(key) != EffectView::Nothing ==> {
            &&& before.keyed(key).state.mode == ModeView::Browser
            &&& !before.keyed(key).ctl.open_with_job
            &&& picker_step(prompt, key).1 matches ActionView::Launch(spec)
            &&& prompt.confirmed() == Ok::<LaunchView, EditorError>(spec)
        },
{
}

/// Once the user has moved the highlight, nothing that a job reports moves it.
pub proof fn moved_highlight_is_kept(before: LoopView, command: Command, report: Report)
    requires
        command == Command::SelectNext || command == Command::SelectPrevious,
    ensures
        before.commanded(command).applied(report).state.selected == before.commanded(
            command,
        ).state.selected,
{
}

/// In a directory that was just changed to, the entry that was highlighted when it was last left
/// is highlighted again as soon as it arrives, and that is done once.
pub proof fn saved_highlight_returns_with_the_listing(
    before: LoopView,
    name: Seq<char>,
    batch: Vec<FileEntry>,
)
    requires
        before.state.restore_pending,
        before.state.saved_name() == Some(name),
        name_position(before.state.entries + entry_views(batch@), name) is Some,
    ensures
        ({
            let after = before.applied(
                Report::ScanBatch(before.state.scan_generation, batch),
            ).state;
            &&& after.highlighted() matches Some(entry) && entry.name == name
            &&& !after.restore_pending
        }),
{
    name_position_is_the_first(before.state.entries + entry_views(batch@), name);
}

/// Whatever a turn of the loop brings, the jobs and the state stay in step.
pub proof fn turns_keep_the_jobs_in_step<E>(before: LoopView, event: TurnEvent<E>)
    requires
        jobs_match_the_state(before),
    ensures
        jobs_match_the_state(before.turned(event)),
{
    match event {
        TurnEvent::Input(Ok(AppEvent::Input(TermEvent::Key(key)))) => {
            jobs_stay_in_step(before, key, Command::Quit, arbitrary());
            jobs_stay_in_step(before.keyed(key), key, Command::Quit, arbitrary());
        },
        TurnEvent::Reported(report) => {
            lemma_reports_stay_in_step(before, report);
            jobs_stay_in_step(before.applied(report), arbitrary(), Command::Quit, report);
        },
        _ => {},
    }
}

} // verus!
