//! Central application state and the decisions of the main loop.
//!
//! Every background job reports through one channel of [`jobs::Report`]s, and
//! every key arrives as a [`KeyEvent`]. The functions here decide what either
//! does to the state, and which jobs are started or cancelled; the program
//! carries that out.

pub mod command;
pub mod control;
pub mod editor;
pub mod history;
pub mod jobs;
pub mod laws;
pub mod message;
pub mod navigation;
pub mod open_with;
pub mod path_listing;
pub mod state;
pub mod turn;

pub use control::LoopCtl;
pub use state::AppState;

use vstd::prelude::*;

use crate::event::KeyEvent;
use crate::path::{same_place, FilePath};
use crate::preview::{FilePreview, PreviewView};
use crate::text::{push_signed_numeral, signed_numeral};
use crate::ui::layout::{pane, split_panes, Rect};
use crate::ui::panes::preview::{page_of, page_size, scroll_limit, scroll_limit_of};
use command::{command_for_key, key_command, Command};
use control::CtlView;
use editor::{launch_from, launch_spec_from_env, opt_str, EditorLaunch, LaunchView};
use jobs::Report;
use message::{update, Message};
use navigation::{enter_selected, open_parent, usable_parent_of, PlanView};
use open_with::{
    handle_key, picker_step, ActionView, InteractionMode, ModeView, OpenWithAction,
    OpenWithPrompt, PromptView,
};
use state::{next_generation, StateView};

verus! {

/// What a key asks for that takes over the terminal.
#[derive(Debug, PartialEq, Eq)]
pub enum LoopEffect {
    Nothing,
    /// Open the file in the editor that the environment calls for.
    OpenEditor(FilePath),
    RunExternal { spec: EditorLaunch, report_nonzero: bool },
}

/// What a [`LoopEffect`] asks for.
#[verifier::ext_equal]
pub enum EffectView {
    Nothing,
    OpenEditor(Seq<u8>),
    RunExternal { spec: LaunchView, report_nonzero: bool },
}

impl View for LoopEffect {
    type V = EffectView;

    open spec fn view(&self) -> EffectView {
        match *self {
            LoopEffect::Nothing => EffectView::Nothing,
            LoopEffect::OpenEditor(path) => EffectView::OpenEditor(path@),
            LoopEffect::RunExternal { spec, report_nonzero } => EffectView::RunExternal {
                spec: spec@,
                report_nonzero,
            },
        }
    }
}

impl Clone for LoopEffect {
    fn clone(&self) -> (r: LoopEffect)
        ensures
            r@ == self@,
    {
        match self {
            LoopEffect::Nothing => LoopEffect::Nothing,
            LoopEffect::OpenEditor(path) => LoopEffect::OpenEditor(path.clone()),
            LoopEffect::RunExternal { spec, report_nonzero } => LoopEffect::RunExternal {
                spec: spec.clone(),
                report_nonzero: *report_nonzero,
            },
        }
    }
}

/// The whole of what the loop decides about.
#[verifier::ext_equal]
pub struct LoopView {
    pub state: StateView,
    pub ctl: CtlView,
}

impl StateView {
    /// The path of the highlighted entry, if it is a file.
    pub open spec fn highlighted_file(self) -> Option<Seq<u8>> {
        match self.highlighted() {
            Some(entry) => if entry.is_dir {
                None
            } else {
                Some(entry.path)
            },
            None => None,
        }
    }

    /// Whether the preview, loaded or not, is that of a file.
    pub open spec fn previews(self, path: Seq<u8>) -> bool {
        self.preview.path() matches Some(of) && same_place(of, path)
    }

    /// The preview pane, going by the last drawn size of the terminal.
    pub open spec fn preview_area(self) -> Rect {
        pane(Rect { x: 0, y: 0, width: self.frame_width, height: self.frame_height }, 2)
    }

    /// Opening the highlighted file in an editor.
    pub open spec fn editor_effect(self) -> EffectView {
        match self.highlighted_file() {
            Some(path) => EffectView::OpenEditor(path),
            None => EffectView::Nothing,
        }
    }
}

impl LoopView {
    /// The preview is that of the highlighted file: a missing one is asked for, and one that
    /// nothing calls for is dropped.
    pub open spec fn with_preview_requested(self) -> LoopView {
        match self.state.highlighted_file() {
            None => self.without_preview(),
            Some(path) => if self.state.previews(path) {
                self
            } else {
                LoopView {
                    state: StateView {
                        preview: PreviewView::Loading(path),
                        preview_scroll: 0,
                        ..self.state
                    },
                    ctl: self.ctl.with_preview(path),
                }
            },
        }
    }

    /// Nothing cached and nothing read for the preview pane.
    pub open spec fn without_preview(self) -> LoopView {
        LoopView {
            state: self.state.without_preview(),
            ctl: self.ctl.without_preview(),
        }
    }

    /// The scans of a plan start.
    pub open spec fn with_plan(self, plan: PlanView) -> LoopView {
        LoopView {
            state: self.state.with_plan(plan),
            ctl: self.ctl.with_plan(plan, self.state.scan_generation),
        }
    }

    /// A report is applied if it is live, and changes nothing if it is late.
    pub open spec fn applied(self, report: Report) -> LoopView {
        match report {
            Report::ScanBatch(generation, batch) => if generation == self.state.scan_generation {
                let listed = self.state.updated(Message::ScanBatch(batch));
                LoopView { state: listed.with_highlight_restored(), ..self }
            } else {
                self
            },
            Report::ScanFinished(generation) => if generation == self.state.scan_generation {
                LoopView { state: self.state.updated(Message::ScanFinished), ..self }
            } else {
                self
            },
            Report::ParentScanBatch(generation, batch) => if generation
                == self.state.scan_generation {
                LoopView { state: self.state.updated(Message::ParentScanBatch(batch)), ..self }
            } else {
                self
            },
            Report::ParentScanFinished(generation) => if generation
                == self.state.scan_generation {
                LoopView { state: self.state.updated(Message::ParentScanFinished), ..self }
            } else {
                self
            },
            Report::RecursiveCountFinished(generation, count) => if generation
                == self.state.count_generation {
                LoopView {
                    state: self.state.updated(Message::RecursiveCountFinished(count)),
                    ctl: CtlView { active_job: false, ..self.ctl },
                }
            } else {
                self
            },
            Report::PreviewReady(path, payload) => if self.state.previews(path@) {
                LoopView {
                    state: StateView { preview: payload@.preview_of(path@), ..self.state },
                    ctl: CtlView { preview_job: false, ..self.ctl },
                }
            } else {
                self
            },
            Report::ProgramsListed(generation, names) => match self.state.mode {
                ModeView::OpenWith(prompt) => if prompt.generation == generation {
                    LoopView {
                        state: StateView {
                            mode: ModeView::OpenWith(
                                prompt.with_candidates(crate::compact::names_of(names@)),
                            ),
                            ..self.state
                        },
                        ..self
                    }
                } else {
                    self
                },
                ModeView::Browser => self,
            },
        }
    }

    /// The highlighted directory is entered, if there is one.
    pub open spec fn with_directory_entered(self) -> LoopView {
        match self.state.way_down() {
            Some(dir) => LoopView { state: self.state.entered(dir), ..self }.with_plan(
                PlanView { current: Some(dir), parent: None },
            ),
            None => self,
        }
    }

    /// The parent directory is shown, if there is one.
    pub open spec fn with_parent_opened(self) -> LoopView {
        match usable_parent_of(self.state.current_dir) {
            Some(parent) => LoopView { state: self.state.climbed(parent), ..self }.with_plan(
                self.state.climbing_plan(parent),
            ),
            None => self,
        }
    }

    /// The picker is open for the highlighted file, if it is one.
    pub open spec fn with_picker_opened(self) -> LoopView {
        match self.state.highlighted_file() {
            Some(path) => {
                let generation = next_generation(self.state.open_with_generation);
                LoopView {
                    state: StateView {
                        open_with_generation: generation,
                        mode: ModeView::OpenWith(PromptView::fresh(path, generation)),
                        ..self.state
                    },
                    ctl: self.ctl.with_listing(generation),
                }
            },
            None => self,
        }
    }

    /// The picker is closed, and nothing is listed for it any more.
    pub open spec fn with_picker_closed(self) -> LoopView {
        LoopView {
            state: StateView { mode: ModeView::Browser, notice: None, ..self.state },
            ctl: self.ctl.without_listing(),
        }
    }

    /// What a command does, once the old notice is gone.
    pub open spec fn obeyed(self, command: Command) -> LoopView {
        let s = self.state;
        match command {
            Command::Quit => LoopView { state: StateView { should_quit: true, ..s }, ..self },
            Command::RecountRecursive => if s.is_counting_recursively {
                self
            } else {
                let generation = next_generation(s.count_generation);
                LoopView {
                    state: StateView {
                        is_counting_recursively: true,
                        count_generation: generation,
                        ..s
                    },
                    ctl: self.ctl.with_count(s.current_dir, generation),
                }
            },
            Command::Cancel => LoopView {
                state: StateView {
                    is_counting_recursively: false,
                    count_generation: if self.ctl.active_job {
                        next_generation(s.count_generation)
                    } else {
                        s.count_generation
                    },
                    ..s
                },
                ctl: self.ctl.without_count(),
            },
            Command::SelectPrevious => {
                let selected = match s.highlight() {
                    Some(i) => if i == 0 {
                        0
                    } else {
                        (i - 1) as nat
                    },
                    None => 0,
                };
                LoopView {
                    state: StateView { selected, restore_pending: false, ..s },
                    ..self
                }
            },
            Command::SelectNext => {
                let selected = match s.highlight() {
                    Some(i) => if i + 1 < s.entries.len() {
                        i + 1
                    } else {
                        s.selected
                    },
                    None => s.selected,
                };
                LoopView {
                    state: StateView { selected, restore_pending: false, ..s },
                    ..self
                }
            },
            Command::EnterDirectory => self.with_directory_entered(),
            Command::Activate => self.with_directory_entered(),
            Command::OpenInEditor => self,
            Command::OpenWith => self.with_picker_opened(),
            Command::OpenParent => self.with_parent_opened(),
            Command::PreviewPageUp => LoopView {
                state: s.scrolled(
                    -page_of(s.preview_area()),
                    scroll_limit_of(s, s.preview_area()),
                ),
                ..self
            },
            Command::PreviewPageDown => LoopView {
                state: s.scrolled(
                    page_of(s.preview_area()) as int,
                    scroll_limit_of(s, s.preview_area()),
                ),
                ..self
            },
        }
    }

    /// The loop after a command. Every command clears the notice.
    pub open spec fn commanded(self, command: Command) -> LoopView {
        LoopView { state: StateView { notice: None, ..self.state }, ..self }.obeyed(command)
    }

    /// What a command asks for that takes over the terminal.
    pub open spec fn command_effect(self, command: Command) -> EffectView {
        match command {
            Command::Activate => if self.state.way_down() is Some {
                EffectView::Nothing
            } else {
                self.state.editor_effect()
            },
            Command::OpenInEditor => self.state.editor_effect(),
            _ => EffectView::Nothing,
        }
    }

    /// The loop after a key in the open picker.
    pub open spec fn picked(self, prompt: PromptView, key: KeyEvent) -> LoopView {
        let (after, action) = picker_step(prompt, key);
        let s = StateView { mode: ModeView::OpenWith(after), ..self.state };
        match action {
            ActionView::Nothing => LoopView { state: StateView { notice: None, ..s }, ..self },
            ActionView::Notice(message) => LoopView {
                state: StateView { notice: Some(message), ..s },
                ..self
            },
            ActionView::Close => self.with_picker_closed(),
            ActionView::Launch(_) => self.with_picker_closed(),
        }
    }

    /// What a key in the open picker asks for that takes over the terminal.
    pub open spec fn picked_effect(self, prompt: PromptView, key: KeyEvent) -> EffectView {
        match picker_step(prompt, key).1 {
            ActionView::Launch(spec) => EffectView::RunExternal { spec, report_nonzero: true },
            _ => EffectView::Nothing,
        }
    }

    /// Whether a key is the emergency exit: the quit key with Control held, which works in the
    /// picker too.
    pub open spec fn is_emergency_exit(key: KeyEvent) -> bool {
        key_command(key) == Some(Command::Quit) && key.modifiers.control
    }

    /// The loop after a key.
    pub open spec fn keyed(self, key: KeyEvent) -> LoopView {
        if LoopView::is_emergency_exit(key) {
            self.commanded(Command::Quit)
        } else {
            match self.state.mode {
                ModeView::OpenWith(prompt) => self.picked(prompt, key),
                ModeView::Browser => match key_command(key) {
                    Some(command) => self.commanded(command),
                    None => self,
                },
            }
        }
    }

    /// What a key asks for that takes over the terminal.
    pub open spec fn keyed_effect(self, key: KeyEvent) -> EffectView {
        if LoopView::is_emergency_exit(key) {
            EffectView::Nothing
        } else {
            match self.state.mode {
                ModeView::OpenWith(prompt) => self.picked_effect(prompt, key),
                ModeView::Browser => match key_command(key) {
                    Some(command) => self.command_effect(command),
                    None => EffectView::Nothing,
                },
            }
        }
    }
}

/// The state and the jobs together.
pub open spec fn loop_of(state: StateView, ctl: CtlView) -> LoopView {
    LoopView { state, ctl }
}

/// Starts a preview read when the highlighted file is not cached already. Directories and empty
/// listings end any live read.
pub fn request_preview_if_needed(state: &mut AppState, ctl: &mut LoopCtl)
    ensures
        loop_of(final(state)@, final(ctl)@) == loop_of(
            old(state)@,
            old(ctl)@,
        ).with_preview_requested(),
{
    let wanted: Option<FilePath> = match state.selected_entry() {
        Some(entry) => if entry.is_dir {
            None
        } else {
            Some(entry.path.clone())
        },
        None => None,
    };
    match wanted {
        None => invalidate_cached_preview(state, ctl),
        Some(path) => {
            let cached: bool = match state.preview.path() {
                Some(of) => of.same_place(&path),
                None => false,
            };
            if !cached {
                state.preview = FilePreview::Loading(path.clone());
                state.preview_scroll = 0;
                ctl.start_preview(path);
            }
        },
    }
}

/// Drops the cached preview, and the read of it.
pub fn invalidate_cached_preview(state: &mut AppState, ctl: &mut LoopCtl)
    ensures
        loop_of(final(state)@, final(ctl)@) == loop_of(old(state)@, old(ctl)@).without_preview(),
{
    ctl.cancel_preview();
    state.preview = FilePreview::Idle;
    state.preview_scroll = 0;
}

/// Applies one report of a background job, then sees to the preview. A report of a job that was
/// replaced or cancelled since changes neither the state nor what is known of the live job.
pub fn handle_message(state: &mut AppState, ctl: &mut LoopCtl, report: Report)
    ensures
        loop_of(final(state)@, final(ctl)@) == loop_of(old(state)@, old(ctl)@).applied(
            report,
        ).with_preview_requested(),
{
    apply_report(state, ctl, report);
    request_preview_if_needed(state, ctl);
}

/// Applies one report of a background job, unless it is late.
fn apply_report(state: &mut AppState, ctl: &mut LoopCtl, report: Report)
    ensures
        loop_of(final(state)@, final(ctl)@) == loop_of(old(state)@, old(ctl)@).applied(report),
{
    match report {
        Report::ScanBatch(generation, batch) => {
            if generation == state.scan_generation {
                update(state, Message::ScanBatch(batch));
                state.restore_highlight();
            }
        },
        Report::ScanFinished(generation) => {
            if generation == state.scan_generation {
                update(state, Message::ScanFinished);
            }
        },
        Report::ParentScanBatch(generation, batch) => {
            if generation == state.scan_generation {
                update(state, Message::ParentScanBatch(batch));
            }
        },
        Report::ParentScanFinished(generation) => {
            if generation == state.scan_generation {
                update(state, Message::ParentScanFinished);
            }
        },
        Report::RecursiveCountFinished(generation, count) => {
            if generation == state.count_generation {
                ctl.active_job = false;
                update(state, Message::RecursiveCountFinished(count));
            }
        },
        Report::PreviewReady(path, payload) => {
            let live: bool = match state.preview.path() {
                Some(of) => of.same_place(&path),
                None => false,
            };
            if live {
                ctl.preview_job = false;
                state.preview = payload.into_preview(path);
            }
        },
        Report::ProgramsListed(generation, names) => {
            if let InteractionMode::OpenWith(prompt) = &mut state.mode {
                if prompt.generation == generation {
                    prompt.set_candidates(names);
                }
            }
        },
    }
}

/// A page of the preview, and how far it scrolls.
pub fn preview_scroll_metrics(state: &AppState) -> (r: (i32, u16))
    ensures
        r.0 == page_of(state@.preview_area()),
        r.1 == scroll_limit_of(state@, state@.preview_area()),
{
    let screen = Rect::new(0, 0, state.frame_width, state.frame_height);
    let area = split_panes(screen)[2];
    let limit: u16 = scroll_limit(state, area);
    let page: i32 = page_size(area) as i32;
    (page, limit)
}

/// Opens the highlighted file in an editor; directories and empty listings open nothing.
pub fn open_selected_file(state: &AppState) -> (r: LoopEffect)
    ensures
        r@ == state@.editor_effect(),
{
    match state.selected_entry() {
        Some(entry) => if entry.is_dir {
            LoopEffect::Nothing
        } else {
            LoopEffect::OpenEditor(entry.path.clone())
        },
        None => LoopEffect::Nothing,
    }
}

/// Opens the picker for the highlighted file, and has the search path listed for it.
pub fn begin_open_with(state: &mut AppState, ctl: &mut LoopCtl)
    ensures
        loop_of(final(state)@, final(ctl)@) == loop_of(
            old(state)@,
            old(ctl)@,
        ).with_picker_opened(),
{
    let path: FilePath = match state.selected_entry() {
        Some(entry) => {
            if entry.is_dir {
                return ;
            }
            entry.path.clone()
        },
        None => {
            return ;
        },
    };
    state.open_with_generation = state.open_with_generation.wrapping_add(1);
    let generation: u64 = state.open_with_generation;
    state.mode = InteractionMode::OpenWith(OpenWithPrompt::new(path, generation));
    ctl.start_open_with_listing(generation);
}

/// Carries out a command.
pub fn run_command(command: Command, state: &mut AppState, ctl: &mut LoopCtl) -> (r: LoopEffect)
    ensures
        loop_of(final(state)@, final(ctl)@) == loop_of(old(state)@, old(ctl)@).commanded(command),
        r@ == loop_of(old(state)@, old(ctl)@).command_effect(command),
{
    state.notice = None;
    match command {
        Command::Quit => {
            state.should_quit = true;
        },
        Command::RecountRecursive => {
            if !state.is_counting_recursively {
                state.is_counting_recursively = true;
                state.count_generation = state.count_generation.wrapping_add(1);
                ctl.start_count(state.current_dir.clone(), state.count_generation);
            }
        },
        Command::Cancel => {
            if ctl.active_job {
                ctl.cancel_count();
                state.count_generation = state.count_generation.wrapping_add(1);
            }
            state.is_counting_recursively = false;
        },
        Command::SelectPrevious => {
            let above: usize = match state.selected_index() {
                Some(i) => if i == 0 {
                    0
                } else {
                    i - 1
                },
                None => 0,
            };
            state.selected = above;
            state.restore_pending = false;
        },
        Command::SelectNext => {
            if let Some(i) = state.selected_index() {
                if i + 1 < state.entries.len() {
                    state.selected = i + 1;
                }
            }
            state.restore_pending = false;
        },
        Command::EnterDirectory => {
            if let Some(plan) = enter_selected(state) {
                ctl.apply_scan_plan(state, plan);
            }
        },
        Command::Activate => {
            match enter_selected(state) {
                Some(plan) => ctl.apply_scan_plan(state, plan),
                None => {
                    return open_selected_file(state);
                },
            }
        },
        Command::OpenInEditor => {
            return open_selected_file(state);
        },
        Command::OpenWith => {
            begin_open_with(state, ctl);
        },
        Command::OpenParent => {
            if let Some(plan) = open_parent(state) {
                ctl.apply_scan_plan(state, plan);
            }
        },
        Command::PreviewPageUp => {
            let (page, limit) = preview_scroll_metrics(state);
            state.scroll_preview(-page, limit);
        },
        Command::PreviewPageDown => {
            let (page, limit) = preview_scroll_metrics(state);
            state.scroll_preview(page, limit);
        },
    }
    LoopEffect::Nothing
}

/// Carries out a key of the open picker; without a picker nothing happens.
pub fn apply_open_with_key(
    key: KeyEvent,
    state: &mut AppState,
    ctl: &mut LoopCtl,
) -> (r: LoopEffect)
    ensures
        loop_of(final(state)@, final(ctl)@) == (match old(state)@.mode {
            ModeView::OpenWith(prompt) => loop_of(old(state)@, old(ctl)@).picked(prompt, key),
            ModeView::Browser => loop_of(old(state)@, old(ctl)@),
        }),
        r@ == (match old(state)@.mode {
            ModeView::OpenWith(prompt) => loop_of(old(state)@, old(ctl)@).picked_effect(
                prompt,
                key,
            ),
            ModeView::Browser => EffectView::Nothing,
        }),
{
    let action: OpenWithAction = match &mut state.mode {
        InteractionMode::OpenWith(prompt) => handle_key(prompt, key),
        InteractionMode::Browser => {
            return LoopEffect::Nothing;
        },
    };
    match action {
        OpenWithAction::Nothing => {
            state.notice = None;
            LoopEffect::Nothing
        },
        OpenWithAction::Close => {
            ctl.cancel_open_with_listing();
            state.mode = InteractionMode::Browser;
            state.notice = None;
            LoopEffect::Nothing
        },
        OpenWithAction::Notice(message) => {
            state.notice = Some(message);
            LoopEffect::Nothing
        },
        OpenWithAction::Launch(spec) => {
            ctl.cancel_open_with_listing();
            state.mode = InteractionMode::Browser;
            state.notice = None;
            LoopEffect::RunExternal { spec, report_nonzero: true }
        },
    }
}

/// Carries out a key.
///
/// Control and `c` quit even with the picker open. A bare `q` is typed into the picker; it quits
/// only from the file list.
pub fn dispatch_key(key: KeyEvent, state: &mut AppState, ctl: &mut LoopCtl) -> (r: LoopEffect)
    ensures
        loop_of(final(state)@, final(ctl)@) == loop_of(old(state)@, old(ctl)@).keyed(key),
        r@ == loop_of(old(state)@, old(ctl)@).keyed_effect(key),
{
    let command: Option<Command> = command_for_key(key);
    if command == Some(Command::Quit) && key.modifiers.control {
        return run_command(Command::Quit, state, ctl);
    }
    let picking: bool = match &state.mode {
        InteractionMode::OpenWith(_) => true,
        InteractionMode::Browser => false,
    };
    if picking {
        return apply_open_with_key(key, state, ctl);
    }
    match command {
        Some(command) => run_command(command, state, ctl),
        None => LoopEffect::Nothing,
    }
}

/// The launch of the editor that the environment calls for. Where there is none, the notice says
/// why.
pub fn resolve_editor_spec(
    state: &mut AppState,
    path: &FilePath,
    editor: Option<&str>,
    visual: Option<&str>,
    fallback: Option<&str>,
) -> (r: Option<EditorLaunch>)
    ensures
        match launch_from(opt_str(editor), opt_str(visual), opt_str(fallback), path@) {
            Ok(launch) => final(state)@ == old(state)@ && opt_launch(r) == Some(launch),
            Err(error) => final(state)@ == (StateView {
                notice: Some(error.message()),
                ..old(state)@
            }) && r is None,
        },
{
    match launch_spec_from_env(path, editor, visual, fallback) {
        Ok(spec) => Some(spec),
        Err(error) => {
            state.notice = Some(error.to_string());
            None
        },
    }
}

/// What an optional launch runs.
pub open spec fn opt_launch(launch: Option<EditorLaunch>) -> Option<LaunchView> {
    match launch {
        Some(l) => Some(l@),
        None => None,
    }
}

/// How handing the terminal to a program went. Failures come with their message.
#[derive(Debug, PartialEq, Eq)]
pub enum ExternalOutcome {
    /// The terminal could not be given away; nothing was run.
    SuspendFailed(String),
    /// The terminal could not be taken back; `started` tells whether the program had started.
    ResumeFailed { message: String, started: bool },
    /// The program could not be run.
    LaunchFailed(String),
    /// The task that waited for the program failed.
    TaskFailed(String),
    /// The program ended, with an exit code unless a signal ended it.
    Ended { success: bool, code: Option<i32> },
}

/// How it went, once the terminal was given away: `resumed` is how taking it back went, and
/// `status` how the task that ran the program did, how its launch did, and how the program ended.
/// A terminal that could not be taken back is told before anything else.
pub fn external_outcome(
    resumed: Result<(), String>,
    status: Result<Result<(bool, Option<i32>), String>, String>,
) -> (r: ExternalOutcome)
    ensures
        r == (match (resumed, status) {
            (Err(message), status) => ExternalOutcome::ResumeFailed {
                message,
                started: !(status matches Ok(launched) && launched is Err),
            },
            (Ok(_), Err(message)) => ExternalOutcome::TaskFailed(message),
            (Ok(_), Ok(Err(message))) => ExternalOutcome::LaunchFailed(message),
            (Ok(_), Ok(Ok((success, code)))) => ExternalOutcome::Ended { success, code },
        }),
{
    match resumed {
        Err(message) => {
            let started: bool = match &status {
                Ok(Err(_)) => false,
                _ => true,
            };
            ExternalOutcome::ResumeFailed { message, started }
        },
        Ok(_) => match status {
            Err(message) => ExternalOutcome::TaskFailed(message),
            Ok(Err(message)) => ExternalOutcome::LaunchFailed(message),
            Ok(Ok((success, code))) => ExternalOutcome::Ended { success, code },
        },
    }
}

/// The notice that the outcome calls for.
pub open spec fn outcome_notice(
    program: Seq<char>,
    report_nonzero: bool,
    outcome: ExternalOutcome,
) -> Option<Seq<char>> {
    match outcome {
        ExternalOutcome::SuspendFailed(message) => Some(message@),
        ExternalOutcome::ResumeFailed { message, .. } => Some(message@),
        ExternalOutcome::LaunchFailed(message) => Some(message@),
        ExternalOutcome::TaskFailed(message) => Some("editor task failed: "@ + message@),
        ExternalOutcome::Ended { success, code } => if success || !report_nonzero {
            None
        } else {
            Some(
                match code {
                    Some(code) => program + " exited with status "@ + signed_numeral(code as int),
                    None => program + " was terminated by a signal"@,
                },
            )
        },
    }
}

/// Whether the program was started. Where the task that waited for it failed this is not known,
/// and it counts as started.
pub open spec fn was_started(outcome: ExternalOutcome) -> bool {
    match outcome {
        ExternalOutcome::SuspendFailed(_) => false,
        ExternalOutcome::ResumeFailed { started, .. } => started,
        ExternalOutcome::LaunchFailed(_) => false,
        ExternalOutcome::TaskFailed(_) => true,
        ExternalOutcome::Ended { .. } => true,
    }
}

/// Takes down how running a program went: the notice, where there is something to say. Tells
/// whether the program was started, so that the preview of a file which it may have changed is
/// read again. Where the task that waited for it failed this is not known, and it counts as
/// started.
pub fn report_external(
    state: &mut AppState,
    program: &str,
    report_nonzero: bool,
    outcome: ExternalOutcome,
) -> (r: bool)
    ensures
        final(state)@ == (match outcome_notice(program@, report_nonzero, outcome) {
            Some(message) => StateView { notice: Some(message), ..old(state)@ },
            None => old(state)@,
        }),
        r == was_started(outcome),
{
    match outcome {
        ExternalOutcome::SuspendFailed(message) => {
            state.notice = Some(message);
            false
        },
        ExternalOutcome::ResumeFailed { message, started } => {
            state.notice = Some(message);
            started
        },
        ExternalOutcome::LaunchFailed(message) => {
            state.notice = Some(message);
            false
        },
        ExternalOutcome::TaskFailed(message) => {
            let mut notice: String = "editor task failed: ".to_owned();
            notice.append(message.as_str());
            state.notice = Some(notice);
            true
        },
        ExternalOutcome::Ended { success, code } => {
            if report_nonzero && !success {
                let mut notice: String = program.to_owned();
                match code {
                    Some(code) => {
                        notice.append(" exited with status ");
                        push_signed_numeral(&mut notice, code);
                    },
                    None => {
                        notice.append(" was terminated by a signal");
                    },
                }
                state.notice = Some(notice);
            }
            true
        },
    }
}

/// Sees to the preview once a key was carried out, and whatever it started is over: a program
/// that ran may have changed the file.
pub fn finish_key(state: &mut AppState, ctl: &mut LoopCtl, ran: bool)
    ensures
        loop_of(final(state)@, final(ctl)@) == (if ran {
            loop_of(old(state)@, old(ctl)@).without_preview()
        } else {
            loop_of(old(state)@, old(ctl)@)
        }).with_preview_requested(),
{
    if ran {
        invalidate_cached_preview(state, ctl);
    }
    request_preview_if_needed(state, ctl);
}

} // verus!
