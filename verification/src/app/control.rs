//! Which background jobs are live, and what is to be done about them.

use vstd::prelude::*;

use super::jobs::{action_views, Job, JobAction, JobActionView};
use super::navigation::{PlanView, ScanPlan};
use super::state::{AppState, StateView};
use crate::path::FilePath;

verus! {

/// The live jobs, and the actions that the program has yet to carry out.
#[derive(Debug)]
pub struct LoopCtl {
    /// Whether a recursive count is live.
    pub active_job: bool,
    /// Whether a preview is being read.
    pub preview_job: bool,
    /// Whether the search path is being listed.
    pub open_with_job: bool,
    pub actions: Vec<JobAction>,
}

/// What a [`LoopCtl`] holds.
#[verifier::ext_equal]
pub struct CtlView {
    pub active_job: bool,
    pub preview_job: bool,
    pub open_with_job: bool,
    pub actions: Seq<JobActionView>,
}

impl View for LoopCtl {
    type V = CtlView;

    open spec fn view(&self) -> CtlView {
        CtlView {
            active_job: self.active_job,
            preview_job: self.preview_job,
            open_with_job: self.open_with_job,
            actions: action_views(self.actions@),
        }
    }
}

impl CtlView {
    /// One more action.
    pub open spec fn with(self, action: JobActionView) -> CtlView {
        CtlView { actions: self.actions.push(action), ..self }
    }

    /// No live recursive count.
    pub open spec fn without_count(self) -> CtlView {
        if self.active_job {
            CtlView { active_job: false, ..self.with(JobActionView::Cancel(Job::Count)) }
        } else {
            self
        }
    }

    /// No live preview.
    pub open spec fn without_preview(self) -> CtlView {
        if self.preview_job {
            CtlView { preview_job: false, ..self.with(JobActionView::Cancel(Job::Preview)) }
        } else {
            self
        }
    }

    /// No live listing of the search path.
    pub open spec fn without_listing(self) -> CtlView {
        if self.open_with_job {
            CtlView { open_with_job: false, ..self.with(JobActionView::Cancel(Job::Listing)) }
        } else {
            self
        }
    }

    /// A new recursive count.
    pub open spec fn with_count(self, path: Seq<u8>, generation: u64) -> CtlView {
        CtlView { active_job: true, ..self.with(JobActionView::Count { path, generation }) }
    }

    /// A new preview in place of the live one.
    pub open spec fn with_preview(self, path: Seq<u8>) -> CtlView {
        CtlView {
            preview_job: true,
            ..self.without_preview().with(JobActionView::LoadPreview { path })
        }
    }

    /// A new listing in place of the live one.
    pub open spec fn with_listing(self, generation: u64) -> CtlView {
        CtlView {
            open_with_job: true,
            ..self.without_listing().with(JobActionView::ListPrograms { generation })
        }
    }

    /// The scans of a plan in place of the live ones. A count and a preview of the old directory
    /// end with them.
    pub open spec fn with_plan(self, plan: PlanView, generation: u64) -> CtlView {
        let stopped = self.with(
            JobActionView::Cancel(Job::Scan),
        ).without_count().without_preview();
        let current = match plan.current {
            Some(path) => stopped.with(JobActionView::ScanCurrent { path, generation }),
            None => stopped,
        };
        match plan.parent {
            Some(path) => current.with(JobActionView::ScanParent { path, generation }),
            None => current,
        }
    }
}

impl StateView {
    /// The state in which the scans of a plan start: what they will list again is dropped.
    pub open spec fn with_plan(self, plan: PlanView) -> StateView {
        let current = if plan.current is Some {
            StateView {
                entries: Seq::empty(),
                current_listing_complete: false,
                current_scan_error: None,
                ..self
            }
        } else {
            self
        };
        if plan.parent is Some {
            StateView {
                parent_entries: Seq::empty(),
                parent_listing_complete: false,
                parent_scan_error: None,
                ..current
            }
        } else {
            current
        }
    }
}

impl LoopCtl {
    pub fn new() -> (r: LoopCtl)
        ensures
            r@ == (CtlView {
                active_job: false,
                preview_job: false,
                open_with_job: false,
                actions: Seq::empty(),
            }),
    {
        LoopCtl {
            active_job: false,
            preview_job: false,
            open_with_job: false,
            actions: Vec::new(),
        }
    }

    fn ask(&mut self, action: JobAction)
        ensures
            final(self)@ == old(self)@.with(action@),
    {
        self.actions.push(action);
        assert(self@.actions == old(self)@.actions.push(action@));
    }

    /// Hands over the actions to carry out.
    pub fn take_actions(&mut self) -> (r: Vec<JobAction>)
        ensures
            action_views(r@) == old(self)@.actions,
            final(self)@ == (CtlView { actions: Seq::empty(), ..old(self)@ }),
    {
        let mut taken: Vec<JobAction> = Vec::new();
        std::mem::swap(&mut taken, &mut self.actions);
        taken
    }

    /// Cancels whatever is still running.
    pub fn cancel_all(&mut self)
        ensures
            final(self)@ == old(self)@.with(JobActionView::CancelAll),
    {
        self.ask(JobAction::CancelAll);
    }

    /// Cancels the recursive count, if one is live.
    pub fn cancel_count(&mut self)
        ensures
            final(self)@ == old(self)@.without_count(),
    {
        if self.active_job {
            self.active_job = false;
            self.ask(JobAction::Cancel(Job::Count));
        }
    }

    pub fn cancel_preview(&mut self)
        ensures
            final(self)@ == old(self)@.without_preview(),
    {
        if self.preview_job {
            self.preview_job = false;
            self.ask(JobAction::Cancel(Job::Preview));
        }
    }

    pub fn cancel_open_with_listing(&mut self)
        ensures
            final(self)@ == old(self)@.without_listing(),
    {
        if self.open_with_job {
            self.open_with_job = false;
            self.ask(JobAction::Cancel(Job::Listing));
        }
    }

    pub fn start_count(&mut self, path: FilePath, generation: u64)
        ensures
            final(self)@ == old(self)@.with_count(path@, generation),
    {
        self.ask(JobAction::Count { path, generation });
        self.active_job = true;
    }

    pub fn start_preview(&mut self, path: FilePath)
        ensures
            final(self)@ == old(self)@.with_preview(path@),
    {
        self.cancel_preview();
        self.ask(JobAction::LoadPreview { path });
        self.preview_job = true;
    }

    pub fn start_open_with_listing(&mut self, generation: u64)
        ensures
            final(self)@ == old(self)@.with_listing(generation),
    {
        self.cancel_open_with_listing();
        self.ask(JobAction::ListPrograms { generation });
        self.open_with_job = true;
    }

    /// Cancels the live scans, and any recursive count and preview of the old directory, then
    /// starts whatever `plan` asks for.
    pub fn apply_scan_plan(&mut self, state: &mut AppState, plan: ScanPlan)
        ensures
            final(self)@ == old(self)@.with_plan(plan@, old(state)@.scan_generation),
            final(state)@ == old(state)@.with_plan(plan@),
    {
        self.ask(JobAction::Cancel(Job::Scan));
        self.cancel_count();
        self.cancel_preview();
        let generation: u64 = state.scan_generation;
        if let Some(path) = plan.current {
            state.entries.clear();
            state.current_listing_complete = false;
            state.current_scan_error = None;
            self.ask(JobAction::ScanCurrent { path, generation });
        }
        if let Some(path) = plan.parent {
            state.parent_entries.clear();
            state.parent_listing_complete = false;
            state.parent_scan_error = None;
            self.ask(JobAction::ScanParent { path, generation });
        }
    }
}

/// Starting new scans ends whatever was running for the old directory before anything new is
/// asked for.
pub proof fn new_scans_end_the_old_jobs(ctl: CtlView, plan: PlanView, generation: u64)
    ensures
        !ctl.with_plan(plan, generation).active_job,
        !ctl.with_plan(plan, generation).preview_job,
        ctl.with_plan(plan, generation).open_with_job == ctl.open_with_job,
        ctl.with_plan(plan, generation).actions.len() > ctl.actions.len(),
        ctl.with_plan(plan, generation).actions[ctl.actions.len() as int] == JobActionView::Cancel(
            Job::Scan,
        ),
{
}

} // verus!
