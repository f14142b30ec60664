//! The turns of the main loop: draw a frame, wait for the terminal or for a
//! job, and go on until the state says to quit or something fails.

use vstd::prelude::*;

use super::control::LoopCtl;
use super::jobs::{JobActionView, Report};
use super::state::{AppState, StateView};
use super::{
    dispatch_key, finish_key, handle_message, loop_of, EffectView, LoopEffect, LoopView,
};
use crate::event::{AppEvent, TermEvent};

verus! {

/// What the loop has come to. Failures carry the program's own error.
#[derive(Debug)]
pub enum TurnEvent<E> {
    /// A turn begins; the size of the terminal, where it could be read.
    Begin { size: Option<(u16, u16)> },
    /// The frame was drawn, or could not be.
    Drawn(Result<(), E>),
    /// The terminal was heard from, or its events have ended.
    Input(Result<AppEvent, E>),
    /// A job reported.
    Reported(Report),
}

/// What the loop does next.
#[derive(Debug)]
pub enum TurnAction<E> {
    /// Draw a frame.
    Draw,
    /// Wait for the terminal or for a job.
    Wait,
    /// Begin the next turn.
    Next,
    /// Hand the terminal to a program, see to the preview, and begin the next turn.
    Run(LoopEffect),
    /// End the loop, with this result.
    End(Result<(), E>),
}

/// What a [`TurnAction`] asks for.
#[verifier::ext_equal]
pub enum TurnView<E> {
    Draw,
    Wait,
    Next,
    Run(EffectView),
    End(Result<(), E>),
}

impl<E> View for TurnAction<E> {
    type V = TurnView<E>;

    open spec fn view(&self) -> TurnView<E> {
        match *self {
            TurnAction::Draw => TurnView::Draw,
            TurnAction::Wait => TurnView::Wait,
            TurnAction::Next => TurnView::Next,
            TurnAction::Run(effect) => TurnView::Run(effect@),
            TurnAction::End(result) => TurnView::End(result),
        }
    }
}

impl LoopView {
    /// The loop as it ends: whatever is still running is cancelled.
    pub open spec fn ended(self) -> LoopView {
        LoopView { ctl: self.ctl.with(JobActionView::CancelAll), ..self }
    }

    /// The loop with the size of the terminal taken down.
    pub open spec fn sized(self, size: Option<(u16, u16)>) -> LoopView {
        match size {
            Some((frame_width, frame_height)) => LoopView {
                state: StateView { frame_width, frame_height, ..self.state },
                ..self
            },
            None => self,
        }
    }

    /// The loop after an event.
    pub open spec fn turned<E>(self, event: TurnEvent<E>) -> LoopView {
        match event {
            TurnEvent::Begin { size } => if self.state.should_quit {
                self.ended()
            } else {
                self.sized(size)
            },
            TurnEvent::Drawn(Ok(_)) => self,
            TurnEvent::Drawn(Err(_)) => self.ended(),
            TurnEvent::Input(Ok(AppEvent::Input(TermEvent::Key(key)))) => if self.keyed_effect(key)
                == EffectView::Nothing {
                self.keyed(key).with_preview_requested()
            } else {
                self.keyed(key)
            },
            TurnEvent::Input(Ok(_)) => self,
            TurnEvent::Input(Err(_)) => self.ended(),
            TurnEvent::Reported(report) => self.applied(report).with_preview_requested(),
        }
    }

    /// What the loop does after an event.
    pub open spec fn turn_action<E>(self, event: TurnEvent<E>) -> TurnView<E> {
        match event {
            TurnEvent::Begin { .. } => if self.state.should_quit {
                TurnView::End(Ok(()))
            } else {
                TurnView::Draw
            },
            TurnEvent::Drawn(Ok(_)) => TurnView::Wait,
            TurnEvent::Drawn(Err(error)) => TurnView::End(Err(error)),
            TurnEvent::Input(Ok(AppEvent::Input(TermEvent::Key(key)))) => if self.keyed_effect(key)
                == EffectView::Nothing {
                TurnView::Next
            } else {
                TurnView::Run(self.keyed_effect(key))
            },
            TurnEvent::Input(Ok(_)) => TurnView::Next,
            TurnEvent::Input(Err(error)) => TurnView::End(Err(error)),
            TurnEvent::Reported(_) => TurnView::Next,
        }
    }
}

/// Takes one step of the main loop. Where a program is to be run, the preview is seen to by
/// [`finish_key`] once it is over.
pub fn turn<E>(state: &mut AppState, ctl: &mut LoopCtl, event: TurnEvent<E>) -> (r: TurnAction<E>)
    ensures
        loop_of(final(state)@, final(ctl)@) == loop_of(old(state)@, old(ctl)@).turned(event),
        r@ == loop_of(old(state)@, old(ctl)@).turn_action(event),
{
    match event {
        TurnEvent::Begin { size } => {
            if state.should_quit {
                ctl.cancel_all();
                return TurnAction::End(Ok(()));
            }
            if let Some((width, height)) = size {
                state.frame_width = width;
                state.frame_height = height;
            }
            TurnAction::Draw
        },
        TurnEvent::Drawn(drawn) => match drawn {
            Ok(_) => TurnAction::Wait,
            Err(error) => {
                ctl.cancel_all();
                TurnAction::End(Err(error))
            },
        },
        TurnEvent::Input(input) => match input {
            Ok(AppEvent::Input(TermEvent::Key(key))) => {
                let effect = dispatch_key(key, state, ctl);
                match effect {
                    LoopEffect::Nothing => {
                        finish_key(state, ctl, false);
                        TurnAction::Next
                    },
                    _ => TurnAction::Run(effect),
                }
            },
            Ok(_) => TurnAction::Next,
            Err(error) => {
                ctl.cancel_all();
                TurnAction::End(Err(error))
            },
        },
        TurnEvent::Reported(report) => {
            handle_message(state, ctl, report);
            TurnAction::Next
        },
    }
}

/// The loop ends if and only if the state says to quit at the start of a turn, or drawing or the
/// events of the terminal fail. It succeeds in the first case and hands the failure on in the
/// others, and it cancels every job as it ends.
pub proof fn loop_ends_on_quit_or_failure<E>(before: LoopView, event: TurnEvent<E>)
    ensures
        before.turn_action(event) is End == {
            ||| event is Begin && before.state.should_quit
            ||| event matches TurnEvent::Drawn(drawn) && drawn is Err
            ||| event matches TurnEvent::Input(input) && input is Err
        },
        before.turn_action(event) matches TurnView::End(result) ==> {
            &&& result is Ok == event is Begin
            &&& event matches TurnEvent::Drawn(drawn) ==> result == drawn
            &&& event matches TurnEvent::Input(input) ==> result->Err_0 == input->Err_0
            &&& before.turned(event).ctl.actions == before.ctl.actions.push(
                JobActionView::CancelAll,
            )
        },
{
}

} // verus!
