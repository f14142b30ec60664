//! What the task that reads the terminal hands to the main loop.

use vstd::prelude::*;

use super::{AppEvent, TermEvent};

verus! {

/// The pause between two ticks, in milliseconds.
pub const TICK_MILLIS: u64 = 16;

/// What an [`AppEvent`] tells the main loop.
pub enum AppEventView {
    Input(TermEvent),
    Tick,
    Error(Seq<char>),
}

impl View for AppEvent {
    type V = AppEventView;

    open spec fn view(&self) -> AppEventView {
        match self {
            AppEvent::Input(event) => AppEventView::Input(*event),
            AppEvent::Tick => AppEventView::Tick,
            AppEvent::Error(message) => AppEventView::Error(message@),
        }
    }
}

impl Clone for AppEvent {
    fn clone(&self) -> (r: AppEvent)
        ensures
            r@ == self@,
    {
        match self {
            AppEvent::Input(event) => AppEvent::Input(*event),
            AppEvent::Tick => AppEvent::Tick,
            AppEvent::Error(message) => AppEvent::Error(message.clone()),
        }
    }
}

/// What the reading task does with one step of its wait: the event to forward, and whether the
/// task ends after it.
#[derive(Debug, PartialEq, Eq)]
pub struct Forward {
    pub event: AppEvent,
    pub last: bool,
}

/// One step of the wait: the tick came first, or the input did. `None` is an input stream that
/// has closed.
#[derive(Debug, PartialEq, Eq)]
pub enum Arrival {
    Tick,
    Input(Option<Result<TermEvent, String>>),
}

/// Ticks and input are passed on as they come, a read error as its message. A closed input stream
/// is reported once and ends the task.
pub fn forward(arrival: Arrival) -> (r: Forward)
    ensures
        r.event@ == (match arrival {
            Arrival::Tick => AppEventView::Tick,
            Arrival::Input(Some(Ok(event))) => AppEventView::Input(event),
            Arrival::Input(Some(Err(message))) => AppEventView::Error(message@),
            Arrival::Input(None) => AppEventView::Error("terminal input stream closed"@),
        }),
        r.last == (arrival matches Arrival::Input(None)),
{
    match arrival {
        Arrival::Tick => Forward { event: AppEvent::Tick, last: false },
        Arrival::Input(Some(Ok(event))) => Forward { event: AppEvent::Input(event), last: false },
        Arrival::Input(Some(Err(message))) => Forward {
            event: AppEvent::Error(message),
            last: false,
        },
        Arrival::Input(None) => Forward {
            event: AppEvent::Error("terminal input stream closed".to_owned()),
            last: true,
        },
    }
}

} // verus!
