//! Giving the terminal back exactly once.

use vstd::prelude::*;

verus! {

/// How far giving the terminal back has come.
#[derive(Debug)]
pub enum RestoreEvent<E> {
    /// The terminal is to be given back.
    Asked,
    /// The alternate screen was left, or could not be.
    Left(Result<(), E>),
    /// Raw mode was disabled, or could not be.
    Disabled(Result<(), E>),
}

/// What is to be done to the terminal next.
#[derive(Debug)]
pub enum RestoreAction<E> {
    LeaveScreen,
    DisableRawMode,
    /// Nothing more; this is what giving it back came to.
    Done(Result<(), E>),
}

/// What follows from an event, going by whether the terminal is back already.
pub open spec fn restore_decision<E>(restored: bool, event: RestoreEvent<E>) -> RestoreAction<E> {
    match event {
        RestoreEvent::Asked => if restored {
            RestoreAction::Done(Ok(()))
        } else {
            RestoreAction::LeaveScreen
        },
        RestoreEvent::Left(Ok(_)) => RestoreAction::DisableRawMode,
        RestoreEvent::Left(Err(error)) => RestoreAction::Done(Err(error)),
        RestoreEvent::Disabled(off) => RestoreAction::Done(off),
    }
}

/// Whether the terminal is back after an event: once raw mode was disabled, and from then on.
pub open spec fn restored_after<E>(restored: bool, event: RestoreEvent<E>) -> bool {
    restored || (event matches RestoreEvent::Disabled(off) && off is Ok)
}

/// Takes one step of giving the terminal back. The alternate screen is left first and raw mode
/// disabled only if that succeeded. A terminal that is back already is not touched.
pub fn restore_step<E>(restored: &mut bool, event: RestoreEvent<E>) -> (r: RestoreAction<E>)
    ensures
        *final(restored) == restored_after(*old(restored), event),
        r == restore_decision(*old(restored), event),
{
    match event {
        RestoreEvent::Asked => if *restored {
            RestoreAction::Done(Ok(()))
        } else {
            RestoreAction::LeaveScreen
        },
        RestoreEvent::Left(left) => match left {
            Ok(_) => RestoreAction::DisableRawMode,
            Err(error) => RestoreAction::Done(Err(error)),
        },
        RestoreEvent::Disabled(off) => {
            if off.is_ok() {
                *restored = true;
            }
            RestoreAction::Done(off)
        },
    }
}

/// A whole attempt to give the terminal back: what is done to the terminal, what the attempt
/// comes to, and whether the terminal is back afterwards.
#[verifier::ext_equal]
pub struct Attempt<E> {
    pub steps: Seq<RestoreAction<E>>,
    pub result: Result<(), E>,
    pub restored: bool,
}

/// The attempt that goes on from an event. `left` and `off` are what leaving the screen and
/// disabling raw mode come to, if they are done.
pub open spec fn attempt_from<E>(
    restored: bool,
    event: RestoreEvent<E>,
    left: Result<(), E>,
    off: Result<(), E>,
) -> Attempt<E>
    decreases
            (match event {
                RestoreEvent::Asked => 2nat,
                RestoreEvent::Left(_) => 1nat,
                RestoreEvent::Disabled(_) => 0nat,
            }),
{
    let now = restored_after(restored, event);
    match restore_decision(restored, event) {
        RestoreAction::LeaveScreen => {
            let rest = attempt_from(now, RestoreEvent::Left(left), left, off);
            Attempt { steps: seq![RestoreAction::LeaveScreen] + rest.steps, ..rest }
        },
        RestoreAction::DisableRawMode => {
            let rest = attempt_from(now, RestoreEvent::Disabled(off), left, off);
            Attempt { steps: seq![RestoreAction::DisableRawMode] + rest.steps, ..rest }
        },
        RestoreAction::Done(result) => Attempt { steps: Seq::empty(), result, restored: now },
    }
}

/// A whole attempt to give the terminal back.
pub open spec fn attempt<E>(restored: bool, left: Result<(), E>, off: Result<(), E>) -> Attempt<E> {
    attempt_from(restored, RestoreEvent::Asked, left, off)
}

/// The terminal is given back exactly once. An attempt leaves the screen and then raw mode, stops
/// at the first failure, and succeeds if and only if the terminal is back; once it is back,
/// further attempts succeed and do nothing to it.
pub proof fn terminal_is_given_back_once<E>(left: Result<(), E>, off: Result<(), E>)
    ensures
        attempt(true, left, off) == (Attempt {
            steps: Seq::empty(),
            result: Ok::<(), E>(()),
            restored: true,
        }),
        left is Err ==> attempt(false, left, off) == (Attempt {
            steps: seq![RestoreAction::LeaveScreen],
            result: left,
            restored: false,
        }),
        left is Ok ==> attempt(false, left, off) == (Attempt {
            steps: seq![RestoreAction::LeaveScreen, RestoreAction::DisableRawMode],
            result: off,
            restored: off is Ok,
        }),
{
    reveal_with_fuel(attempt_from, 3);
}

} // verus!
