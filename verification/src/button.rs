//! The button: short presses and long ones.
use vstd::prelude::*;

use crate::command::{TaskCommand, TaskCommandView};

verus! {

/// A press shorter than this, in microseconds, is taken for a bounce.
pub const SHORTEST_PRESS: u64 = 50_000;

/// From this duration on, in microseconds, a press is a long one.
pub const LONG_PRESS: u64 = 1_000_000;

/// What the button task waits for.
#[derive(Clone, Copy, Debug, PartialEq, Eq, Structural)]
pub enum ButtonState {
    /// The button is up: for a press.
    Up,
    /// The button went down at a moment: for its release, but no longer than `LONG_PRESS`.
    Down(u64),
    /// The button went down at a moment and is held: for its release.
    Held(u64),
}

/// What happened to the button; moments are in microseconds since power-up.
#[derive(Clone, Copy, Debug, PartialEq, Eq, Structural)]
pub enum ButtonEvent {
    /// It went down.
    Pressed(u64),
    /// It was not released in time.
    TimedOut,
    /// It went up.
    Released(u64),
}

/// When the press that a state is about began.
pub open spec fn press_start(state: ButtonState) -> Option<u64> {
    match state {
        ButtonState::Up => None,
        ButtonState::Down(start) => Some(start),
        ButtonState::Held(start) => Some(start),
    }
}

/// The message that tells of a press that lasted so long.
pub open spec fn released_message(duration: int) -> Option<TaskCommandView> {
    if SHORTEST_PRESS <= duration < LONG_PRESS {
        Some(TaskCommandView::ShortButtonPress)
    } else {
        None
    }
}

/// The state after an event; what a state does not wait for does not change it.
pub open spec fn state_after(state: ButtonState, event: ButtonEvent) -> ButtonState {
    match (state, event) {
        (ButtonState::Up, ButtonEvent::Pressed(now)) => ButtonState::Down(now),
        (ButtonState::Down(start), ButtonEvent::TimedOut) => ButtonState::Held(start),
        (ButtonState::Down(_), ButtonEvent::Released(_)) => ButtonState::Up,
        (ButtonState::Held(_), ButtonEvent::Released(_)) => ButtonState::Up,
        _ => state,
    }
}

/// The message that an event in a state leads to, if any.
pub open spec fn message_after(state: ButtonState, event: ButtonEvent) -> Option<
    TaskCommandView,
> {
    match (press_start(state), event) {
        (Some(start), ButtonEvent::Released(now)) => released_message(now - start),
        (Some(_), ButtonEvent::TimedOut) => if state is Down {
            Some(TaskCommandView::LongButtonPress)
        } else {
            None
        },
        _ => None,
    }
}

impl ButtonState {
    /// Takes an event into account, and hands out the message that it leads to.
    pub fn step(&mut self, event: ButtonEvent) -> (message: Option<TaskCommand>)
        requires
            event matches ButtonEvent::Released(now) ==> (press_start(*old(self)) matches Some(
                start,
            ) ==> start <= now),
        ensures
            *final(self) == state_after(*old(self), event),
            crate::command::message_view(message) == message_after(*old(self), event),
    {
        match (*self, event) {
            (ButtonState::Up, ButtonEvent::Pressed(now)) => {
                *self = ButtonState::Down(now);
                None
            },
            (ButtonState::Down(start), ButtonEvent::TimedOut) => {
                *self = ButtonState::Held(start);
                Some(TaskCommand::LongButtonPress)
            },
            (ButtonState::Down(start), ButtonEvent::Released(now)) => {
                *self = ButtonState::Up;
                release(now - start)
            },
            (ButtonState::Held(start), ButtonEvent::Released(now)) => {
                *self = ButtonState::Up;
                release(now - start)
            },
            _ => None,
        }
    }
}

/// The message that tells of a press that lasted so long, in microseconds.
pub fn release(duration: u64) -> (message: Option<TaskCommand>)
    ensures
        crate::command::message_view(message) == released_message(duration as int),
{
    if duration >= SHORTEST_PRESS && duration < LONG_PRESS {
        Some(TaskCommand::ShortButtonPress)
    } else {
        None
    }
}

/// A press from `start` to `end` leads to exactly one message if it lasts from
/// `SHORTEST_PRESS` on, and to none if it is shorter: a short press if it is released in
/// time, a long press as soon as the time is over.
pub proof fn law_one_message_for_each_press(start: u64, end: u64)
    requires
        start <= end,
    ensures
        ({
            let down = state_after(ButtonState::Up, ButtonEvent::Pressed(start));
            let held = state_after(down, ButtonEvent::TimedOut);
            &&& message_after(ButtonState::Up, ButtonEvent::Pressed(start)) is None
            // released in time
            &&& end - start < LONG_PRESS ==> {
                &&& state_after(down, ButtonEvent::Released(end)) == ButtonState::Up
                &&& message_after(down, ButtonEvent::Released(end)) == if end - start
                    >= SHORTEST_PRESS {
                    Some(TaskCommandView::ShortButtonPress)
                } else {
                    None
                }
            }
            // held until the time was over, and released later
            &&& end - start >= LONG_PRESS ==> {
                &&& message_after(down, ButtonEvent::TimedOut) == Some(
                    TaskCommandView::LongButtonPress,
                )
                &&& message_after(held, ButtonEvent::Released(end)) is None
                &&& state_after(held, ButtonEvent::Released(end)) == ButtonState::Up
            }
        }),
{
}

/// A press counts as a short one if it lasts at least 50 milliseconds and less than a
/// second: the message comes with the release, in no other case and at no other event. The
/// message of a long press comes if the button is still down when its time is over.
pub proof fn law_which_press_is_which(state: ButtonState, event: ButtonEvent)
    ensures
        message_after(state, event) == Some(TaskCommandView::ShortButtonPress) <==> (
        event matches ButtonEvent::Released(now) && (match state {
            ButtonState::Up => false,
            ButtonState::Down(start) => 50_000 <= now - start < 1_000_000,
            ButtonState::Held(start) => 50_000 <= now - start < 1_000_000,
        })),
        message_after(state, event) == Some(TaskCommandView::LongButtonPress) <==> state is Down
            && event is TimedOut,
        message_after(state, event) is None || message_after(state, event) == Some(
            TaskCommandView::ShortButtonPress,
        ) || message_after(state, event) == Some(TaskCommandView::LongButtonPress),
        LONG_PRESS == 1_000_000,
{
}

/// A release ends every press. A press begins when the button was up, and from then on its
/// beginning is remembered until it ends. It is held once its time is over.
pub proof fn law_presses_begin_and_end(state: ButtonState, event: ButtonEvent, start: u64)
    ensures
        event is Released ==> state_after(state, event) == ButtonState::Up,
        state_after(ButtonState::Up, event) == match event {
            ButtonEvent::Pressed(now) => ButtonState::Down(now),
            _ => ButtonState::Up,
        },
        !(event is Released) ==> state_after(ButtonState::Down(start), event) == if event
            is TimedOut {
            ButtonState::Held(start)
        } else {
            ButtonState::Down(start)
        },
        !(event is Released) ==> state_after(ButtonState::Held(start), event)
            == ButtonState::Held(start),
        press_start(ButtonState::Down(start)) == Some(start),
        press_start(ButtonState::Held(start)) == Some(start),
        press_start(ButtonState::Up) is None,
{
}

} // verus!
