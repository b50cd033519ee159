//! The events that the window hands to the game.

use shrev::EventChannel;
use vstd::prelude::*;

use crate::channel::{instance, publish, written};
use crate::input::KeyboardInput;

verus! {

/// What the window reports, as far as the game tells events apart.
#[derive(Clone, Copy, Debug, PartialEq, Eq)]
pub enum Event {
    /// The user asked for the window to be closed.
    CloseRequested,
    /// A key went down or up.
    Keyboard(KeyboardInput),
    /// Anything else: the game carries it along and no system reads it.
    Other,
}

/// Whether the main loop goes on after an event.
#[derive(Clone, Copy, Debug, PartialEq, Eq, Structural)]
pub enum ControlFlow {
    Continue,
    Break,
}

/// What the channel has been sent once `event` has been dealt with: a request
/// to close is not passed on, every other event is.
pub open spec fn forwarded(log: Seq<Event>, event: Event) -> Seq<Event> {
    match event {
        Event::CloseRequested => log,
        _ => log.push(event),
    }
}

/// Deals with one event from the window. A request to close ends the main
/// loop and leaves the channel alone. Every other event is written to the
/// channel for the systems to read, and the loop goes on.
pub fn forward_event(channel: &mut EventChannel<Event>, event: Event) -> (flow: ControlFlow)
    ensures
        flow == (if event is CloseRequested {
            ControlFlow::Break
        } else {
            ControlFlow::Continue
        }),
        written(*final(channel)) == forwarded(written(*old(channel)), event),
        instance(*final(channel)) == instance(*old(channel)),
{
    match event {
        Event::CloseRequested => ControlFlow::Break,
        event => {
            publish(channel, event);
            ControlFlow::Continue
        },
    }
}

} // verus!
