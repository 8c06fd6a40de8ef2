//! Decisions of the native overlay runtime workers.
//!
//! Two workers surround the native runtime: a cooperative task that watches
//! the event stream and the shutdown signal, and a dedicated thread that
//! polls the native API, forwards its events over a bounded channel and
//! posts queued notification texts. Both block on calls this crate cannot
//! make; their control decisions are here.
use vstd::prelude::*;

verus! {

/// One outcome of the runtime task's wait: the shutdown broadcast fired,
/// an event arrived (quit or not), or the event channel closed.
#[derive(Debug, Clone, PartialEq, Eq, Structural)]
pub enum RuntimeInput {
    ShutdownSignaled,
    EventReceived(bool),
    ChannelClosed,
}

/// Whether the runtime task stops on this input.
pub open spec fn runtime_stops(input: RuntimeInput) -> bool {
    match input {
        RuntimeInput::ShutdownSignaled => true,
        RuntimeInput::EventReceived(quit) => quit,
        RuntimeInput::ChannelClosed => true,
    }
}

/// Decides whether the runtime task's loop ends: on shutdown, on a native
/// quit event, or when the event stream is gone. Any other event keeps it
/// waiting.
pub fn runtime_should_stop(input: &RuntimeInput) -> (stop: bool)
    ensures
        stop == runtime_stops(*input),
{
    match input {
        RuntimeInput::ShutdownSignaled => true,
        RuntimeInput::EventReceived(quit) => *quit,
        RuntimeInput::ChannelClosed => true,
    }
}

/// What the native polling thread does at the end of one cycle.
#[derive(Debug, Clone, PartialEq, Eq, Structural)]
pub enum StreamAction {
    /// Shut the native runtime down and exit the thread.
    Teardown,
    /// Acknowledge the native quit request first, then shut down and exit.
    AcknowledgeAndTeardown,
    /// Sleep one poll period and go around again.
    Sleep,
}

/// The native thread's cycle decision.
pub open spec fn stream_step_spec(shutdown_seen: bool, quit_event_seen: bool) -> StreamAction {
    if shutdown_seen {
        StreamAction::Teardown
    } else if quit_event_seen {
        StreamAction::AcknowledgeAndTeardown
    } else {
        StreamAction::Sleep
    }
}

/// Decides one cycle of the native polling thread: the shutdown broadcast,
/// checked first, tears the runtime down; a native quit event is
/// acknowledged and then tears it down; otherwise the thread sleeps its
/// poll period (about a second, the accepted window between signal and
/// native teardown) and polls again.
pub fn event_stream_step(shutdown_seen: bool, quit_event_seen: bool) -> (action: StreamAction)
    ensures
        action == stream_step_spec(shutdown_seen, quit_event_seen),
{
    if shutdown_seen {
        StreamAction::Teardown
    } else if quit_event_seen {
        StreamAction::AcknowledgeAndTeardown
    } else {
        StreamAction::Sleep
    }
}

} // verus!
