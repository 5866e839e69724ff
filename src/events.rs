//! The event loop's decisions.
//!
//! Messages posted across the thread boundary, and redraw passes offered by
//! the platform, come in one at a time; the driver answers each with the one
//! thing the loop must do. Redraw requests coalesce: while one redraw is
//! outstanding, further requests ask for nothing more.
use vstd::prelude::*;
use crate::signals::{emission_of, emit_signal_inner, Emission, SignalTable};
use crate::timeout::{delivery_spec, Delivery, TimerHandle, TimerTable, TimerEntry};

verus! {

/// Name of the signal emitted once per redraw pass.
pub const REDRAW_SIGNAL: &'static str = "redraw_requested";

/// A message posted to the host thread.
#[derive(Clone, Copy, Debug, PartialEq, Eq, Structural)]
pub enum PolymerWindowEvent {
    RedrawRequested,
    Timer(TimerHandle),
}

/// What the event loop hands the driver.
#[derive(Clone, Copy, Debug, PartialEq, Eq, Structural)]
pub enum LoopEvent {
    /// A message from the cross-thread channel.
    Posted(PolymerWindowEvent),
    /// The platform is running a redraw pass.
    RedrawDue,
    /// Anything else the platform reports.
    Other,
}

/// The one thing the loop must do in answer to an event.
#[derive(Clone, Copy, Debug, PartialEq, Eq, Structural)]
pub enum LoopAction {
    /// Run the timer's callback, with exclusive access to the script.
    RunTimer(TimerHandle),
    /// The timer is not due: post it again after `after_ms`.
    RetryTimer { handle: TimerHandle, after_ms: u64 },
    /// Ask the platform window for a redraw pass.
    RequestWindowRedraw,
    /// Run the redraw pass: emit the redraw signal to the script.
    Draw,
    /// Nothing to do; wait for the next event.
    Wait,
    /// A timer fired that was never scheduled: the bookkeeping is broken.
    UnknownTimer(TimerHandle),
}

/// The driver's answer to `event`: the action, whether a redraw is then
/// outstanding, and the timer table after it.
pub open spec fn driver_step(
    redraw_pending: bool,
    timers: Seq<TimerEntry>,
    event: LoopEvent,
    now: int,
) -> (LoopAction, bool, Seq<TimerEntry>) {
    match event {
        LoopEvent::Posted(PolymerWindowEvent::RedrawRequested) => if redraw_pending {
            (LoopAction::Wait, true, timers)
        } else {
            (LoopAction::RequestWindowRedraw, true, timers)
        },
        LoopEvent::Posted(PolymerWindowEvent::Timer(handle)) => {
            let (d, after) = delivery_spec(timers, handle as int, now);
            let action = match d {
                Delivery::Invoke => LoopAction::RunTimer(handle),
                Delivery::Early { remaining_ms } => LoopAction::RetryTimer { handle, after_ms: remaining_ms },
                Delivery::AlreadyFired => LoopAction::Wait,
                Delivery::Unknown => LoopAction::UnknownTimer(handle),
            };
            (action, redraw_pending, after)
        },
        LoopEvent::RedrawDue => (LoopAction::Draw, false, timers),
        LoopEvent::Other => (LoopAction::Wait, redraw_pending, timers),
    }
}

/// State of the event loop driver.
pub struct EventLoopDriver {
    redraw_pending: bool,
}

impl View for EventLoopDriver {
    /// Whether a redraw has been asked of the window and not yet run.
    type V = bool;

    closed spec fn view(&self) -> bool {
        self.redraw_pending
    }
}

impl EventLoopDriver {
    pub fn new() -> (d: EventLoopDriver)
        ensures
            d@ == false,
    {
        EventLoopDriver { redraw_pending: false }
    }

    /// Decides what the loop does with `event`, arriving at `now_ms`.
    pub fn handle_event(&mut self, timers: &mut TimerTable, event: LoopEvent, now_ms: u64) -> (r: LoopAction)
        ensures
            (r, final(self)@, final(timers)@) == driver_step(old(self)@, old(timers)@, event, now_ms as int),
    {
        match event {
            LoopEvent::Posted(PolymerWindowEvent::RedrawRequested) => {
                if self.redraw_pending {
                    LoopAction::Wait
                } else {
                    self.redraw_pending = true;
                    LoopAction::RequestWindowRedraw
                }
            },
            LoopEvent::Posted(PolymerWindowEvent::Timer(handle)) => {
                match timers.deliver(handle, now_ms) {
                    Delivery::Invoke => LoopAction::RunTimer(handle),
                    Delivery::Early { remaining_ms } => LoopAction::RetryTimer { handle, after_ms: remaining_ms },
                    Delivery::AlreadyFired => LoopAction::Wait,
                    Delivery::Unknown => LoopAction::UnknownTimer(handle),
                }
            },
            LoopEvent::RedrawDue => {
                self.redraw_pending = false;
                LoopAction::Draw
            },
            LoopEvent::Other => LoopAction::Wait,
        }
    }
}

/// The emission of a redraw pass: every handler connected to the redraw
/// signal, in connection order, all run before the pass returns.
pub fn begin_redraw_pass(signals: &SignalTable) -> (e: Emission)
    ensures
        e@ == emission_of(signals@, REDRAW_SIGNAL@),
{
    emit_signal_inner(signals, REDRAW_SIGNAL)
}

/// Redraw requests coalesce: two requests before the next redraw pass ask
/// the window for one redraw between them (none if one was already
/// outstanding), and the pass that follows is the only one they cause.
pub proof fn lemma_redraw_requests_coalesce(redraw_pending: bool, timers: Seq<TimerEntry>, now: int)
    ensures
        ({
            let request = LoopEvent::Posted(PolymerWindowEvent::RedrawRequested);
            let first = driver_step(redraw_pending, timers, request, now);
            let second = driver_step(first.1, first.2, request, now);
            let pass = driver_step(second.1, second.2, LoopEvent::RedrawDue, now);
            &&& (first.0 == LoopAction::RequestWindowRedraw) == !redraw_pending
            &&& first.0 == LoopAction::RequestWindowRedraw || first.0 == LoopAction::Wait
            &&& second.0 == LoopAction::Wait
            &&& second.1
            &&& pass.0 == LoopAction::Draw
            &&& !pass.1
            &&& pass.2 == timers
        }),
{
}

} // verus!
