//! Decision logic of the per-instance watchdog.
//!
//! One watchdog runs for every spawned instance. It races two events: a new
//! deadline arriving from the instance's time-control channel (or that
//! channel closing, the sign that the instance thread exited), and the
//! currently tracked deadline elapsing. The async plumbing around the race
//! lives outside this module; every decision - which deadline to track,
//! when to drop the registry entry, when to force a time-limit termination,
//! and that the watchdog never re-arms once either branch fired - is taken
//! here, against an exact specification.

use vstd::prelude::*;

verus! {

/// One of the two events the watchdog races, as delivered by the plumbing.
#[derive(Clone, Copy, Debug, PartialEq, Eq, Structural)]
pub enum WatchdogEvent {
    /// The instance reported a new deadline (in milliseconds since an
    /// arbitrary epoch), or `None`: idle, no active deadline.
    DeadlineUpdate(Option<u64>),
    /// The time-control channel closed: the instance thread exited.
    ChannelClosed,
    /// The currently tracked deadline elapsed.
    DeadlineElapsed,
}

/// What the plumbing must do after a step.
#[derive(Clone, Copy, Debug, PartialEq, Eq, Structural)]
pub enum WatchdogAction {
    /// Keep racing: sleep until the tracked deadline (forever if none) while
    /// listening for time-control messages.
    Wait,
    /// Remove the instance's registry entry if still present, then stop.
    RemoveEntry,
    /// Remove the instance's registry entry if still present, force the
    /// instance's time-limit termination, then stop.
    RemoveAndTerminate,
}

/// The watchdog's whole state: the deadline it tracks, and whether one of
/// the two terminal branches already fired.
#[derive(Clone, Copy, Debug, PartialEq, Eq, Structural)]
pub struct WatchdogState {
    /// Deadline currently tracked, in milliseconds; `None` sleeps forever.
    pub deadline: Option<u64>,
    /// Set once a terminal branch fired; a stopped watchdog ignores events.
    pub stopped: bool,
}

/// The watchdog's transition function: a deadline update replaces the
/// tracked deadline and keeps racing; a closed channel stops the watchdog
/// after dropping the registry entry; an elapsed deadline stops it after
/// dropping the entry and forcing termination. A stopped watchdog never
/// re-arms and takes no further action.
pub open spec fn spec_watchdog_step(s: WatchdogState, e: WatchdogEvent) -> (
    WatchdogState,
    WatchdogAction,
) {
    if s.stopped {
        (s, WatchdogAction::Wait)
    } else {
        match e {
            WatchdogEvent::DeadlineUpdate(d) => (
                (WatchdogState { deadline: d, stopped: false }),
                WatchdogAction::Wait,
            ),
            WatchdogEvent::ChannelClosed => (
                (WatchdogState { deadline: s.deadline, stopped: true }),
                WatchdogAction::RemoveEntry,
            ),
            WatchdogEvent::DeadlineElapsed => (
                (WatchdogState { deadline: s.deadline, stopped: true }),
                WatchdogAction::RemoveAndTerminate,
            ),
        }
    }
}

impl WatchdogState {
    /// The state a watchdog starts in: no tracked deadline, racing.
    pub fn new() -> (r: WatchdogState)
        ensures
            r.deadline is None,
            !r.stopped,
    {
        WatchdogState { deadline: None, stopped: false }
    }

    /// Takes one event and decides what the plumbing does next, exactly as
    /// `spec_watchdog_step` says.
    pub fn step(&mut self, event: WatchdogEvent) -> (action: WatchdogAction)
        ensures
            (*final(self), action) == spec_watchdog_step(*old(self), event),
            old(self).stopped ==> final(self).stopped && action == WatchdogAction::Wait,
            final(self).stopped == (old(self).stopped || event == WatchdogEvent::ChannelClosed
                || event == WatchdogEvent::DeadlineElapsed),
    {
        if self.stopped {
            WatchdogAction::Wait
        } else {
            match event {
                WatchdogEvent::DeadlineUpdate(d) => {
                    self.deadline = d;
                    WatchdogAction::Wait
                },
                WatchdogEvent::ChannelClosed => {
                    self.stopped = true;
                    WatchdogAction::RemoveEntry
                },
                WatchdogEvent::DeadlineElapsed => {
                    self.stopped = true;
                    WatchdogAction::RemoveAndTerminate
                },
            }
        }
    }
}

/// Once a terminal branch has fired, the watchdog is inert: whatever events
/// arrive later, its state never changes and it never asks for another
/// removal or termination.
pub proof fn lemma_watchdog_never_rearms(s: WatchdogState, e: WatchdogEvent)
    requires
        s.stopped,
    ensures
        spec_watchdog_step(s, e).0 == s,
        spec_watchdog_step(s, e).1 == WatchdogAction::Wait,
{
}

} // verus!
