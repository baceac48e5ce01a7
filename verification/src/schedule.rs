//! The notification scheduler: a resolved request either stops after the
//! estimate, or waits and then decides whether the moment has passed.

use vstd::prelude::*;

use crate::ElapsedDuration;

verus! {

/// How far, in seconds, the wakeup may miss the intended moment and the
/// notification still be worth delivering.
pub const STALE_WINDOW_SECS: u64 = 30;

/// The full resolved intent of one invocation: the duration to wait, the
/// message to speak, and whether only the estimate was asked for.
#[derive(Clone, Debug)]
pub struct NagRequest {
    pub duration: ElapsedDuration,
    pub message: String,
    pub estimate: bool,
}

/// Where one invocation stands.
#[derive(Clone, Copy, Debug, PartialEq, Eq, Structural)]
pub enum SchedulerState {
    /// Duration and message are fixed; nothing has happened yet.
    Resolved,
    /// The process is suspended for the resolved duration.
    Waiting,
    /// The message was worth speaking.
    Fired,
    /// Nothing more to do: estimate-only, or the moment has passed.
    Skipped,
}

/// What the caller must do next.
#[derive(Clone, Copy, Debug, PartialEq, Eq, Structural)]
pub enum SchedulerAction {
    /// Suspend for this many seconds, then report back how long the
    /// suspension really took.
    Wait(u64),
    /// Invoke the speech collaborator with the message.
    Speak,
    /// Exit silently.
    Finish,
}

/// The staleness guard: the notification is delivered only when the
/// actual elapsed wait lies within [`STALE_WINDOW_SECS`] of the planned
/// one, so that a wakeup whose real-world moment has clearly passed
/// stays silent.
pub open spec fn notify_allowed(planned: int, elapsed: int) -> bool {
    -(STALE_WINDOW_SECS as int) < elapsed - planned < STALE_WINDOW_SECS as int
}

impl NagRequest {
    /// The first transition: an estimate-only request terminates at once
    /// with nothing spoken; any other request starts the wait for its
    /// resolved duration.
    pub fn start(&self) -> (r: (SchedulerState, SchedulerAction))
        ensures
            self.estimate ==> r == (SchedulerState::Skipped, SchedulerAction::Finish),
            !self.estimate ==> r == (
                SchedulerState::Waiting,
                SchedulerAction::Wait(self.duration.secs),
            ),
    {
        if self.estimate {
            (SchedulerState::Skipped, SchedulerAction::Finish)
        } else {
            (SchedulerState::Waiting, SchedulerAction::Wait(self.duration.secs))
        }
    }
}

/// Whether a wakeup after `elapsed` seconds still honours a wait planned
/// for `planned` seconds, exactly as [`notify_allowed`] describes.
pub fn should_notify(planned: u64, elapsed: u64) -> (r: bool)
    ensures
        r == notify_allowed(planned as int, elapsed as int),
{
    if elapsed >= planned {
        elapsed - planned < STALE_WINDOW_SECS
    } else {
        planned - elapsed < STALE_WINDOW_SECS
    }
}

/// The transition out of the wait: fire when the wakeup is close enough
/// to the intended moment, skip silently when it is not.
pub fn on_wake(planned: u64, elapsed: u64) -> (r: (SchedulerState, SchedulerAction))
    ensures
        notify_allowed(planned as int, elapsed as int) ==> r == (
            SchedulerState::Fired,
            SchedulerAction::Speak,
        ),
        !notify_allowed(planned as int, elapsed as int) ==> r == (
            SchedulerState::Skipped,
            SchedulerAction::Finish,
        ),
{
    if should_notify(planned, elapsed) {
        (SchedulerState::Fired, SchedulerAction::Speak)
    } else {
        (SchedulerState::Skipped, SchedulerAction::Finish)
    }
}

} // verus!
