//! Decisions of the graceful-stop protocol.
//!
//! Killing the encoder outright risks an unfinalized, unplayable output
//! container, so a stop first asks the encoder to finalize — with a
//! termination signal where the platform has process-group signals, and by
//! writing a stop character to its input stream where it does not — and then
//! waits up to a fixed grace period for a natural exit, polling at a fixed
//! interval. Only past the deadline, or when polling itself fails, is the
//! process forcibly killed and reaped. The caller performs the signals, the
//! polls and the sleeps; the decisions in between are taken here.

use vstd::prelude::*;

use crate::command::Platform;

verus! {

/// How long a stopped encoder is given to finalize and exit on its own, in
/// milliseconds.
pub const GRACE_PERIOD_MS: u64 = 5000;

/// How long the caller sleeps between two polls of the child's exit status,
/// in milliseconds.
pub const POLL_INTERVAL_MS: u64 = 50;

/// The single character written to the encoder's input stream as a
/// graceful-shutdown request, by the convention of common command-line
/// encoders: the letter `q`.
pub const STOP_CHARACTER: char = 'q';

/// How the encoder is asked to finalize and exit.
#[derive(Clone, Copy, Debug, PartialEq, Eq, Structural)]
pub enum GracefulRequest {
    /// Write [`STOP_CHARACTER`] to the child's input stream: the platform has
    /// no process-group termination signal the encoder would honor cleanly.
    WriteStopCharacter,
    /// Send the standard termination signal to the child process.
    TerminationSignal,
}

/// What the caller observed when polling the child's exit status once.
#[derive(Clone, Copy, Debug, PartialEq, Eq, Structural)]
pub enum PollOutcome {
    /// The child has exited and is reaped.
    Exited,
    /// The child is still running.
    StillRunning,
    /// The poll itself failed.
    PollFailed,
}

/// What the caller must do next in the wait loop.
#[derive(Clone, Copy, Debug, PartialEq, Eq, Structural)]
pub enum StopAction {
    /// The child exited by itself within the grace period: the stop is done.
    Finished,
    /// Sleep one poll interval and poll again: the deadline has not passed.
    PollAgainAfterSleep,
    /// Kill the child and reap it unconditionally: it outlived the grace
    /// period, or its status can no longer be polled.
    KillAndReap,
}

/// How a stop asks the encoder to finalize on the given platform: through the
/// input stream where process-group signals are not available, by a
/// termination signal where they are.
pub fn graceful_request(platform: Platform) -> (r: GracefulRequest)
    ensures
        r is WriteStopCharacter <==> platform is Windows,
        r is TerminationSignal <==> platform is Unix,
{
    match platform {
        Platform::Windows => GracefulRequest::WriteStopCharacter,
        Platform::Unix => GracefulRequest::TerminationSignal,
    }
}

/// One decision of the bounded wait loop, from the instant the wait began,
/// the instant of this poll, and what the poll observed.
///
/// An exited child always ends the loop; a running child is polled again
/// until the grace period has elapsed, measured with saturating arithmetic so
/// a clock anomaly ends the wait rather than extending it; a failed poll, or
/// a child still running at the deadline, escalates to a forced kill. The
/// loop therefore never runs longer than the grace period plus one poll
/// interval of the caller's clock.
pub fn stop_step(wait_began_ms: u64, now_ms: u64, poll: PollOutcome) -> (r: StopAction)
    ensures
        r is Finished <==> poll is Exited,
        r is KillAndReap <==> poll is PollFailed || (poll is StillRunning && now_ms.saturating_sub(
            wait_began_ms,
        ) >= GRACE_PERIOD_MS),
        r is PollAgainAfterSleep <==> poll is StillRunning && now_ms.saturating_sub(wait_began_ms)
            < GRACE_PERIOD_MS,
{
    match poll {
        PollOutcome::Exited => StopAction::Finished,
        PollOutcome::PollFailed => StopAction::KillAndReap,
        PollOutcome::StillRunning => {
            if now_ms.saturating_sub(wait_began_ms) >= GRACE_PERIOD_MS {
                StopAction::KillAndReap
            } else {
                StopAction::PollAgainAfterSleep
            }
        },
    }
}

} // verus!
