//! The decisions of the server: what a connection answers, when the
//! acceptor gives up, and in which order the server winds down.

use vstd::prelude::*;

pub mod handler;
pub mod listener;
pub mod shutdown;

verus! {

/// How long the server lets commands that are in flight complete once it has
/// been asked to shut down, in seconds.
pub const GRACE_SECS: u64 = 2;

/// Why the server stops serving.
#[derive(Debug, Clone, Copy, PartialEq, Eq, Structural)]
pub enum Stop {
    /// The shutdown signal was received.
    Signal,
    /// Accepting connections failed for good.
    AcceptFailed,
}

/// One step of winding the server down.
#[derive(Debug, Clone, Copy, PartialEq, Eq, Structural)]
pub enum Step {
    /// Pause for the given number of seconds.
    Pause(u64),
    /// Tell every connection to end at its next safe point.
    NotifyShutdown,
    /// Give up the server's own hold on the completion signal, so that only
    /// the connections hold it.
    ReleaseCompletion,
    /// Wait until every connection has ended.
    AwaitDrain,
}

/// The steps by which the server winds down, in order: after a shutdown
/// signal it first lets commands in flight complete; then, in any case, it
/// tells the connections to end, and waits until all have.
pub open spec fn drain_steps(stop: Stop) -> Seq<Step> {
    let drain = seq![Step::NotifyShutdown, Step::ReleaseCompletion, Step::AwaitDrain];
    match stop {
        Stop::Signal => seq![Step::Pause(GRACE_SECS)] + drain,
        Stop::AcceptFailed => drain,
    }
}

/// The steps to take once the server stops serving, in order.
pub fn wind_down(stop: Stop) -> (steps: Vec<Step>)
    ensures
        steps@ == drain_steps(stop),
{
    let mut steps: Vec<Step> = Vec::new();
    match stop {
        Stop::Signal => {
            // The shutdown signal has been received,
            // sleep for some time and shutdown gracefully
            steps.push(Step::Pause(GRACE_SECS));
        },
        Stop::AcceptFailed => {},
    }
    // When the sender of the shutdown signal is dropped, all tasks which
    // have subscribed will receive the shutdown signal and can exit.
    steps.push(Step::NotifyShutdown);
    // Drop the last sender of the completion signal that the server holds,
    // so that the wait below can complete.
    steps.push(Step::ReleaseCompletion);
    // Wait for all active connections to finish processing.
    steps.push(Step::AwaitDrain);
    proof {
        assert(steps@ =~= drain_steps(stop));
    }
    steps
}

} // verus!
