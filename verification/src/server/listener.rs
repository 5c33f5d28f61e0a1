//! When the acceptor retries, and when it gives up.

use vstd::prelude::*;

verus! {

/// The longest pause between two attempts to accept, in seconds.
pub const MAX_BACKOFF: u64 = 64;

/// How long the acceptor pauses after a failed attempt to accept a
/// connection.
///
/// The first failure is followed by a pause of 1 second, and each further
/// one by a pause four times as long: 4, 16 and 64 seconds. The failure that
/// follows the pause of 64 seconds is final.
pub struct Backoff {
    /// The pause after the next failure, in seconds.
    delay: u64,
}

/// Four to the power of `n`.
pub open spec fn pow4(n: nat) -> nat
    decreases n,
{
    if n == 0 {
        1
    } else {
        4 * pow4((n - 1) as nat)
    }
}

impl Backoff {
    #[verifier::type_invariant]
    spec fn inv(self) -> bool {
        self.delay == 1 || self.delay == 4 || self.delay == 16 || self.delay == 64 || self.delay
            == 256
    }

    /// How many attempts have failed in a row.
    pub closed spec fn failures(&self) -> nat {
        if self.delay == 1 {
            0
        } else if self.delay == 4 {
            1
        } else if self.delay == 16 {
            2
        } else if self.delay == 64 {
            3
        } else {
            4
        }
    }

    /// The state before any failure.
    pub fn new() -> (backoff: Backoff)
        ensures
            backoff.failures() == 0,
    {
        Backoff { delay: 1 }
    }

    /// An attempt to accept has failed. Returns the number of seconds to
    /// pause before the next attempt, or nothing where the acceptor has to
    /// give up and hand the error on.
    pub fn failed(&mut self) -> (pause: Option<u64>)
        ensures
            old(self).failures() < 4 ==> pause == Some(pow4(old(self).failures()) as u64) && final(self).failures() == old(self).failures() + 1,
            old(self).failures() >= 4 ==> pause == None::<u64> && final(self).failures() == old(self).failures(),
    {
        proof {
            use_type_invariant(&*self);
            reveal_with_fuel(pow4, 5);
        }
        if self.delay > MAX_BACKOFF {
            // Accept has failed too many times. Return the error.
            None
        } else {
            let pause = self.delay;
            // Pause execution until the back off period elapses, then
            // lengthen the back off fourfold.
            self.delay = self.delay * 4;
            Some(pause)
        }
    }

    /// An attempt to accept has succeeded: the next failure counts as the
    /// first again.
    pub fn succeeded(&mut self)
        ensures
            final(self).failures() == 0,
    {
        self.delay = 1;
    }
}

} // verus!
