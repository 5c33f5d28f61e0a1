use vstd::prelude::*;

verus! {

/// Listens for the server shutdown signal.
///
/// Only a single value is ever sent. Once it has been seen, the server should
/// shutdown. The `Shutdown` struct remembers whether the signal was seen.
#[derive(Debug)]
pub struct Shutdown {
    /// `true` if the shutdown signal has been received
    is_shutdown: bool,
}

impl View for Shutdown {
    type V = bool;

    closed spec fn view(&self) -> bool {
        self.is_shutdown
    }
}

impl Shutdown {
    /// Create a new `Shutdown` that has seen no signal.
    pub fn new() -> (shutdown: Shutdown)
        ensures
            !shutdown@,
    {
        Shutdown { is_shutdown: false }
    }

    /// Returns `true` if the shutdown signal has been received.
    pub fn is_shutdown(&self) -> (seen: bool)
        ensures
            seen == self@,
    {
        self.is_shutdown
    }

    /// Remember that the signal has been received.
    pub fn recv(&mut self)
        ensures
            final(self)@,
    {
        self.is_shutdown = true;
    }
}

} // verus!
