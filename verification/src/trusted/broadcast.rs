//! `tokio::sync::broadcast`: the channels that carry published messages.
//! Who is listening at a given moment, and how many, is decided outside this
//! library; what can be said of a channel is which receiver hangs on which
//! sender, and how many messages it buffers.

use bytes::Bytes;
use tokio::sync::broadcast::error::SendError;
use tokio::sync::broadcast::{Receiver, Sender};
use vstd::arithmetic::power2::pow2;
use vstd::prelude::*;

verus! {

/// The sending half of a broadcast channel.
#[verifier::external_type_specification]
#[verifier::external_body]
#[verifier::reject_recursive_types(T)]
pub struct ExSender<T>(Sender<T>);

/// A receiving half of a broadcast channel.
#[verifier::external_type_specification]
#[verifier::external_body]
#[verifier::reject_recursive_types(T)]
pub struct ExReceiver<T>(Receiver<T>);

/// What `send` returns when nobody receives: the value that was not sent.
#[verifier::external_type_specification]
#[verifier::external_body]
#[verifier::reject_recursive_types(T)]
pub struct ExSendError<T>(SendError<T>);

/// The receiver `rx` hangs on the channel of the sender `tx`: what is sent
/// with `tx` while `rx` lives is what `rx` receives.
pub uninterp spec fn hears(rx: Receiver<Bytes>, tx: Sender<Bytes>) -> bool;

/// The number of messages that the channel of `tx` buffers for a receiver
/// that is slow, before the oldest are lost to it.
pub uninterp spec fn slots(tx: Sender<Bytes>) -> nat;

/// `n` is a power of two.
pub open spec fn is_power_of_two(n: nat) -> bool {
    exists|k: nat| n == #[trigger] pow2(k)
}

/// Calls `broadcast::channel`, which makes a channel and hands out its
/// sender with a first receiver on it. The channel buffers `capacity`
/// messages, rounded up to a power of two, which for a power of two is the
/// number itself. The call panics on a capacity of zero or above
/// `usize::MAX / 2`.
#[verifier::external_body]
pub(crate) fn channel(capacity: usize) -> (halves: (Sender<Bytes>, Receiver<Bytes>))
    requires
        0 < capacity <= usize::MAX / 2,
        is_power_of_two(capacity as nat),
    ensures
        hears(halves.1, halves.0),
        slots(halves.0) == capacity,
{
    tokio::sync::broadcast::channel(capacity)
}

/// Calls `Sender::subscribe`, which makes a new receiver on the sender's
/// channel; it receives what is sent from now on. (The call panics at more
/// than `usize::MAX / 4` live receivers, which no machine holds.)
#[verifier::external_body]
pub(crate) fn subscribe(tx: &Sender<Bytes>) -> (rx: Receiver<Bytes>)
    ensures
        hears(rx, *tx),
{
    tx.subscribe()
}

/// `Sender::send` hands the value to every live receiver and returns how
/// many there are; with none it fails.
pub assume_specification<T>[ Sender::<T>::send ](tx: &Sender<T>, value: T) -> (r: Result<
    usize,
    SendError<T>,
>)
    ensures
        r matches Ok(n) ==> n > 0,
;

} // verus!
