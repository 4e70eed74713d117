//! The bounded channels between the poller and the flusher.
//!
//! Both ends are only ever used without blocking. What an attempt answers
//! depends on what the other end has done in the meantime, so nothing is
//! promised of it here.

use vstd::prelude::*;
use crossbeam::channel::{Receiver, Sender, TryRecvError, TrySendError};

verus! {

/// `crossbeam::channel::Sender`, carried as an opaque value.
#[verifier::external_type_specification]
#[verifier::external_body]
#[verifier::reject_recursive_types(T)]
pub struct ExSender<T>(crossbeam::channel::Sender<T>);

/// `crossbeam::channel::Receiver`, carried as an opaque value.
#[verifier::external_type_specification]
#[verifier::external_body]
#[verifier::reject_recursive_types(T)]
pub struct ExReceiver<T>(crossbeam::channel::Receiver<T>);

/// How an attempt to send ended.
#[derive(Clone, Copy, Debug, PartialEq, Eq, Structural)]
pub enum SendOutcome {
    /// The record is in the channel.
    Sent,
    /// The channel was at capacity; the record is gone.
    Full,
    /// The receiving end no longer exists; the record is gone.
    Disconnected,
}

/// How an attempt to receive ended.
#[derive(Clone, Copy, Debug, PartialEq, Eq)]
pub enum Received<T> {
    /// A record was waiting.
    Item(T),
    /// Nothing was waiting.
    Empty,
    /// Nothing was waiting and the sending end no longer exists.
    Disconnected,
}

/// `Sender::try_send`: returns at once, whatever the receiver does. A record
/// that does not fit is not kept.
#[verifier::external_body]
pub(crate) fn try_send<T>(sender: &Sender<T>, record: T) -> (r: SendOutcome) {
    match sender.try_send(record) {
        Ok(()) => SendOutcome::Sent,
        Err(TrySendError::Full(_)) => SendOutcome::Full,
        Err(TrySendError::Disconnected(_)) => SendOutcome::Disconnected,
    }
}

/// `Receiver::try_recv`: returns at once, with the oldest waiting record if there is one.
#[verifier::external_body]
pub(crate) fn try_recv<T>(receiver: &Receiver<T>) -> (r: Received<T>) {
    match receiver.try_recv() {
        Ok(record) => Received::Item(record),
        Err(TryRecvError::Empty) => Received::Empty,
        Err(TryRecvError::Disconnected) => Received::Disconnected,
    }
}

} // verus!
