//! The one-shot shutdown signal shared by every handle of a broadcast group.
use futures_channel::oneshot::{Receiver, Sender};
use vstd::prelude::*;

verus! {

/// The sending half of a one-shot channel of `futures_channel`.
#[verifier::external_type_specification]
#[verifier::external_body]
#[verifier::reject_recursive_types(T)]
pub struct ExSender<T>(Sender<T>);

/// The receiving half of a one-shot channel of `futures_channel`.
#[verifier::external_type_specification]
#[verifier::external_body]
#[verifier::reject_recursive_types(T)]
pub struct ExReceiver<T>(Receiver<T>);

/// The error a one-shot receiver yields when its sender is gone.
#[verifier::external_type_specification]
#[verifier::external_body]
pub struct ExCanceled(futures_channel::oneshot::Canceled);

/// Relies on `futures_channel::oneshot::channel`, which creates a connected
/// sender and receiver; nothing is stated of them beyond their types.
pub assume_specification<T>[ futures_channel::oneshot::channel::<T> ]() -> (Sender<T>, Receiver<T>);

/// Relies on `futures_channel::oneshot::Sender::send`: it consumes the sender,
/// completes the channel, and hands the value back only when the receiver is
/// gone.
pub assume_specification<T>[ Sender::<T>::send ](sender: Sender<T>, t: T) -> (r: Result<(), T>)
    ensures
        r matches Err(v) ==> v == t,
;

/// The slot that holds the right to send the shutdown signal of one
/// broadcast group.
///
/// The slot starts armed, holding the sender. Firing takes the sender out
/// exactly once: the first call hands it to the caller, which then wakes every
/// waiter of the group, and every later call finds the slot empty and does
/// nothing.
pub struct Trigger<S> {
    slot: Option<S>,
}

impl<S> Trigger<S> {
    /// Whether the group has been triggered.
    pub closed spec fn fired(&self) -> bool {
        self.slot is None
    }

    /// The sender still held by an armed slot.
    pub closed spec fn sender(&self) -> Option<S> {
        self.slot
    }

    /// Creates an armed slot holding the sender of a fresh group.
    pub fn new(sender: S) -> (r: Self)
        ensures
            !r.fired(),
            r.sender() == Some(sender),
    {
        Trigger { slot: Some(sender) }
    }

    /// Returns `true` once the group has been triggered.
    pub fn is_triggered(&self) -> (r: bool)
        ensures
            r == self.fired(),
    {
        self.slot.is_none()
    }

    /// Triggers the group.
    ///
    /// The first call returns the sender, which the caller uses to wake every
    /// waiter; later calls return `None` and leave the slot as it is.
    pub fn fire(&mut self) -> (r: Option<S>)
        ensures
            final(self).fired(),
            r == old(self).sender(),
            r is Some <==> !old(self).fired(),
            old(self).fired() ==> *final(self) == *old(self),
    {
        self.slot.take()
    }
}


impl Trigger<Sender<()>> {
    /// Creates the armed slot of a fresh broadcast group, and the receiver
    /// that every handle of the group awaits.
    pub fn armed() -> (r: (Self, Receiver<()>))
        ensures
            !r.0.fired(),
            r.0.sender() is Some,
    {
        let (sender, receiver) = futures_channel::oneshot::channel();
        (Trigger::new(sender), receiver)
    }

    /// Triggers the group: the first call sends the one-shot signal that
    /// wakes every waiter; later calls do nothing. Returns `true` when this
    /// call was the one that sent it.
    pub fn trigger(&mut self) -> (r: bool)
        ensures
            final(self).fired(),
            r == !old(self).fired(),
            old(self).fired() ==> *final(self) == *old(self),
    {
        match self.fire() {
            Some(sender) => {
                let _ = sender.send(());
                true
            },
            None => false,
        }
    }
}

} // verus!
