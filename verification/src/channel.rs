//! The ends of the bounded channels between workers.
//!
//! Channels are those of `crossbeam_channel`. What a receive gives depends
//! on what other workers do, so nothing is stated of it; the workers' steps
//! are verified for whatever arrives.

use crossbeam_channel::{Receiver, Sender};
use vstd::prelude::*;

verus! {

/// `crossbeam_channel::Receiver`, the receiving end of a channel.
#[verifier::external_type_specification]
#[verifier::external_body]
#[verifier::reject_recursive_types(T)]
pub struct ExReceiver<T>(Receiver<T>);

/// `crossbeam_channel::Sender`, the sending end of a channel.
#[verifier::external_type_specification]
#[verifier::external_body]
#[verifier::reject_recursive_types(T)]
pub struct ExSender<T>(Sender<T>);

/// `Receiver::recv`: waits for the next message. Gives nothing once the
/// channel is empty and all its senders are gone. Nothing is claimed of the
/// message.
#[verifier::external_body]
pub(crate) fn receive<T>(input: &Receiver<T>) -> (message: Option<T>) {
    input.recv().ok()
}

/// `Receiver::try_recv`: the message that waits in the channel, without
/// waiting for one. Gives nothing where none waits, whether or not the
/// senders are gone. Nothing is claimed of the message.
#[verifier::external_body]
pub(crate) fn receive_now<T>(input: &Receiver<T>) -> (message: Option<T>) {
    input.try_recv().ok()
}

/// `Sender::send`: waits for room in the channel and puts the message
/// there. Says whether it could: once all receivers are gone the message is
/// dropped. Nothing is claimed of the answer.
#[verifier::external_body]
pub(crate) fn deliver<T>(output: &Sender<T>, message: T) -> (sent: bool) {
    output.send(message).is_ok()
}

} // verus!
