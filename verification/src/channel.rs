//! The channel that carries commands from the controls to the decoder.

use tokio::sync::mpsc::error::SendError;
use tokio::sync::mpsc::{UnboundedReceiver, UnboundedSender};
use vstd::prelude::*;

use crate::command::DecoderMessage;

verus! {

/// The sending half of an unbounded channel of the `tokio` crate.
#[verifier::external_type_specification]
#[verifier::external_body]
#[verifier::reject_recursive_types(T)]
pub struct ExUnboundedSender<T>(UnboundedSender<T>);

/// The receiving half of an unbounded channel of the `tokio` crate.
#[verifier::external_type_specification]
#[verifier::external_body]
#[verifier::reject_recursive_types(T)]
pub struct ExUnboundedReceiver<T>(UnboundedReceiver<T>);

/// The error of the `tokio` crate for a message that no receiver can get any more.
#[verifier::external_type_specification]
#[verifier::external_body]
#[verifier::reject_recursive_types(T)]
pub struct ExSendError<T>(SendError<T>);

/// The messages handed to a channel through a sending half, oldest first, each with whether the
/// channel accepted it.
pub uninterp spec fn sent(tx: UnboundedSender<DecoderMessage>) -> Seq<(DecoderMessage, bool)>;

/// What a channel gave each time it was asked through its receiving half, oldest first: the message
/// that was taken out, or nothing where none was waiting.
pub uninterp spec fn received(rx: UnboundedReceiver<DecoderMessage>) -> Seq<
    Option<DecoderMessage>,
>;

/// Whether two halves belong to one channel, so that what is sent through the one arrives at the
/// other.
pub uninterp spec fn connected(
    tx: UnboundedSender<DecoderMessage>,
    rx: UnboundedReceiver<DecoderMessage>,
) -> bool;

/// `tokio::sync::mpsc::unbounded_channel`: the two halves of one fresh channel, through which nothing
/// has gone.
#[verifier::external_body]
pub(crate) fn open_channel() -> (halves: (
    UnboundedSender<DecoderMessage>,
    UnboundedReceiver<DecoderMessage>,
))
    ensures
        sent(halves.0).len() == 0,
        received(halves.1).len() == 0,
        connected(halves.0, halves.1),
{
    tokio::sync::mpsc::unbounded_channel()
}

/// `tokio::sync::mpsc::UnboundedSender::send`: hands the message over once. The channel accepts it,
/// or, when the receiving half is closed or gone, refuses it. Whether that half is still there is up
/// to the thread that holds it. The half stays with its channel.
#[verifier::external_body]
pub(crate) fn send(
    tx: &mut UnboundedSender<DecoderMessage>,
    message: DecoderMessage,
) -> (outcome: Result<(), SendError<DecoderMessage>>)
    ensures
        sent(*final(tx)) == sent(*old(tx)).push((message, outcome is Ok)),
        forall|rx: UnboundedReceiver<DecoderMessage>| #[trigger]
            connected(*final(tx), rx) == connected(*old(tx), rx),
{
    tx.send(message)
}

/// `tokio::sync::mpsc::UnboundedReceiver::try_recv`: asks once for the next message and takes it
/// out, if one is waiting. Which message, if any, is up to the threads that send. The half stays with
/// its channel.
#[verifier::external_body]
pub(crate) fn try_receive(rx: &mut UnboundedReceiver<DecoderMessage>) -> (message: Option<
    DecoderMessage,
>)
    ensures
        received(*final(rx)) == received(*old(rx)).push(message),
        forall|tx: UnboundedSender<DecoderMessage>| #[trigger]
            connected(tx, *final(rx)) == connected(tx, *old(rx)),
{
    rx.try_recv().ok()
}

} // verus!
