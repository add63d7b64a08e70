//! Offering a chunk to a bounded channel without waiting, with a receipt of
//! what was offered.

use tokio::sync::mpsc::Sender;
use vstd::prelude::*;

verus! {

/// The record of one offer to a channel: the contents handed to the channel
/// and whether it answered that it queued them. Only an offer makes one.
pub struct SendReceipt {
    queued: bool,
    sent: Ghost<Seq<u8>>,
}

impl SendReceipt {
    /// The contents that were handed to the channel.
    pub closed spec fn sent(&self) -> Seq<u8> {
        self.sent@
    }

    /// Whether the channel answered that it queued them.
    pub closed spec fn reported_queued(&self) -> bool {
        self.queued
    }

    /// Whether the channel answered that it queued the contents.
    pub fn queued(&self) -> (b: bool)
        ensures
            b == self.reported_queued(),
    {
        self.queued
    }
}

/// Calls `Sender::try_send` of tokio's bounded channel, which queues the
/// message at once or refuses it (channel full or closed) without waiting,
/// and returns a receipt of the call: whether it answered queued, and the
/// contents of the message it was handed. Nothing is claimed of the answer:
/// it rests on the channel's state, which other tasks change.
#[verifier::external_body]
pub(crate) fn channel_try_send(sender: &Sender<Vec<u8>>, message: Vec<u8>) -> (r: SendReceipt)
    ensures
        r.sent() == message@,
{
    let sent = Ghost(message@);
    SendReceipt { queued: sender.try_send(message).is_ok(), sent }
}

} // verus!
