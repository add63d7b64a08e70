//! The two halves of a tunnel endpoint, backed by bounded channels of byte
//! chunks: one delivers received chunks to a reader, the other hands
//! written bytes to the channel without waiting.

use crate::channel::{channel_try_send, SendReceipt};
use tokio::sync::mpsc::{Receiver, Sender};
use vstd::prelude::*;

verus! {

/// `tokio::sync::mpsc::Sender`, the sending half of a bounded channel.
#[verifier::external_type_specification]
#[verifier::external_body]
#[verifier::reject_recursive_types(T)]
pub struct ExSender<T>(Sender<T>);

/// `tokio::sync::mpsc::Receiver`, the receiving half of a bounded channel.
#[verifier::external_type_specification]
#[verifier::external_body]
#[verifier::reject_recursive_types(T)]
pub struct ExReceiver<T>(Receiver<T>);

/// What one poll of the channel gave.
pub enum ChannelPoll {
    /// A chunk was waiting.
    Message(Vec<u8>),
    /// Every sender is gone and nothing is left.
    Closed,
    /// Nothing yet.
    Pending,
}

/// What a read of the stream hands back.
#[derive(Debug)]
pub enum ReadOutcome {
    /// These bytes go into the reader's buffer.
    Filled(Vec<u8>),
    /// The channel is closed: the read fails with an unexpected end of file.
    ChannelClosed,
    /// The read is not ready.
    Pending,
}

/// What a write to the stream reports.
#[derive(Debug, PartialEq, Eq, Structural)]
pub enum WriteOutcome {
    /// The whole buffer was queued; this many bytes were written.
    Written(usize),
    /// The channel refused the chunk; the write is not ready.
    Pending,
}

/// The reading half: chunks that arrive on the channel are handed to the
/// reader whole.
pub struct ReceiverStream {
    pub receiver: Receiver<Vec<u8>>,
}

impl ReceiverStream {
    /// Wraps the receiving half of a channel.
    pub fn new(receiver: Receiver<Vec<u8>>) -> (s: Self)
        ensures
            s.receiver == receiver,
    {
        ReceiverStream { receiver }
    }

    /// Turns one poll of the channel into the read's outcome. A chunk is
    /// handed over whole, so it must fit in the room the reader has left.
    pub fn deliver(polled: ChannelPoll, room: usize) -> (out: ReadOutcome)
        requires
            polled matches ChannelPoll::Message(m) ==> m@.len() <= room,
        ensures
            match polled {
                ChannelPoll::Message(m) => out matches ReadOutcome::Filled(d) && d@ == m@,
                ChannelPoll::Closed => out matches ReadOutcome::ChannelClosed,
                ChannelPoll::Pending => out matches ReadOutcome::Pending,
            },
    {
        match polled {
            ChannelPoll::Message(m) => ReadOutcome::Filled(m),
            ChannelPoll::Closed => ReadOutcome::ChannelClosed,
            ChannelPoll::Pending => ReadOutcome::Pending,
        }
    }
}

/// What a writing half has offered to its channel.
struct OfferRecord {
    /// Every chunk handed to `try_send`, with its answer (queued or not),
    /// in the order of the writes.
    offers: Ghost<Seq<(Seq<u8>, bool)>>,
    /// The chunks for which `try_send` answered queued, in the order of the
    /// writes.
    taken: Ghost<Seq<Seq<u8>>>,
    /// The receipt of the latest offer, if any.
    last: Option<SendReceipt>,
}

impl OfferRecord {
    /// The records agree: the latest entry of the offer log is what the
    /// latest receipt records, and the accepted chunks are the offers
    /// answered queued.
    #[verifier::type_invariant]
    closed spec fn records_agree(&self) -> bool {
        &&& match self.last {
            None => self.offers@.len() == 0,
            Some(r) => self.offers@.len() > 0 && self.offers@.last() == (r.sent(), r.reported_queued()),
        }
        &&& self.taken@ == queued_chunks(self.offers@)
    }
}

/// The chunks of `offers` that were answered queued, in order.
pub open spec fn queued_chunks(offers: Seq<(Seq<u8>, bool)>) -> Seq<Seq<u8>>
    decreases offers.len(),
{
    if offers.len() == 0 {
        Seq::empty()
    } else {
        let rest = queued_chunks(offers.drop_last());
        if offers.last().1 {
            rest.push(offers.last().0)
        } else {
            rest
        }
    }
}

/// The total length of the chunks of `offers` that were answered queued.
pub open spec fn queued_len(offers: Seq<(Seq<u8>, bool)>) -> int
    decreases offers.len(),
{
    if offers.len() == 0 {
        0
    } else if offers.last().1 {
        queued_len(offers.drop_last()) + offers.last().0.len()
    } else {
        queued_len(offers.drop_last())
    }
}

/// The bytes a reader of the channel can be handed are exactly the bytes of
/// the queued offers: joined together, the accepted chunks are as long as
/// all queued offers together, so a write reported `Written(n)` put all of
/// its `n` bytes on the channel and no byte was dropped or added.
pub proof fn lemma_accepted_bytes_are_queued_bytes(offers: Seq<(Seq<u8>, bool)>)
    ensures
        queued_chunks(offers).flatten().len() == queued_len(offers),
    decreases offers.len(),
{
    if offers.len() > 0 {
        let rest = offers.drop_last();
        lemma_accepted_bytes_are_queued_bytes(rest);
        if offers.last().1 {
            queued_chunks(rest).lemma_flatten_push(offers.last().0);
        }
    }
}

/// The writing half: every write offers the bytes to the channel as one
/// chunk; bytes the channel refused are kept, in order, as a backlog.
pub struct SenderStream {
    sender: Sender<Vec<u8>>,
    failed: Vec<u8>,
    record: OfferRecord,
}

impl SenderStream {
    /// The bytes of every refused write, oldest first.
    pub closed spec fn backlog(&self) -> Seq<u8> {
        self.failed@
    }

    /// The channel this stream writes to.
    pub closed spec fn channel(&self) -> Sender<Vec<u8>> {
        self.sender
    }

    /// What the receipt of the latest offer records: the contents handed to
    /// the channel, and whether it answered queued.
    pub closed spec fn last_offer(&self) -> Option<(Seq<u8>, bool)> {
        match self.record.last {
            Some(r) => Some((r.sent(), r.reported_queued())),
            None => None,
        }
    }

    /// Every chunk handed to the channel's `try_send` so far, each with
    /// whether the call answered that it was queued, oldest first.
    pub closed spec fn offers(&self) -> Seq<(Seq<u8>, bool)> {
        self.record.offers@
    }

    /// The chunks handed to `try_send` for which the call answered that it
    /// was queued, oldest first.
    pub closed spec fn accepted(&self) -> Seq<Seq<u8>> {
        self.record.taken@
    }

    /// Wraps the sending half of a channel, with no backlog and nothing
    /// offered yet.
    pub fn new(sender: Sender<Vec<u8>>) -> (s: Self)
        ensures
            s.channel() == sender,
            s.backlog() == Seq::<u8>::empty(),
            s.offers() == Seq::<(Seq<u8>, bool)>::empty(),
            s.accepted() == Seq::<Seq<u8>>::empty(),
            s.last_offer() == None::<(Seq<u8>, bool)>,
    {
        SenderStream {
            sender,
            failed: Vec::new(),
            record: OfferRecord { offers: Ghost(Seq::empty()), taken: Ghost(Seq::empty()), last: None },
        }
    }

    /// The refused bytes so far.
    pub fn failed(&self) -> (f: &Vec<u8>)
        ensures
            f@ == self.backlog(),
    {
        &self.failed
    }

    /// Whether any write has been refused.
    pub fn has_backlog(&self) -> (b: bool)
        ensures
            b == (self.backlog().len() > 0),
    {
        self.failed.len() > 0
    }

    /// Settles a write of `buf` on the channel's answer. Queued: the whole
    /// buffer counts as written, the backlog stays. Refused: the bytes join
    /// the backlog and the write is pending.
    pub fn settle_write(&mut self, queued: bool, buf: &[u8]) -> (out: WriteOutcome)
        ensures
            final(self).channel() == old(self).channel(),
            final(self).offers() == old(self).offers(),
            final(self).accepted() == old(self).accepted(),
            final(self).last_offer() == old(self).last_offer(),
            queued ==> out == WriteOutcome::Written(buf.len()) && final(self).backlog()
                == old(self).backlog(),
            !queued ==> out == WriteOutcome::Pending && final(self).backlog() == old(
                self,
            ).backlog() + buf@,
    {
        if queued {
            WriteOutcome::Written(buf.len())
        } else {
            self.failed.extend_from_slice(buf);
            assert(self.failed@ =~= old(self).failed@ + buf@);
            WriteOutcome::Pending
        }
    }

    /// Offers `buf` to the channel as one chunk. Queued: the chunk is
    /// accepted and the whole buffer counts as written. Refused: the bytes
    /// join the backlog and the write is pending. The chunk handed to the
    /// channel holds exactly the bytes of `buf`, as the call's receipt shows,
    /// and the outcome is `Written` exactly when the call answered queued.
    pub fn write_chunk(&mut self, buf: &[u8]) -> (out: WriteOutcome)
        ensures
            final(self).channel() == old(self).channel(),
            final(self).last_offer() == Some((buf@, out is Written)),
            final(self).offers() == old(self).offers().push((buf@, out is Written)),
            final(self).accepted() == queued_chunks(final(self).offers()),
            match out {
                WriteOutcome::Written(n) => {
                    &&& n == buf@.len()
                    &&& final(self).backlog() == old(self).backlog()
                    &&& final(self).accepted() == old(self).accepted().push(buf@)
                },
                WriteOutcome::Pending => {
                    &&& final(self).backlog() == old(self).backlog() + buf@
                    &&& final(self).accepted() == old(self).accepted()
                },
            },
    {
        proof {
            use_type_invariant(&self.record);
        }
        let chunk = vstd::slice::slice_to_vec(buf);
        let receipt = channel_try_send(&self.sender, chunk);
        let queued = receipt.queued();
        let ghost offered = receipt.sent();
        let ghost old_offers = self.record.offers@;
        let ghost new_offers = old_offers.push((offered, queued));
        let ghost new_taken = if queued {
            self.record.taken@.push(offered)
        } else {
            self.record.taken@
        };
        assert(new_offers.drop_last() =~= old_offers);
        self.record = OfferRecord { offers: Ghost(new_offers), taken: Ghost(new_taken), last: Some(receipt) };
        self.settle_write(queued, buf)
    }
}

} // verus!
