//! The agent-side endpoint that serves a websocket for a web terminal.

use crate::websocket::{forwarded_by, Incoming, InboundStep, Refusal};
use vstd::prelude::*;

verus! {

/// `step` is what the web terminal side does with `msg`: non-empty binary
/// messages are forwarded as they are; empty ones, pings and pongs are
/// passed over; a close, a failed or an ended stream stops the connection; a
/// text message aborts the endpoint.
pub open spec fn webterminal_step(msg: Incoming, step: InboundStep) -> bool {
    match msg {
        Incoming::Text(t) => step matches InboundStep::Refuse(Refusal::UnexpectedText(u)) && u == t,
        Incoming::Binary(b) => if b@.len() == 0 {
            step matches InboundStep::Ignore
        } else {
            step matches InboundStep::Forward(f) && f@ == b@
        },
        Incoming::Ping(_) => step matches InboundStep::Ignore,
        Incoming::Pong(_) => step matches InboundStep::Ignore,
        Incoming::Close => step matches InboundStep::Finish,
        Incoming::Broken => step matches InboundStep::Finish,
    }
}

/// What a web terminal connection hands to the tunnel when its peer sends
/// `msgs`: the payloads of the non-empty binary messages, in order, up to
/// the first close, text message, failure or end of stream.
pub open spec fn webterminal_forwards(msgs: Seq<Incoming>) -> Seq<Seq<u8>>
    decreases msgs.len(),
{
    if msgs.len() == 0 {
        Seq::empty()
    } else {
        match msgs[0] {
            Incoming::Binary(b) => if b@.len() == 0 {
                webterminal_forwards(msgs.drop_first())
            } else {
                seq![b@] + webterminal_forwards(msgs.drop_first())
            },
            Incoming::Ping(_) => webterminal_forwards(msgs.drop_first()),
            Incoming::Pong(_) => webterminal_forwards(msgs.drop_first()),
            Incoming::Text(_) => Seq::empty(),
            Incoming::Close => Seq::empty(),
            Incoming::Broken => Seq::empty(),
        }
    }
}

/// Read message after message with `inbound_step`, a web terminal
/// connection forwards exactly the non-empty binary payloads, in the order
/// they came, up to the first message that stops it; nothing is split,
/// merged, repeated or reordered.
pub proof fn lemma_webterminal_forwards_in_order(msgs: Seq<Incoming>, steps: Seq<InboundStep>)
    requires
        msgs.len() == steps.len(),
        forall|i: int| 0 <= i < msgs.len() ==> webterminal_step(#[trigger] msgs[i], steps[i]),
    ensures
        forwarded_by(steps) == webterminal_forwards(msgs),
    decreases msgs.len(),
{
    if msgs.len() > 0 {
        assert(webterminal_step(msgs[0], steps[0]));
        let (m, t) = (msgs.drop_first(), steps.drop_first());
        assert forall|i: int| 0 <= i < m.len() implies webterminal_step(#[trigger] m[i], t[i]) by {
            assert(m[i] == msgs[i + 1]);
            assert(t[i] == steps[i + 1]);
        }
        lemma_webterminal_forwards_in_order(m, t);
    }
}

/// Serves a websocket on which a web terminal script connects, one
/// connection at a time.
pub struct CommuClientSideWebterminal {}

impl CommuClientSideWebterminal {
    pub fn new() -> (s: Self)
        ensures
            s == (CommuClientSideWebterminal {}),
    {
        CommuClientSideWebterminal {}
    }

    /// Non-empty binary messages are forwarded as they are; empty ones,
    /// pings and pongs are passed over; a close, a failed or an ended stream
    /// stops the connection; a text message aborts the endpoint.
    pub fn inbound_step(msg: Incoming) -> (step: InboundStep)
        ensures
            webterminal_step(msg, step),
    {
        match msg {
            Incoming::Text(t) => InboundStep::Refuse(Refusal::UnexpectedText(t)),
            Incoming::Binary(b) => {
                if b.len() == 0 {
                    InboundStep::Ignore
                } else {
                    InboundStep::Forward(b)
                }
            },
            Incoming::Ping(_) => InboundStep::Ignore,
            Incoming::Pong(_) => InboundStep::Ignore,
            Incoming::Close => InboundStep::Finish,
            Incoming::Broken => InboundStep::Finish,
        }
    }
}

} // verus!
