//! The endpoints of the child-process tunnel: the side that runs the helper
//! process, and the websocket server that the helper connects to.

use crate::websocket::{forwarded_by, Incoming, InboundStep, Refusal};
use vstd::prelude::*;

pub use crate::stream::{ReceiverStream, SenderStream};

verus! {

/// The side that starts the helper process and talks to it through its
/// standard input and output, one framed chunk per line
/// (see `codec::encode_frame` and `codec::decode_line`).
pub struct SubprocessClientSide {}

impl SubprocessClientSide {
    pub fn new() -> (s: Self)
        ensures
            s == (SubprocessClientSide {}),
    {
        SubprocessClientSide {}
    }
}

/// `step` is what the websocket server for the helper does with `msg`:
/// binary messages are forwarded as they are, empty ones included; pings
/// and pongs are passed over; a failed or ended stream stops the
/// connection; text and close messages abort the endpoint.
pub open spec fn server_step(msg: Incoming, step: InboundStep) -> bool {
    match msg {
        Incoming::Text(t) => step matches InboundStep::Refuse(Refusal::UnexpectedText(u)) && u == t,
        Incoming::Binary(b) => step matches InboundStep::Forward(f) && f@ == b@,
        Incoming::Ping(_) => step matches InboundStep::Ignore,
        Incoming::Pong(_) => step matches InboundStep::Ignore,
        Incoming::Close => step matches InboundStep::Refuse(Refusal::UnhandledClose),
        Incoming::Broken => step matches InboundStep::Finish,
    }
}

/// What a connection of the helper's websocket hands to the tunnel when the
/// helper sends `msgs`: the payloads of the binary messages, in order, up to
/// the first close, text message, failure or end of stream.
pub open spec fn server_forwards(msgs: Seq<Incoming>) -> Seq<Seq<u8>>
    decreases msgs.len(),
{
    if msgs.len() == 0 {
        Seq::empty()
    } else {
        match msgs[0] {
            Incoming::Binary(b) => seq![b@] + server_forwards(msgs.drop_first()),
            Incoming::Ping(_) => server_forwards(msgs.drop_first()),
            Incoming::Pong(_) => server_forwards(msgs.drop_first()),
            Incoming::Text(_) => Seq::empty(),
            Incoming::Close => Seq::empty(),
            Incoming::Broken => Seq::empty(),
        }
    }
}

/// Read message after message with `inbound_step`, a connection of the
/// helper's websocket forwards exactly the binary payloads, in the order
/// they came, up to the first message that stops it.
pub proof fn lemma_server_forwards_in_order(msgs: Seq<Incoming>, steps: Seq<InboundStep>)
    requires
        msgs.len() == steps.len(),
        forall|i: int| 0 <= i < msgs.len() ==> server_step(#[trigger] msgs[i], steps[i]),
    ensures
        forwarded_by(steps) == server_forwards(msgs),
    decreases msgs.len(),
{
    if msgs.len() > 0 {
        assert(server_step(msgs[0], steps[0]));
        let (m, t) = (msgs.drop_first(), steps.drop_first());
        assert forall|i: int| 0 <= i < m.len() implies server_step(#[trigger] m[i], t[i]) by {
            assert(m[i] == msgs[i + 1]);
            assert(t[i] == steps[i + 1]);
        }
        lemma_server_forwards_in_order(m, t);
    }
}

/// The side that serves a websocket for the helper process, one connection
/// at a time.
pub struct SubprocessServerSide {}

impl SubprocessServerSide {
    pub fn new() -> (s: Self)
        ensures
            s == (SubprocessServerSide {}),
    {
        SubprocessServerSide {}
    }

    /// Binary messages are forwarded as they are, empty ones included;
    /// pings and pongs are passed over; a failed or ended stream stops the
    /// connection; a text message aborts the endpoint. Handling a close is
    /// left unimplemented on this side, so a close aborts the endpoint too.
    pub fn inbound_step(msg: Incoming) -> (step: InboundStep)
        ensures
            server_step(msg, step),
    {
        match msg {
            Incoming::Text(t) => InboundStep::Refuse(Refusal::UnexpectedText(t)),
            Incoming::Binary(b) => InboundStep::Forward(b),
            Incoming::Ping(_) => InboundStep::Ignore,
            Incoming::Pong(_) => InboundStep::Ignore,
            Incoming::Close => InboundStep::Refuse(Refusal::UnhandledClose),
            Incoming::Broken => InboundStep::Finish,
        }
    }
}

} // verus!
