//! How a message read from a websocket peer is treated.

use vstd::prelude::*;

verus! {

/// One step of reading a websocket: a message, or the end of the stream.
pub enum Incoming {
    Text(String),
    Binary(Vec<u8>),
    Ping(Vec<u8>),
    Pong(Vec<u8>),
    Close,
    /// The read failed, or the stream has no more messages.
    Broken,
}

/// Why a message stops the endpoint for good.
#[derive(Debug)]
pub enum Refusal {
    /// The tunnel carries bytes only; a text message is a protocol breach.
    UnexpectedText(String),
    /// This endpoint has no way to handle a close from its peer.
    UnhandledClose,
}

/// What the reading loop does with one incoming message.
#[derive(Debug)]
pub enum InboundStep {
    /// Hand these bytes to the tunnel.
    Forward(Vec<u8>),
    /// Read the next message.
    Ignore,
    /// Stop reading this connection.
    Finish,
    /// Abort the endpoint.
    Refuse(Refusal),
}

/// The payloads a reading loop forwards when its steps are `steps`: those
/// of the `Forward` steps, in order, up to the first step that stops it.
pub open spec fn forwarded_by(steps: Seq<InboundStep>) -> Seq<Seq<u8>>
    decreases steps.len(),
{
    if steps.len() == 0 {
        Seq::empty()
    } else {
        match steps[0] {
            InboundStep::Forward(f) => seq![f@] + forwarded_by(steps.drop_first()),
            InboundStep::Ignore => forwarded_by(steps.drop_first()),
            InboundStep::Finish => Seq::empty(),
            InboundStep::Refuse(_) => Seq::empty(),
        }
    }
}

} // verus!
