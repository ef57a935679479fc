//! One datagram, end to end: decode, handle, encode. Nothing carries over from
//! one datagram to the next.

use vstd::prelude::*;
use crate::codec::{decoding, encoding, Codec, CodecError};
use crate::handler::{handled, Handler, HandlerError, Reply, ReplyView};
use crate::message::PeerInfo;

verus! {

/// What becomes of one datagram.
pub enum Outcome {
    /// Send these bytes back to the sender.
    Reply(Vec<u8>),
    /// Send back the square root of `square`, written in decimal and encoded
    /// as a `Bytes` message.
    ReplyRoot { square: u128 },
    /// Send nothing: the payload could not be decoded.
    Undecodable(CodecError),
    /// Send nothing: the handler refused the request.
    Refused(HandlerError),
}

pub enum OutcomeView {
    Reply(Seq<u8>),
    ReplyRoot { square: nat },
    Undecodable(CodecError),
    Refused(HandlerError),
}

impl View for Outcome {
    type V = OutcomeView;

    open spec fn view(&self) -> OutcomeView {
        match self {
            Outcome::Reply(b) => OutcomeView::Reply(b@),
            Outcome::ReplyRoot { square } => OutcomeView::ReplyRoot { square: *square as nat },
            Outcome::Undecodable(e) => OutcomeView::Undecodable(*e),
            Outcome::Refused(e) => OutcomeView::Refused(*e),
        }
    }
}

pub open spec fn datagram_outcome(codec: Codec, handler: Handler, payload: Seq<u8>) -> OutcomeView {
    match decoding(codec, payload) {
        Err(e) => OutcomeView::Undecodable(e),
        Ok(m) => match handled(handler, m) {
            Err(e) => OutcomeView::Refused(e),
            Ok(ReplyView::Message(r)) => OutcomeView::Reply(encoding(codec, r)),
            Ok(ReplyView::InexactRoot { square }) => OutcomeView::ReplyRoot { square },
        },
    }
}

/// Serves the datagram `payload` from `peer`.
pub fn serve_datagram(codec: Codec, handler: Handler, payload: &[u8], peer: &PeerInfo) -> (r:
    Outcome)
    ensures
        r@ == datagram_outcome(codec, handler, payload@),
{
    match codec.decode(payload) {
        Err(e) => Outcome::Undecodable(e),
        Ok(m) => match handler.handle(m, peer) {
            Err(e) => Outcome::Refused(e),
            Ok(Reply::Message(r)) => Outcome::Reply(codec.encode(&r)),
            Ok(Reply::InexactRoot { square }) => Outcome::ReplyRoot { square },
        },
    }
}

/// A raw echo service answers every datagram with exactly its own payload,
/// whatever came before it.
pub proof fn lemma_echo_datagram(payload: Seq<u8>)
    ensures
        datagram_outcome(Codec::Raw, Handler::Echo, payload) == OutcomeView::Reply(payload),
{
}

} // verus!
