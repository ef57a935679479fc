//! Request handlers: from a decoded request to a response.

use vstd::prelude::*;
use crate::decimal::{decimal, decimal_text};
use crate::message::{Message, MessageView, PeerInfo};

verus! {

/// The supplied request behaviours.
#[derive(Clone, Copy, PartialEq, Eq, Structural, Debug)]
pub enum Handler {
    /// Answers with the request itself.
    Echo,
    /// Answers a point with its Euclidean norm, as decimal text.
    Vector3Norm,
}

#[derive(Clone, Copy, PartialEq, Eq, Structural, Debug)]
pub enum HandlerError {
    /// The request is not of the shape that the handler needs.
    WrongShape,
}

/// A handler's answer.
pub enum Reply {
    /// A message to encode and send.
    Message(Message),
    /// The square root of `square`, which is not a whole number; it is sent as
    /// decimal text once written out.
    InexactRoot { square: u128 },
}

pub enum ReplyView {
    Message(MessageView),
    InexactRoot { square: nat },
}

impl View for Reply {
    type V = ReplyView;

    open spec fn view(&self) -> ReplyView {
        match self {
            Reply::Message(m) => ReplyView::Message(m@),
            Reply::InexactRoot { square } => ReplyView::InexactRoot { square: *square as nat },
        }
    }
}

pub open spec fn squares(x: u32, y: u32, z: u32) -> nat {
    (x * x + y * y + z * z) as nat
}

pub open spec fn is_square_root(r: nat, s: nat) -> bool {
    r * r == s
}

/// The norm of a point: its digits when the root is whole, else the square
/// left to be rooted.
pub open spec fn norm_reply(x: u32, y: u32, z: u32) -> ReplyView {
    let s = squares(x, y, z);
    if exists|r: nat| is_square_root(r, s) {
        ReplyView::Message(
            MessageView::Bytes(decimal(choose|r: nat| is_square_root(r, s))),
        )
    } else {
        ReplyView::InexactRoot { square: s }
    }
}

/// What `h` answers to `m`.
pub open spec fn handled(h: Handler, m: MessageView) -> Result<ReplyView, HandlerError> {
    match h {
        Handler::Echo => Ok(ReplyView::Message(m)),
        Handler::Vector3Norm => match m {
            MessageView::Vector3 { x, y, z } => Ok(norm_reply(x, y, z)),
            MessageView::Bytes(_) => Err(HandlerError::WrongShape),
        },
    }
}

pub open spec fn handled_view(r: Result<Reply, HandlerError>) -> Result<ReplyView, HandlerError> {
    match r {
        Ok(v) => Ok(v@),
        Err(e) => Err(e),
    }
}

proof fn lemma_square_fits(x: u32)
    ensures
        x * x <= 0xffff_fffe_0000_0001,
{
    assert(x * x <= 0xffff_ffffnat * 0xffff_ffffnat) by (nonlinear_arith)
        requires
            x <= 0xffff_ffffnat,
    ;
}

/// `x² + y² + z²`, exactly.
pub fn sum_of_squares(x: u32, y: u32, z: u32) -> (r: u128)
    ensures
        r as nat == squares(x, y, z),
{
    proof {
        lemma_square_fits(x);
        lemma_square_fits(y);
        lemma_square_fits(z);
    }
    let a = x as u64 * x as u64;
    let b = y as u64 * y as u64;
    let c = z as u64 * z as u64;
    a as u128 + b as u128 + c as u128
}

/// The whole part of the square root of `s`.
pub fn integer_sqrt(s: u128) -> (r: u128)
    requires
        s < 0x10_0000_0000_0000_0000,
    ensures
        r * r <= s < (r + 1) * (r + 1),
{
    let mut lo: u128 = 0;
    let mut hi: u128 = 0x4_0000_0000;
    assert(hi * hi == 0x10_0000_0000_0000_0000) by (nonlinear_arith)
        requires
            hi == 0x4_0000_0000u128,
    ;
    while hi - lo > 1
        invariant
            lo < hi <= 0x4_0000_0000,
            lo * lo <= s < hi * hi,
        decreases hi - lo,
    {
        let mid = lo + (hi - lo) / 2;
        assert(mid * mid <= 0x10_0000_0000_0000_0000) by (nonlinear_arith)
            requires
                mid <= 0x4_0000_0000u128,
        ;
        if mid * mid <= s {
            lo = mid;
        } else {
            hi = mid;
        }
    }
    lo
}

proof fn lemma_root_unique(r: nat, q: nat, s: nat)
    requires
        q * q <= s < (q + 1) * (q + 1),
        r * r == s,
    ensures
        r == q,
{
    if r < q {
        assert(r * r < q * q) by (nonlinear_arith)
            requires
                r < q,
        ;
    } else if r > q {
        assert((q + 1) * (q + 1) <= r * r) by (nonlinear_arith)
            requires
                q + 1 <= r,
        ;
    }
}

/// The norm of the point `(x, y, z)`.
pub fn vector3_norm(x: u32, y: u32, z: u32) -> (r: Reply)
    ensures
        r@ == norm_reply(x, y, z),
{
    let s = sum_of_squares(x, y, z);
    proof {
        lemma_square_fits(x);
        lemma_square_fits(y);
        lemma_square_fits(z);
    }
    let q = integer_sqrt(s);
    if q * q == s {
        proof {
            let ss = squares(x, y, z);
            assert(is_square_root(q as nat, ss));
            let c = choose|r: nat| is_square_root(r, ss);
            lemma_root_unique(c, q as nat, ss);
        }
        Reply::Message(Message::Bytes(decimal_text(q)))
    } else {
        proof {
            let ss = squares(x, y, z);
            assert forall|r: nat| !is_square_root(r, ss) by {
                if is_square_root(r, ss) {
                    lemma_root_unique(r, q as nat, ss);
                }
            }
        }
        Reply::InexactRoot { square: s }
    }
}

impl Handler {
    /// Answers one request from `peer`.
    pub fn handle(&self, m: Message, peer: &PeerInfo) -> (r: Result<Reply, HandlerError>)
        ensures
            handled_view(r) == handled(*self, m@),
    {
        match self {
            Handler::Echo => Ok(Reply::Message(m)),
            Handler::Vector3Norm => match m {
                Message::Vector3 { x, y, z } => Ok(vector3_norm(x, y, z)),
                Message::Bytes(_) => Err(HandlerError::WrongShape),
            },
        }
    }
}

/// Relies on `rand::seq::SliceRandom::choose` with `rand::thread_rng`: `None`
/// for an empty slice, else one of its elements.
#[verifier::external_body]
fn choose_one(options: &[u32]) -> (r: Option<u32>)
    ensures
        r is None <==> options@.len() == 0,
        r is Some ==> options@.contains(r->0),
{
    rand::seq::SliceRandom::choose(options, &mut rand::thread_rng()).copied()
}

/// A delay of zero to five seconds, drawn at random, for a handler that models
/// a slow backend.
pub fn random_delay_secs() -> (r: u32)
    ensures
        r <= 5,
{
    let options: Vec<u32> = vec![0, 1, 2, 3, 4, 5];
    match choose_one(options.as_slice()) {
        Some(secs) => {
            assert(options@.contains(secs));
            secs
        },
        None => 0,
    }
}

} // verus!
