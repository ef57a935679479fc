//! One stream connection, seen from the server: a state machine that takes
//! what the socket reported and says what to do next. The caller owns the
//! socket, performs each action and reports its outcome, one connection per
//! worker.

use vstd::prelude::*;
use crate::codec::{decoding, encoding, frame_len, Codec, CodecError};
use crate::handler::{handled, handled_view, Handler, HandlerError, Reply, ReplyView};
use crate::message::{Message, MessageView, PeerInfo};

verus! {

/// Where a connection stands between two events.
#[derive(Clone, Copy, PartialEq, Eq, Structural, Debug)]
pub enum Phase {
    /// Waiting for bytes from the peer.
    Reading,
    /// Waiting for the decimal text of a root.
    AwaitingRoot,
    /// Waiting for a response to be written in full.
    Writing,
    /// Done; the connection is to be released.
    Closed,
}

/// Why a connection ended.
#[derive(Clone, Copy, PartialEq, Eq, Structural, Debug)]
pub enum CloseReason {
    /// A read returned no bytes.
    PeerClosed,
    /// A frame held no valid request.
    Malformed,
    /// The handler refused the request.
    WrongShape,
    ReadFailed,
    WriteFailed,
    /// An event came that the connection was not waiting for.
    OutOfOrder,
}

/// What the socket, or the caller, reports.
pub enum Event {
    /// A read returned these bytes; none at all means the peer closed.
    Received(Vec<u8>),
    /// The decimal text of the root that `Action::FormatRoot` asked for.
    RootText(Vec<u8>),
    /// The last write completed.
    Written,
    ReadFailed,
    WriteFailed,
}

pub enum EventView {
    Received(Seq<u8>),
    RootText(Seq<u8>),
    Written,
    ReadFailed,
    WriteFailed,
}

impl View for Event {
    type V = EventView;

    open spec fn view(&self) -> EventView {
        match self {
            Event::Received(b) => EventView::Received(b@),
            Event::RootText(t) => EventView::RootText(t@),
            Event::Written => EventView::Written,
            Event::ReadFailed => EventView::ReadFailed,
            Event::WriteFailed => EventView::WriteFailed,
        }
    }
}

/// What to do next.
pub enum Action {
    /// Read from the peer.
    Read,
    /// Write all of these bytes to the peer.
    Write(Vec<u8>),
    /// Write out the square root of `square` in decimal, and report it as
    /// `Event::RootText`.
    FormatRoot { square: u128 },
    /// Release the connection.
    Close(CloseReason),
}

pub enum ActionView {
    Read,
    Write(Seq<u8>),
    FormatRoot { square: nat },
    Close(CloseReason),
}

impl View for Action {
    type V = ActionView;

    open spec fn view(&self) -> ActionView {
        match self {
            Action::Read => ActionView::Read,
            Action::Write(b) => ActionView::Write(b@),
            Action::FormatRoot { square } => ActionView::FormatRoot { square: *square as nat },
            Action::Close(c) => ActionView::Close(*c),
        }
    }
}

/// The state of one connection.
pub struct Session {
    codec: Codec,
    handler: Handler,
    peer: PeerInfo,
    buffer: Vec<u8>,
    phase: Phase,
}

pub struct SessionView {
    pub codec: Codec,
    pub handler: Handler,
    /// Bytes received and not yet taken as a request.
    pub buffer: Seq<u8>,
    pub phase: Phase,
}

impl View for Session {
    type V = SessionView;

    closed spec fn view(&self) -> SessionView {
        SessionView {
            codec: self.codec,
            handler: self.handler,
            buffer: self.buffer@,
            phase: self.phase,
        }
    }
}

/// The next phase, what stays buffered, and the action, for the handler's
/// answer `h`.
pub open spec fn respond(codec: Codec, h: Result<ReplyView, HandlerError>, rest: Seq<u8>) -> (
    Phase,
    Seq<u8>,
    ActionView,
) {
    match h {
        Err(_) => (Phase::Closed, rest, ActionView::Close(CloseReason::WrongShape)),
        Ok(ReplyView::Message(m)) => (Phase::Writing, rest, ActionView::Write(encoding(codec, m))),
        Ok(ReplyView::InexactRoot { square }) => (
            Phase::AwaitingRoot,
            rest,
            ActionView::FormatRoot { square },
        ),
    }
}

/// Taking the next request out of `buf`, if a whole one is there. A raw
/// connection takes everything buffered as one request.
pub open spec fn serve_buffer(codec: Codec, handler: Handler, buf: Seq<u8>) -> (
    Phase,
    Seq<u8>,
    ActionView,
) {
    match codec {
        Codec::Raw => {
            if buf.len() == 0 {
                (Phase::Reading, buf, ActionView::Read)
            } else {
                respond(codec, handled(handler, MessageView::Bytes(buf)), Seq::empty())
            }
        },
        Codec::DelimitedJson => match decoding(codec, buf) {
            Err(CodecError::Incomplete) => (Phase::Reading, buf, ActionView::Read),
            Err(CodecError::Malformed) => (
                Phase::Closed,
                buf,
                ActionView::Close(CloseReason::Malformed),
            ),
            Ok(m) => respond(
                codec,
                handled(handler, m),
                buf.subrange(frame_len(buf) + 1, buf.len() as int),
            ),
        },
    }
}

pub open spec fn with(s: SessionView, t: (Phase, Seq<u8>, ActionView)) -> (SessionView, ActionView) {
    (SessionView { phase: t.0, buffer: t.1, ..s }, t.2)
}

pub open spec fn closing(s: SessionView, c: CloseReason) -> (SessionView, ActionView) {
    (SessionView { phase: Phase::Closed, ..s }, ActionView::Close(c))
}

/// The connection after event `e`, and what to do next. A request is read
/// only once the response to the one before it is written.
pub open spec fn stepped(s: SessionView, e: EventView) -> (SessionView, ActionView) {
    match (s.phase, e) {
        (Phase::Reading, EventView::Received(b)) => {
            if b.len() == 0 {
                closing(s, CloseReason::PeerClosed)
            } else {
                with(s, serve_buffer(s.codec, s.handler, s.buffer + b))
            }
        },
        (Phase::AwaitingRoot, EventView::RootText(t)) => (
            SessionView { phase: Phase::Writing, ..s },
            ActionView::Write(encoding(s.codec, MessageView::Bytes(t))),
        ),
        (Phase::Writing, EventView::Written) => with(
            s,
            serve_buffer(s.codec, s.handler, s.buffer),
        ),
        (Phase::Closed, _) => closing(s, CloseReason::OutOfOrder),
        (_, EventView::ReadFailed) => closing(s, CloseReason::ReadFailed),
        (_, EventView::WriteFailed) => closing(s, CloseReason::WriteFailed),
        _ => closing(s, CloseReason::OutOfOrder),
    }
}

/// A raw echo connection waiting for a request answers a read with exactly the
/// bytes that it brought; the answer depends on nothing but the connection's
/// own state, so connections served side by side cannot mix their payloads.
pub proof fn lemma_echo_session_answers_own_bytes(s: SessionView, b: Seq<u8>)
    requires
        s.codec == Codec::Raw,
        s.handler == Handler::Echo,
        s.phase == Phase::Reading,
        s.buffer.len() == 0,
        b.len() > 0,
    ensures
        stepped(s, EventView::Received(b)).1 == ActionView::Write(b),
        stepped(s, EventView::Received(b)).0.phase == Phase::Writing,
        stepped(s, EventView::Received(b)).0.buffer.len() == 0,
{
    assert(s.buffer + b =~= b);
}

fn without_prefix(b: &Vec<u8>, n: usize) -> (r: Vec<u8>)
    requires
        n <= b@.len(),
    ensures
        r@ == b@.subrange(n as int, b@.len() as int),
{
    let rest = vstd::slice::slice_subrange(b.as_slice(), n, b.len());
    vstd::slice::slice_to_vec(rest)
}

impl Session {
    /// A connection from `peer`, waiting for its first request.
    pub fn new(codec: Codec, handler: Handler, peer: PeerInfo) -> (r: Session)
        ensures
            r@ == (SessionView { codec, handler, buffer: Seq::empty(), phase: Phase::Reading }),
    {
        Session { codec, handler, peer, buffer: Vec::new(), phase: Phase::Reading }
    }

    pub fn phase(&self) -> (r: Phase)
        ensures
            r == self@.phase,
    {
        self.phase
    }

    fn answer(&mut self, h: Result<Reply, HandlerError>, rest: Vec<u8>) -> (r: Action)
        ensures
            final(self)@ == with(old(self)@, respond(old(self)@.codec, handled_view(h), rest@)).0,
            r@ == respond(old(self)@.codec, handled_view(h), rest@).2,
    {
        self.buffer = rest;
        match h {
            Err(_) => {
                self.phase = Phase::Closed;
                Action::Close(CloseReason::WrongShape)
            },
            Ok(Reply::Message(m)) => {
                self.phase = Phase::Writing;
                Action::Write(self.codec.encode(&m))
            },
            Ok(Reply::InexactRoot { square }) => {
                self.phase = Phase::AwaitingRoot;
                Action::FormatRoot { square }
            },
        }
    }

    /// Takes the next request out of the buffer, if a whole one is there.
    fn serve(&mut self) -> (r: Action)
        ensures
            final(self)@ == with(
                old(self)@,
                serve_buffer(old(self)@.codec, old(self)@.handler, old(self)@.buffer),
            ).0,
            r@ == serve_buffer(old(self)@.codec, old(self)@.handler, old(self)@.buffer).2,
    {
        match self.codec {
            Codec::Raw => {
                if self.buffer.len() == 0 {
                    self.phase = Phase::Reading;
                    return Action::Read;
                }
                let ghost before = self.buffer@;
                let taken = self.buffer.split_off(0);
                assert(taken@ =~= before);
                let request = Message::Bytes(taken);
                let h = self.handler.handle(request, &self.peer);
                self.answer(h, Vec::new())
            },
            Codec::DelimitedJson => {
                let decoded = self.codec.decode(self.buffer.as_slice());
                match decoded {
                    Err(CodecError::Incomplete) => {
                        self.phase = Phase::Reading;
                        Action::Read
                    },
                    Err(CodecError::Malformed) => {
                        self.phase = Phase::Closed;
                        Action::Close(CloseReason::Malformed)
                    },
                    Ok(m) => {
                        let n = match crate::codec::find_frame_end(self.buffer.as_slice()) {
                            Some(n) => n,
                            None => {
                                assert(false);
                                0
                            },
                        };
                        proof {
                            crate::codec::lemma_frame_end_unique(self.buffer@, n as int);
                        }
                        assert(n < self.buffer.len());
                        let rest = without_prefix(&self.buffer, n + 1);
                        let h = self.handler.handle(m, &self.peer);
                        self.answer(h, rest)
                    },
                }
            },
        }
    }

    /// Takes event `e` and says what to do next.
    pub fn step(&mut self, e: Event) -> (r: Action)
        ensures
            (final(self)@, r@) == stepped(old(self)@, e@),
    {
        match (self.phase, e) {
            (Phase::Reading, Event::Received(mut b)) => {
                if b.len() == 0 {
                    self.phase = Phase::Closed;
                    Action::Close(CloseReason::PeerClosed)
                } else {
                    self.buffer.append(&mut b);
                    self.serve()
                }
            },
            (Phase::AwaitingRoot, Event::RootText(t)) => {
                self.phase = Phase::Writing;
                Action::Write(self.codec.encode(&Message::Bytes(t)))
            },
            (Phase::Writing, Event::Written) => self.serve(),
            (Phase::Closed, _) => Action::Close(CloseReason::OutOfOrder),
            (_, Event::ReadFailed) => {
                self.phase = Phase::Closed;
                Action::Close(CloseReason::ReadFailed)
            },
            (_, Event::WriteFailed) => {
                self.phase = Phase::Closed;
                Action::Close(CloseReason::WriteFailed)
            },
            _ => {
                self.phase = Phase::Closed;
                Action::Close(CloseReason::OutOfOrder)
            },
        }
    }
}

} // verus!
