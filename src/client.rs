//! The client side of a connection: what to send for a line of input, and
//! when a response is complete. The caller owns the socket and its timeouts.

use vstd::prelude::*;
use crate::codec::{encoding, find_frame_end, frame_len, has_frame, lemma_frame_end_unique, Codec};
use crate::decimal::{parse_u32, u32_of};
use crate::message::{Message, MessageView};

verus! {

/// Transport failures, as the client and servers see them.
#[derive(Clone, Copy, PartialEq, Eq, Structural, Debug)]
pub enum IoError {
    /// No answer within the configured time.
    TimedOut,
    AddrInUse,
    InvalidAddress,
    ConnectionRefused,
    ConnectionReset,
    BrokenPipe,
    Other,
}

#[derive(Clone, Copy, PartialEq, Eq, Structural, Debug)]
pub enum ClientError {
    Io(IoError),
    /// The server closed the connection before a whole response came.
    ConnectionClosed,
    /// A request is already under way, or the client has failed.
    NotReady,
}

#[derive(Clone, Copy, PartialEq, Eq, Structural, Debug)]
pub enum ClientPhase {
    Ready,
    AwaitingResponse,
    Failed,
}

/// The client's end of one connection.
pub struct Client {
    codec: Codec,
    phase: ClientPhase,
    buffer: Vec<u8>,
}

pub struct ClientView {
    pub codec: Codec,
    pub phase: ClientPhase,
    /// Bytes of the response received so far.
    pub buffer: Seq<u8>,
}

impl View for Client {
    type V = ClientView;

    closed spec fn view(&self) -> ClientView {
        ClientView { codec: self.codec, phase: self.phase, buffer: self.buffer@ }
    }
}

/// Where a request stands after a read.
pub enum Progress {
    /// The response is not complete yet: read again.
    NeedMore,
    /// The response: on a line-delimited connection, the line without its
    /// line feed.
    Response(Message),
    Failed(ClientError),
}

pub enum ProgressView {
    NeedMore,
    Response(MessageView),
    Failed(ClientError),
}

impl View for Progress {
    type V = ProgressView;

    open spec fn view(&self) -> ProgressView {
        match self {
            Progress::NeedMore => ProgressView::NeedMore,
            Progress::Response(m) => ProgressView::Response(m@),
            Progress::Failed(e) => ProgressView::Failed(*e),
        }
    }
}

/// The client after a read that returned `b`, and where the request stands.
pub open spec fn received(c: ClientView, b: Seq<u8>) -> (ClientView, ProgressView) {
    if c.phase != ClientPhase::AwaitingResponse {
        (c, ProgressView::Failed(ClientError::NotReady))
    } else if b.len() == 0 {
        (ClientView { phase: ClientPhase::Failed, ..c }, ProgressView::Failed(ClientError::ConnectionClosed))
    } else {
        let buf = c.buffer + b;
        match c.codec {
            Codec::Raw => (
                ClientView { phase: ClientPhase::Ready, buffer: Seq::empty(), ..c },
                ProgressView::Response(MessageView::Bytes(buf)),
            ),
            Codec::DelimitedJson => {
                if has_frame(buf) {
                    (
                        ClientView {
                            phase: ClientPhase::Ready,
                            buffer: buf.subrange(frame_len(buf) + 1, buf.len() as int),
                            ..c
                        },
                        ProgressView::Response(MessageView::Bytes(buf.subrange(0, frame_len(buf)))),
                    )
                } else {
                    (ClientView { buffer: buf, ..c }, ProgressView::NeedMore)
                }
            },
        }
    }
}

pub open spec fn trim_front(s: Seq<u8>) -> Seq<u8>
    decreases s.len(),
{
    if s.len() > 0 && s[0] == 10 {
        trim_front(s.drop_first())
    } else {
        s
    }
}

pub open spec fn trim_back(s: Seq<u8>) -> Seq<u8>
    decreases s.len(),
{
    if s.len() > 0 && s.last() == 10 {
        trim_back(s.drop_last())
    } else {
        s
    }
}

/// `s` without the line feeds at either end.
pub open spec fn trim_line_feeds(s: Seq<u8>) -> Seq<u8> {
    trim_back(trim_front(s))
}

/// The comma-separated pieces of `s`; there is always at least one.
pub open spec fn pieces(s: Seq<u8>) -> Seq<Seq<u8>>
    decreases s.len(),
{
    if s.len() == 0 {
        seq![Seq::empty()]
    } else {
        let p = pieces(s.drop_last());
        if s.last() == 44 {
            p.push(Seq::empty())
        } else {
            p.update(p.len() - 1, p.last().push(s.last()))
        }
    }
}

/// The point typed as `x,y,z`: the first three comma-separated pieces of the
/// line, line feeds at its ends left out, each a `u32`.
pub open spec fn point_from_text(line: Seq<u8>) -> Option<MessageView> {
    let p = pieces(trim_line_feeds(line));
    if p.len() >= 3 && u32_of(p[0]) is Some && u32_of(p[1]) is Some && u32_of(p[2]) is Some {
        Some(MessageView::Vector3 { x: u32_of(p[0])->0, y: u32_of(p[1])->0, z: u32_of(p[2])->0 })
    } else {
        None
    }
}

/// The request for a line of input: the line itself on a raw connection, the
/// point it names on a line-delimited one.
pub open spec fn request_for_line(codec: Codec, line: Seq<u8>) -> Option<MessageView> {
    match codec {
        Codec::Raw => Some(MessageView::Bytes(line)),
        Codec::DelimitedJson => point_from_text(line),
    }
}

proof fn lemma_pieces_nonempty(s: Seq<u8>)
    ensures
        pieces(s).len() >= 1,
    decreases s.len(),
{
    if s.len() > 0 {
        lemma_pieces_nonempty(s.drop_last());
    }
}

pub open spec fn views(v: Seq<Vec<u8>>) -> Seq<Seq<u8>> {
    v.map_values(|b: Vec<u8>| b@)
}

/// The comma-separated pieces of `s`.
pub fn split_commas(s: &[u8]) -> (r: Vec<Vec<u8>>)
    ensures
        views(r@) == pieces(s@),
{
    let mut done: Vec<Vec<u8>> = Vec::new();
    let mut cur: Vec<u8> = Vec::new();
    let mut i: usize = 0;
    assert(s@.subrange(0, 0) =~= Seq::<u8>::empty());
    assert(views(done@).push(cur@) =~= pieces(s@.subrange(0, 0)));
    while i < s.len()
        invariant
            i <= s.len(),
            views(done@).push(cur@) == pieces(s@.subrange(0, i as int)),
        decreases s.len() - i,
    {
        let ghost before = s@.subrange(0, i as int);
        assert(s@.subrange(0, i + 1).drop_last() =~= before);
        proof {
            lemma_pieces_nonempty(before);
        }
        if s[i] == 44 {
            let piece = cur;
            cur = Vec::new();
            done.push(piece);
            assert(views(done@).push(cur@) =~= pieces(s@.subrange(0, i + 1)));
        } else {
            cur.push(s[i]);
            assert(views(done@).push(cur@) =~= pieces(s@.subrange(0, i + 1)));
        }
        i = i + 1;
    }
    assert(s@.subrange(0, s@.len() as int) =~= s@);
    done.push(cur);
    assert(views(done@) =~= pieces(s@));
    done
}

/// `s` without the line feeds at either end.
pub fn trim_newlines(s: &[u8]) -> (r: &[u8])
    ensures
        r@ == trim_line_feeds(s@),
{
    let mut start: usize = 0;
    assert(s@.subrange(0, s@.len() as int) =~= s@);
    while start < s.len() && s[start] == 10
        invariant
            start <= s.len(),
            trim_front(s@) == trim_front(s@.subrange(start as int, s@.len() as int)),
        decreases s.len() - start,
    {
        assert(s@.subrange(start as int, s@.len() as int).drop_first() =~= s@.subrange(
            start + 1,
            s@.len() as int,
        ));
        start = start + 1;
    }
    let ghost u = s@.subrange(start as int, s@.len() as int);
    assert(trim_front(s@) == u);
    let mut end: usize = s.len();
    assert(u.subrange(0, u.len() as int) =~= u);
    while end > start && s[end - 1] == 10
        invariant
            start <= end <= s.len(),
            u == s@.subrange(start as int, s@.len() as int),
            trim_back(u) == trim_back(u.subrange(0, end - start)),
        decreases end,
    {
        assert(u.subrange(0, end - start).drop_last() =~= u.subrange(0, end - 1 - start));
        end = end - 1;
    }
    let r = vstd::slice::slice_subrange(s, start, end);
    assert(r@ =~= u.subrange(0, end - start));
    r
}

/// The request to send for a line of input, if the line names one.
pub fn request_from_line(codec: Codec, line: &[u8]) -> (r: Option<Message>)
    ensures
        r is Some <==> request_for_line(codec, line@) is Some,
        r is Some ==> r->0@ == request_for_line(codec, line@)->0,
{
    match codec {
        Codec::Raw => Some(Message::Bytes(vstd::slice::slice_to_vec(line))),
        Codec::DelimitedJson => {
            let parts = split_commas(trim_newlines(line));
            if parts.len() < 3 {
                return None;
            }
            assert(parts@[0]@ == views(parts@)[0]);
            assert(parts@[1]@ == views(parts@)[1]);
            assert(parts@[2]@ == views(parts@)[2]);
            let x = parse_u32(parts[0].as_slice());
            let y = parse_u32(parts[1].as_slice());
            let z = parse_u32(parts[2].as_slice());
            match (x, y, z) {
                (Some(x), Some(y), Some(z)) => Some(Message::Vector3 { x, y, z }),
                _ => None,
            }
        },
    }
}

impl Client {
    /// A client on a connection that has just been made.
    pub fn new(codec: Codec) -> (r: Client)
        ensures
            r@ == (ClientView { codec, phase: ClientPhase::Ready, buffer: Seq::empty() }),
    {
        Client { codec, phase: ClientPhase::Ready, buffer: Vec::new() }
    }

    pub fn phase(&self) -> (r: ClientPhase)
        ensures
            r == self@.phase,
    {
        self.phase
    }

    /// The bytes to write for request `m`, which must be written in full; the
    /// client then waits for the response. One request at a time.
    pub fn send(&mut self, m: &Message) -> (r: Result<Vec<u8>, ClientError>)
        ensures
            old(self)@.phase == ClientPhase::Ready ==> r is Ok && r->Ok_0@ == encoding(
                old(self)@.codec,
                m@,
            ) && final(self)@ == (ClientView {
                phase: ClientPhase::AwaitingResponse,
                ..old(self)@
            }),
            old(self)@.phase != ClientPhase::Ready ==> r == Err::<Vec<u8>, ClientError>(
                ClientError::NotReady,
            ) && final(self)@ == old(self)@,
    {
        if self.phase != ClientPhase::Ready {
            return Err(ClientError::NotReady);
        }
        self.phase = ClientPhase::AwaitingResponse;
        Ok(self.codec.encode(m))
    }

    /// Takes the bytes that a read returned; none at all means the server
    /// closed the connection.
    pub fn receive(&mut self, b: Vec<u8>) -> (r: Progress)
        ensures
            (final(self)@, r@) == received(old(self)@, b@),
    {
        if self.phase != ClientPhase::AwaitingResponse {
            return Progress::Failed(ClientError::NotReady);
        }
        if b.len() == 0 {
            self.phase = ClientPhase::Failed;
            return Progress::Failed(ClientError::ConnectionClosed);
        }
        let mut b = b;
        self.buffer.append(&mut b);
        match self.codec {
            Codec::Raw => {
                let ghost buf = self.buffer@;
                let whole = self.buffer.split_off(0);
                assert(whole@ =~= buf);
                assert(self.buffer@ =~= Seq::<u8>::empty());
                self.phase = ClientPhase::Ready;
                Progress::Response(Message::Bytes(whole))
            },
            Codec::DelimitedJson => match find_frame_end(self.buffer.as_slice()) {
                None => Progress::NeedMore,
                Some(n) => {
                    proof {
                        lemma_frame_end_unique(self.buffer@, n as int);
                    }
                    let ghost buf = self.buffer@;
                    assert(n < self.buffer.len());
                    let mut line = self.buffer.split_off(0);
                    let rest = line.split_off(n + 1);
                    line.pop();
                    assert(line@ =~= buf.subrange(0, n as int));
                    assert(rest@ =~= buf.subrange(n + 1, buf.len() as int));
                    self.buffer = rest;
                    self.phase = ClientPhase::Ready;
                    Progress::Response(Message::Bytes(line))
                },
            },
        }
    }

    /// Takes a failed read or write, a timeout among them: the client has
    /// failed, and says why.
    pub fn fail(&mut self, e: IoError) -> (r: ClientError)
        ensures
            r == ClientError::Io(e),
            final(self)@ == (ClientView { phase: ClientPhase::Failed, ..old(self)@ }),
    {
        self.phase = ClientPhase::Failed;
        ClientError::Io(e)
    }
}

} // verus!
