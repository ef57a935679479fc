//! Converting messages to and from bytes on the wire.

use vstd::prelude::*;
use vstd::slice::slice_to_vec;
use vstd::string::*;
use crate::json::{
    json_to_object, lemma_object_text_one_line, lookup, member_value, members_view,
    object_text, object_to_json, ordered_plain, parsed_u32_object,
};
use crate::message::{Message, MessageView};

verus! {

/// The wire representation of messages.
#[derive(Clone, Copy, PartialEq, Eq, Structural, Debug)]
pub enum Codec {
    /// Bytes pass through unchanged; a message is whatever one read returns.
    Raw,
    /// One JSON object per line, ended by a line feed.
    DelimitedJson,
}

#[derive(Clone, Copy, PartialEq, Eq, Structural, Debug)]
pub enum CodecError {
    /// No line feed has arrived yet: read more.
    Incomplete,
    /// The frame is not the JSON text of a point.
    Malformed,
}

pub open spec fn point_members(x: u32, y: u32, z: u32) -> Seq<(Seq<char>, u32)> {
    seq![(seq!['x'], x), (seq!['y'], y), (seq!['z'], z)]
}

/// `{"x":..,"y":..,"z":..}`
pub open spec fn point_json(x: u32, y: u32, z: u32) -> Seq<u8> {
    object_text(point_members(x, y, z))
}

/// The bytes that `codec` writes for `m`. A line-delimited `Bytes` message is
/// a plain text line.
pub open spec fn encoding(codec: Codec, m: MessageView) -> Seq<u8> {
    match m {
        MessageView::Bytes(b) => match codec {
            Codec::Raw => b,
            Codec::DelimitedJson => b.push(10),
        },
        MessageView::Vector3 { x, y, z } => match codec {
            Codec::Raw => point_json(x, y, z),
            Codec::DelimitedJson => point_json(x, y, z).push(10),
        },
    }
}

/// `i` is where the first line feed in `b` stands.
pub open spec fn is_frame_end(b: Seq<u8>, i: int) -> bool {
    0 <= i < b.len() && b[i] == 10 && forall|j: int| 0 <= j < i ==> b[j] != 10
}

pub open spec fn has_frame(b: Seq<u8>) -> bool {
    exists|i: int| is_frame_end(b, i)
}

/// The length of the first frame in `b`, its line feed excluded.
pub open spec fn frame_len(b: Seq<u8>) -> int {
    choose|i: int| is_frame_end(b, i)
}

/// The point that parsed members name.
pub open spec fn point_from(ms: Seq<(Seq<char>, u32)>) -> Result<MessageView, CodecError> {
    if lookup(ms, seq!['x']) is Some && lookup(ms, seq!['y']) is Some && lookup(
        ms,
        seq!['z'],
    ) is Some {
        Ok(
            MessageView::Vector3 {
                x: lookup(ms, seq!['x'])->0,
                y: lookup(ms, seq!['y'])->0,
                z: lookup(ms, seq!['z'])->0,
            },
        )
    } else {
        Err(CodecError::Malformed)
    }
}

/// The point that a frame's JSON text denotes.
pub open spec fn point_of(frame: Seq<u8>) -> Result<MessageView, CodecError> {
    match parsed_u32_object(frame) {
        Some(ms) => point_from(ms),
        None => Err(CodecError::Malformed),
    }
}

/// What `codec` reads from `b`.
pub open spec fn decoding(codec: Codec, b: Seq<u8>) -> Result<MessageView, CodecError> {
    match codec {
        Codec::Raw => Ok(MessageView::Bytes(b)),
        Codec::DelimitedJson => {
            if has_frame(b) {
                point_of(b.subrange(0, frame_len(b)))
            } else {
                Err(CodecError::Incomplete)
            }
        },
    }
}

pub open spec fn result_view(r: Result<Message, CodecError>) -> Result<MessageView, CodecError> {
    match r {
        Ok(m) => Ok(m@),
        Err(e) => Err(e),
    }
}

/// Where the first line feed in `b` stands, if there is one.
pub fn find_frame_end(b: &[u8]) -> (r: Option<usize>)
    ensures
        r is Some ==> is_frame_end(b@, r->0 as int),
        r is None ==> !has_frame(b@),
{
    let mut i: usize = 0;
    while i < b.len()
        invariant
            i <= b.len(),
            forall|j: int| 0 <= j < i ==> b@[j] != 10,
        decreases b.len() - i,
    {
        if b[i] == 10 {
            return Some(i);
        }
        i = i + 1;
    }
    None
}

pub proof fn lemma_frame_end_unique(b: Seq<u8>, i: int)
    requires
        is_frame_end(b, i),
    ensures
        has_frame(b),
        frame_len(b) == i,
{
    let k = frame_len(b);
    assert(is_frame_end(b, k));
    if k < i {
        assert(b[k] != 10);
    } else if i < k {
        assert(b[i] != 10);
    }
}

fn key(c: &str) -> (r: String)
    ensures
        r@ == c@,
{
    String::from_str(c)
}

/// The point that a JSON object's members name: `x`, `y` and `z` must all be
/// there; other members are ignored.
pub fn point_from_members(members: &Vec<(String, u32)>) -> (r: Result<Message, CodecError>)
    ensures
        result_view(r) == point_from(members_view(members@)),
{
    let kx = key("x");
    let ky = key("y");
    let kz = key("z");
    proof {
        reveal_strlit("x");
        reveal_strlit("y");
        reveal_strlit("z");
        assert(kx@ == seq!['x']);
        assert(ky@ == seq!['y']);
        assert(kz@ == seq!['z']);
    }
    let vx = member_value(members, &kx);
    let vy = member_value(members, &ky);
    let vz = member_value(members, &kz);
    match (vx, vy, vz) {
        (Some(x), Some(y), Some(z)) => Ok(Message::Vector3 { x, y, z }),
        _ => Err(CodecError::Malformed),
    }
}

proof fn lemma_point_members(x: u32, y: u32, z: u32)
    ensures
        ordered_plain(point_members(x, y, z)),
        point_from(point_members(x, y, z)) == Ok::<MessageView, CodecError>(
            MessageView::Vector3 { x, y, z },
        ),
{
    let ms = point_members(x, y, z);
    assert(seq!['x'].drop_first() =~= Seq::<char>::empty());
    assert(seq!['y'].drop_first() =~= Seq::<char>::empty());
    assert(ms[0].0 == seq!['x']);
    assert(ms[1].0 == seq!['y']);
    assert(ms[2].0 == seq!['z']);
    reveal_with_fuel(lookup, 4);
    assert(ms.drop_first().drop_first().drop_first().len() == 0);
    assert(ms.drop_first()[0].0 == seq!['y']);
    assert(ms.drop_first().drop_first()[0].0 == seq!['z']);
    assert(seq!['y'][0] == 'y');
    assert(seq!['z'][0] == 'z');
    assert(seq!['x'][0] == 'x');
    assert(seq!['x'] != seq!['y'] && seq!['x'] != seq!['z']);
    assert(seq!['y'] != seq!['z']);
}

fn point_from_frame(frame: &[u8]) -> (r: Result<Message, CodecError>)
    ensures
        result_view(r) == point_of(frame@),
        forall|x: u32, y: u32, z: u32|
            frame@ == #[trigger] point_json(x, y, z) ==> r == Ok::<Message, CodecError>(
                Message::Vector3 { x, y, z },
            ),
{
    match json_to_object(frame) {
        None => Err(CodecError::Malformed),
        Some(members) => {
            let r = point_from_members(&members);
            proof {
                assert forall|x: u32, y: u32, z: u32|
                    frame@ == #[trigger] point_json(x, y, z) implies r == Ok::<Message, CodecError>(
                    Message::Vector3 { x, y, z },
                ) by {
                    lemma_point_members(x, y, z);
                    assert(members_view(members@) == point_members(x, y, z));
                }
            }
            r
        },
    }
}

impl Codec {
    /// The bytes to send for `m`.
    pub fn encode(&self, m: &Message) -> (r: Vec<u8>)
        ensures
            r@ == encoding(*self, m@),
    {
        let mut out: Vec<u8> = match m {
            Message::Bytes(b) => b.clone(),
            Message::Vector3 { x, y, z } => {
                let kx = key("x");
                let ky = key("y");
                let kz = key("z");
                proof {
                    reveal_strlit("x");
                    reveal_strlit("y");
                    reveal_strlit("z");
                    assert(kx@ == seq!['x']);
                    assert(ky@ == seq!['y']);
                    assert(kz@ == seq!['z']);
                }
                let members = vec![(kx, *x), (ky, *y), (kz, *z)];
                proof {
                    assert(members_view(members@) =~= point_members(*x, *y, *z));
                    lemma_point_members(*x, *y, *z);
                }
                object_to_json(&members)
            },
        };
        match self {
            Codec::Raw => {},
            Codec::DelimitedJson => out.push(10),
        }
        out
    }

    /// The message at the front of `b`. Line-delimited JSON reads only the
    /// first frame, up to its line feed.
    pub fn decode(&self, b: &[u8]) -> (r: Result<Message, CodecError>)
        ensures
            result_view(r) == decoding(*self, b@),
            forall|x: u32, y: u32, z: u32|
                self is DelimitedJson && b@ == #[trigger] encoding(
                    *self,
                    MessageView::Vector3 { x, y, z },
                ) ==> r == Ok::<Message, CodecError>(Message::Vector3 { x, y, z }),
    {
        proof {
            assert forall|x: u32, y: u32, z: u32|
                b@ == #[trigger] encoding(
                    Codec::DelimitedJson,
                    MessageView::Vector3 { x, y, z },
                ) implies is_frame_end(b@, point_json(x, y, z).len() as int) by {
                lemma_point_members(x, y, z);
                lemma_object_text_one_line(point_members(x, y, z));
            }
        }
        match self {
            Codec::Raw => Ok(Message::Bytes(slice_to_vec(b))),
            Codec::DelimitedJson => match find_frame_end(b) {
                None => Err(CodecError::Incomplete),
                Some(n) => {
                    proof {
                        lemma_frame_end_unique(b@, n as int);
                    }
                    let frame = slice_prefix(b, n);
                    let r = point_from_frame(frame);
                    proof {
                        assert forall|x: u32, y: u32, z: u32|
                            b@ == #[trigger] encoding(
                                *self,
                                MessageView::Vector3 { x, y, z },
                            ) implies r == Ok::<Message, CodecError>(
                            Message::Vector3 { x, y, z },
                        ) by {
                            let t = point_json(x, y, z);
                            lemma_point_members(x, y, z);
                            lemma_object_text_one_line(point_members(x, y, z));
                            assert(is_frame_end(b@, t.len() as int));
                            lemma_frame_end_unique(b@, t.len() as int);
                            assert(frame@ =~= t);
                        }
                    }
                    r
                },
            },
        }
    }
}

/// Raw decoding gives back exactly the bytes that raw encoding wrote.
pub proof fn lemma_raw_round_trip(b: Seq<u8>)
    ensures
        decoding(Codec::Raw, encoding(Codec::Raw, MessageView::Bytes(b))) == Ok::<
            MessageView,
            CodecError,
        >(MessageView::Bytes(b)),
{
}

fn slice_prefix(b: &[u8], n: usize) -> (r: &[u8])
    requires
        n <= b@.len(),
    ensures
        r@ == b@.subrange(0, n as int),
{
    let (front, _) = b.split_at(n);
    front
}

} // verus!
