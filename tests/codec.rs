use netservice::codec::{point_from_members, Codec, CodecError};
use netservice::decimal::{decimal_text, parse_u32};
use netservice::message::Message;

fn bytes_of(m: &Message) -> Vec<u8> {
    match m {
        Message::Bytes(b) => b.clone(),
        Message::Vector3 { .. } => panic!("expected bytes"),
    }
}

fn point_of(r: Result<Message, CodecError>) -> (u32, u32, u32) {
    match r {
        Ok(Message::Vector3 { x, y, z }) => (x, y, z),
        _ => panic!("expected a point"),
    }
}

#[test]
fn raw_round_trip_keeps_bytes() {
    for b in [vec![], vec![0u8, 10, 255], b"hello\n".to_vec()] {
        let m = Message::Bytes(b.clone());
        let wire = Codec::Raw.encode(&m);
        assert_eq!(wire, b);
        let back = Codec::Raw.decode(&wire).unwrap();
        assert_eq!(bytes_of(&back), b);
    }
}

#[test]
fn json_encoding_is_compact_line() {
    let wire = Codec::DelimitedJson.encode(&Message::Vector3 { x: 3, y: 4, z: 0 });
    assert_eq!(wire, b"{\"x\":3,\"y\":4,\"z\":0}\n".to_vec());
    let raw = Codec::Raw.encode(&Message::Vector3 { x: 1, y: 22, z: 333 });
    assert_eq!(raw, b"{\"x\":1,\"y\":22,\"z\":333}".to_vec());
}

#[test]
fn json_round_trip() {
    for (x, y, z) in [(3, 4, 0), (0, 0, 0), (u32::MAX, 7, u32::MAX), (1, 2, 3)] {
        let wire = Codec::DelimitedJson.encode(&Message::Vector3 { x, y, z });
        assert_eq!(point_of(Codec::DelimitedJson.decode(&wire)), (x, y, z));
    }
}

#[test]
fn malformed_json_rejected() {
    let r = Codec::DelimitedJson.decode(b"{not json}\n");
    assert!(matches!(r, Err(CodecError::Malformed)));
}

#[test]
fn missing_member_or_wrong_value_is_malformed() {
    assert!(matches!(
        Codec::DelimitedJson.decode(b"{\"x\":1,\"y\":2}\n"),
        Err(CodecError::Malformed)
    ));
    assert!(matches!(
        Codec::DelimitedJson.decode(b"{\"x\":1,\"y\":2,\"z\":4294967296}\n"),
        Err(CodecError::Malformed)
    ));
    assert!(matches!(
        Codec::DelimitedJson.decode(b"{\"x\":-1,\"y\":2,\"z\":3}\n"),
        Err(CodecError::Malformed)
    ));
}

#[test]
fn frame_without_line_feed_is_incomplete() {
    assert!(matches!(
        Codec::DelimitedJson.decode(b"{\"x\":1,\"y\":2,\"z\":3}"),
        Err(CodecError::Incomplete)
    ));
    assert!(matches!(Codec::DelimitedJson.decode(b""), Err(CodecError::Incomplete)));
}

#[test]
fn only_first_frame_is_read() {
    let r = Codec::DelimitedJson.decode(b" {\"z\": 9, \"y\": 8, \"x\": 7}\n{garbage");
    assert_eq!(point_of(r), (7, 8, 9));
}

#[test]
fn line_delimited_bytes_become_a_text_line() {
    let wire = Codec::DelimitedJson.encode(&Message::Bytes(b"5".to_vec()));
    assert_eq!(wire, b"5\n".to_vec());
}

#[test]
fn decimal_numerals() {
    assert_eq!(decimal_text(0), b"0".to_vec());
    assert_eq!(decimal_text(5), b"5".to_vec());
    assert_eq!(decimal_text(1234567890), b"1234567890".to_vec());
}

#[test]
fn parses_u32_like_from_str() {
    assert_eq!(parse_u32(b"0"), Some(0));
    assert_eq!(parse_u32(b"+42"), Some(42));
    assert_eq!(parse_u32(b"4294967295"), Some(u32::MAX));
    assert_eq!(parse_u32(b"4294967296"), None);
    assert_eq!(parse_u32(b""), None);
    assert_eq!(parse_u32(b"+"), None);
    assert_eq!(parse_u32(b"12a"), None);
    assert_eq!(parse_u32(b" 1"), None);
    assert_eq!(parse_u32(b"-1"), None);
}

#[test]
fn point_needs_all_three_members() {
    let m = |k: &str, v: u32| (String::from(k), v);
    let full = vec![m("w", 1), m("x", 2), m("y", 3), m("z", 4)];
    assert_eq!(point_of(point_from_members(&full)), (2, 3, 4));
    let partial = vec![m("x", 2), m("z", 4)];
    assert!(matches!(point_from_members(&partial), Err(CodecError::Malformed)));
    assert!(matches!(point_from_members(&vec![]), Err(CodecError::Malformed)));
}
