use netservice::handler::{random_delay_secs, sum_of_squares, Handler, HandlerError, Reply};
use netservice::message::{Message, PeerInfo};

fn peer() -> PeerInfo {
    PeerInfo { address: String::from("127.0.0.1:9999") }
}

fn text_of(r: Result<Reply, HandlerError>) -> Vec<u8> {
    match r {
        Ok(Reply::Message(Message::Bytes(b))) => b,
        _ => panic!("expected text"),
    }
}

#[test]
fn norm_of_whole_roots() {
    let h = Handler::Vector3Norm;
    assert_eq!(text_of(h.handle(Message::Vector3 { x: 3, y: 4, z: 0 }, &peer())), b"5".to_vec());
    assert_eq!(text_of(h.handle(Message::Vector3 { x: 0, y: 0, z: 0 }, &peer())), b"0".to_vec());
    assert_eq!(text_of(h.handle(Message::Vector3 { x: 2, y: 3, z: 6 }, &peer())), b"7".to_vec());
}

#[test]
fn norm_of_inexact_root_leaves_square() {
    let r = Handler::Vector3Norm.handle(Message::Vector3 { x: 1, y: 1, z: 1 }, &peer());
    assert!(matches!(r, Ok(Reply::InexactRoot { square: 3 })));
}

#[test]
fn norm_of_largest_point_does_not_overflow() {
    let m = u32::MAX as u128;
    assert_eq!(sum_of_squares(u32::MAX, u32::MAX, u32::MAX), 3 * m * m);
    let r = Handler::Vector3Norm.handle(
        Message::Vector3 { x: u32::MAX, y: 0, z: 0 },
        &peer(),
    );
    assert_eq!(text_of(r), b"4294967295".to_vec());
}

#[test]
fn norm_refuses_bytes() {
    let r = Handler::Vector3Norm.handle(Message::Bytes(b"3,4,0".to_vec()), &peer());
    assert!(matches!(r, Err(HandlerError::WrongShape)));
}

#[test]
fn echo_returns_request() {
    let r = Handler::Echo.handle(Message::Bytes(b"ping".to_vec()), &peer());
    assert_eq!(text_of(r), b"ping".to_vec());
    let r = Handler::Echo.handle(Message::Vector3 { x: 1, y: 2, z: 3 }, &peer());
    assert!(matches!(r, Ok(Reply::Message(Message::Vector3 { x: 1, y: 2, z: 3 }))));
}

#[test]
fn random_delay_is_at_most_five_seconds() {
    for _ in 0..50 {
        assert!(random_delay_secs() <= 5);
    }
}
