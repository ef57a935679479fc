use netservice::codec::Codec;
use netservice::handler::Handler;
use netservice::message::PeerInfo;
use netservice::stream::{Action, CloseReason, Event, Phase, Session};

fn session(codec: Codec, handler: Handler) -> Session {
    Session::new(codec, handler, PeerInfo { address: String::from("10.0.0.1:5000") })
}

fn written(a: Action) -> Vec<u8> {
    match a {
        Action::Write(b) => b,
        _ => panic!("expected a write"),
    }
}

#[test]
fn concurrent_echo_sessions_stay_apart() {
    let mut a = session(Codec::Raw, Handler::Echo);
    let mut b = session(Codec::Raw, Handler::Echo);
    let ra = a.step(Event::Received(b"from a".to_vec()));
    let rb = b.step(Event::Received(b"from b".to_vec()));
    assert_eq!(written(rb), b"from b".to_vec());
    assert!(matches!(b.step(Event::Written), Action::Read));
    let rb2 = b.step(Event::Received(b"b again".to_vec()));
    assert_eq!(written(ra), b"from a".to_vec());
    assert_eq!(written(rb2), b"b again".to_vec());
    assert!(matches!(a.step(Event::Written), Action::Read));
    assert_eq!(a.phase(), Phase::Reading);
}

#[test]
fn peer_closing_ends_session() {
    let mut s = session(Codec::Raw, Handler::Echo);
    assert!(matches!(s.step(Event::Received(vec![])), Action::Close(CloseReason::PeerClosed)));
    assert_eq!(s.phase(), Phase::Closed);
}

#[test]
fn json_session_waits_for_whole_frame() {
    let mut s = session(Codec::DelimitedJson, Handler::Vector3Norm);
    assert!(matches!(s.step(Event::Received(b"{\"x\":3,".to_vec())), Action::Read));
    let a = s.step(Event::Received(b"\"y\":4,\"z\":0}\n{\"x\":0,\"y\":0,\"z\":0}\n".to_vec()));
    assert_eq!(written(a), b"5\n".to_vec());
    // the second request was already buffered: it is served once the first answer is written
    assert_eq!(written(s.step(Event::Written)), b"0\n".to_vec());
    assert!(matches!(s.step(Event::Written), Action::Read));
}

#[test]
fn inexact_root_is_formatted_by_caller() {
    let mut s = session(Codec::DelimitedJson, Handler::Vector3Norm);
    let a = s.step(Event::Received(b"{\"x\":1,\"y\":1,\"z\":1}\n".to_vec()));
    assert!(matches!(a, Action::FormatRoot { square: 3 }));
    assert_eq!(s.phase(), Phase::AwaitingRoot);
    let a = s.step(Event::RootText(b"1.7320508075688772".to_vec()));
    assert_eq!(written(a), b"1.7320508075688772\n".to_vec());
}

#[test]
fn malformed_frame_closes_without_reply() {
    let mut s = session(Codec::DelimitedJson, Handler::Vector3Norm);
    let a = s.step(Event::Received(b"{not json}\n".to_vec()));
    assert!(matches!(a, Action::Close(CloseReason::Malformed)));
    assert!(matches!(s.step(Event::Written), Action::Close(CloseReason::OutOfOrder)));
}

#[test]
fn wrong_shape_and_io_failures_close() {
    let mut s = session(Codec::Raw, Handler::Vector3Norm);
    let a = s.step(Event::Received(b"3,4,0".to_vec()));
    assert!(matches!(a, Action::Close(CloseReason::WrongShape)));
    let mut w = session(Codec::Raw, Handler::Echo);
    let _ = w.step(Event::Received(b"x".to_vec()));
    assert!(matches!(w.step(Event::WriteFailed), Action::Close(CloseReason::WriteFailed)));
    let mut r = session(Codec::Raw, Handler::Echo);
    assert!(matches!(r.step(Event::ReadFailed), Action::Close(CloseReason::ReadFailed)));
}

#[test]
fn no_read_before_response_is_written() {
    let mut s = session(Codec::Raw, Handler::Echo);
    let _ = s.step(Event::Received(b"one".to_vec()));
    let a = s.step(Event::Received(b"two".to_vec()));
    assert!(matches!(a, Action::Close(CloseReason::OutOfOrder)));
}
