use netservice::client::{request_from_line, Client, ClientError, ClientPhase, IoError, Progress};
use netservice::codec::Codec;
use netservice::message::Message;

#[test]
fn read_timeout_fails_the_client() {
    let mut c = Client::new(Codec::Raw);
    let wire = c.send(&Message::Bytes(b"hi\n".to_vec())).unwrap();
    assert_eq!(wire, b"hi\n".to_vec());
    assert_eq!(c.phase(), ClientPhase::AwaitingResponse);
    assert_eq!(c.fail(IoError::TimedOut), ClientError::Io(IoError::TimedOut));
    assert_eq!(c.phase(), ClientPhase::Failed);
    assert!(matches!(c.send(&Message::Bytes(vec![1])), Err(ClientError::NotReady)));
}

#[test]
fn json_request_and_text_response() {
    let mut c = Client::new(Codec::DelimitedJson);
    let m = request_from_line(Codec::DelimitedJson, b"3,4,0\n").unwrap();
    assert!(matches!(m, Message::Vector3 { x: 3, y: 4, z: 0 }));
    let wire = c.send(&m).unwrap();
    assert_eq!(wire, b"{\"x\":3,\"y\":4,\"z\":0}\n".to_vec());
    assert!(matches!(c.receive(b"5".to_vec()), Progress::NeedMore));
    match c.receive(b"\n".to_vec()) {
        Progress::Response(Message::Bytes(b)) => assert_eq!(b, b"5".to_vec()),
        _ => panic!("expected a response"),
    }
    assert_eq!(c.phase(), ClientPhase::Ready);
}

#[test]
fn one_request_at_a_time() {
    let mut c = Client::new(Codec::Raw);
    let _ = c.send(&Message::Bytes(b"a".to_vec())).unwrap();
    assert!(matches!(c.send(&Message::Bytes(b"b".to_vec())), Err(ClientError::NotReady)));
    match c.receive(b"a".to_vec()) {
        Progress::Response(Message::Bytes(b)) => assert_eq!(b, b"a".to_vec()),
        _ => panic!("expected a response"),
    }
    assert!(c.send(&Message::Bytes(b"b".to_vec())).is_ok());
}

#[test]
fn server_closing_fails_the_request() {
    let mut c = Client::new(Codec::DelimitedJson);
    let _ = c.send(&Message::Vector3 { x: 1, y: 2, z: 2 }).unwrap();
    assert!(matches!(c.receive(vec![]), Progress::Failed(ClientError::ConnectionClosed)));
    assert_eq!(c.phase(), ClientPhase::Failed);
}

#[test]
fn input_lines() {
    assert!(matches!(
        request_from_line(Codec::DelimitedJson, b"\n1,2,3,4\n\n"),
        Some(Message::Vector3 { x: 1, y: 2, z: 3 })
    ));
    assert!(request_from_line(Codec::DelimitedJson, b"1,2\n").is_none());
    assert!(request_from_line(Codec::DelimitedJson, b"1, 2, 3\n").is_none());
    assert!(request_from_line(Codec::DelimitedJson, b"a,b,c\n").is_none());
    assert!(request_from_line(Codec::DelimitedJson, b"").is_none());
    match request_from_line(Codec::Raw, b"free text\n") {
        Some(Message::Bytes(b)) => assert_eq!(b, b"free text\n".to_vec()),
        _ => panic!("expected bytes"),
    }
}
