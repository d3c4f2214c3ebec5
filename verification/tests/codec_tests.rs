use nsq_client::codec::{NsqCodec, NsqFramed, RawResponse};
use nsq_client::command::Command;

fn encode(cmd: Command) -> Vec<u8> {
    let mut codec = NsqCodec::new(true);
    let mut buf: Vec<u8> = Vec::new();
    codec.encode(cmd, &mut buf).unwrap();
    buf
}

fn frame(frame_type: u32, body: &[u8]) -> Vec<u8> {
    let mut buf: Vec<u8> = Vec::new();
    let len = (body.len() + 4) as u32;
    buf.extend_from_slice(&len.to_be_bytes());
    buf.extend_from_slice(&frame_type.to_be_bytes());
    buf.extend_from_slice(body);
    buf
}

fn decode_one(bytes: &[u8]) -> Result<Option<NsqFramed>, nsq_client::Error> {
    let mut codec = NsqCodec::new(true);
    let mut buf = bytes.to_vec();
    codec.decode(&mut buf)
}

#[test]
fn version_magic_is_bare() {
    assert_eq!(encode(Command::Version), b"  V2".to_vec());
}

#[test]
fn pub_encoding() {
    let bytes = encode(Command::Pub("foo".to_string(), b"hi".to_vec()));
    let mut expected = b"PUB foo\n".to_vec();
    expected.extend_from_slice(&2u32.to_be_bytes());
    expected.extend_from_slice(b"hi");
    assert_eq!(bytes, expected);
}

#[test]
fn mpub_encoding() {
    let bytes = encode(Command::Mpub(
        "foo".to_string(),
        vec![b"a".to_vec(), b"b".to_vec()],
    ));
    let mut expected = b"MPUB foo\n".to_vec();
    expected.extend_from_slice(&14u32.to_be_bytes());
    expected.extend_from_slice(&2u32.to_be_bytes());
    expected.extend_from_slice(&1u32.to_be_bytes());
    expected.extend_from_slice(b"a");
    expected.extend_from_slice(&1u32.to_be_bytes());
    expected.extend_from_slice(b"b");
    assert_eq!(bytes, expected);
}

#[test]
fn dpub_and_simple_commands() {
    assert_eq!(
        encode(Command::Dpub("t".to_string(), 750, b"x".to_vec())),
        {
            let mut e = b"DPUB t 750\n".to_vec();
            e.extend_from_slice(&1u32.to_be_bytes());
            e.push(b'x');
            e
        }
    );
    assert_eq!(encode(Command::Sub("t".to_string(), "c".to_string())), b"SUB t c\n".to_vec());
    assert_eq!(encode(Command::Rdy(25)), b"RDY 25\n".to_vec());
    assert_eq!(encode(Command::Fin("0123456789abcdef".to_string())), b"FIN 0123456789abcdef\n".to_vec());
    assert_eq!(encode(Command::Req("id".to_string(), 0)), b"REQ id 0\n".to_vec());
    assert_eq!(encode(Command::Touch("id".to_string()), ), b"TOUCH id\n".to_vec());
    assert_eq!(encode(Command::Close), b"CLS\n".to_vec());
    assert_eq!(encode(Command::Nop), b"NOP\n".to_vec());
}

#[test]
fn auth_encoding() {
    let bytes = encode(Command::Auth("secret".to_string()));
    let mut expected = b"AUTH\n".to_vec();
    expected.extend_from_slice(&6u32.to_be_bytes());
    expected.extend_from_slice(b"secret");
    assert_eq!(bytes, expected);
}

#[test]
fn identify_encoding_is_length_prefixed() {
    let body = b"{\"feature_negotiation\":true}".to_vec();
    let bytes = encode(Command::Identify(body.clone()));
    let mut expected = b"IDENTIFY\n".to_vec();
    expected.extend_from_slice(&(body.len() as u32).to_be_bytes());
    expected.extend_from_slice(&body);
    assert_eq!(bytes, expected);
}

#[test]
fn response_body_literals() {
    let ok = decode_one(&frame(0, b"OK")).unwrap().unwrap();
    assert_eq!(ok, NsqFramed::Response(RawResponse::Okay));
    let hb = decode_one(&frame(0, b"_heartbeat_")).unwrap().unwrap();
    assert_eq!(hb, NsqFramed::Response(RawResponse::Heartbeat));
    let cw = decode_one(&frame(0, b"CLOSE_WAIT")).unwrap().unwrap();
    assert_eq!(cw, NsqFramed::Response(RawResponse::CloseWait));
}

#[test]
fn response_body_otherwise_json() {
    let js = decode_one(&frame(0, b"{\"max_rdy_count\":2500}")).unwrap().unwrap();
    assert_eq!(
        js,
        NsqFramed::Response(RawResponse::Json("{\"max_rdy_count\":2500}".to_string()))
    );
    let bad = decode_one(&frame(0, b"mystery?"));
    assert!(matches!(bad, Err(nsq_client::Error::JsonError(_))));
}

#[test]
fn error_body_splits_on_first_space() {
    let decoded = decode_one(&frame(1, b"E_BAD_TOPIC topic is invalid")).unwrap().unwrap();
    match decoded {
        NsqFramed::Error(e) => {
            assert_eq!(e.code(), "E_BAD_TOPIC");
            assert_eq!(e.description(), "topic is invalid");
        }
        other => panic!("expected an error frame, got {:?}", other),
    }
}

#[test]
fn error_body_without_space_is_unknown() {
    let decoded = decode_one(&frame(1, b"mystery")).unwrap().unwrap();
    match decoded {
        NsqFramed::Error(e) => {
            assert_eq!(e.code(), "Unknown");
            assert_eq!(e.description(), "mystery");
        }
        other => panic!("expected an error frame, got {:?}", other),
    }
}

#[test]
fn message_frame_decoding() {
    let mut body: Vec<u8> = Vec::new();
    body.extend_from_slice(&1_700_000_000_000_000_000u64.to_be_bytes());
    body.extend_from_slice(&3u16.to_be_bytes());
    body.extend_from_slice(b"0123456789abcdef");
    body.extend_from_slice(b"payload");
    let decoded = decode_one(&frame(2, &body)).unwrap().unwrap();
    match decoded {
        NsqFramed::Message(m) => {
            assert_eq!(m.timestamp(), 1_700_000_000_000_000_000);
            assert_eq!(m.attempts(), 3);
            assert_eq!(m.message_id(), "0123456789abcdef");
            assert_eq!(m.body(), &b"payload".to_vec());
        }
        other => panic!("expected a message frame, got {:?}", other),
    }
}

#[test]
fn unknown_frame_type_is_fatal() {
    let r = decode_one(&frame(7, b"what"));
    assert!(matches!(r, Err(nsq_client::Error::IoError(_))));
}

#[test]
fn decode_is_incremental() {
    let mut codec = NsqCodec::new(true);
    let full = frame(0, b"OK");
    let mut buf = full[..3].to_vec();
    assert!(matches!(codec.decode(&mut buf), Ok(None)));
    buf.extend_from_slice(&full[3..7]);
    assert!(matches!(codec.decode(&mut buf), Ok(None)));
    buf.extend_from_slice(&full[7..]);
    let r = codec.decode(&mut buf).unwrap().unwrap();
    assert_eq!(r, NsqFramed::Response(RawResponse::Okay));
    assert!(buf.is_empty());
}

#[test]
fn decode_consumes_one_frame_at_a_time() {
    let mut codec = NsqCodec::new(true);
    let mut buf = frame(0, b"OK");
    buf.extend_from_slice(&frame(0, b"_heartbeat_"));
    let first = codec.decode(&mut buf).unwrap().unwrap();
    assert_eq!(first, NsqFramed::Response(RawResponse::Okay));
    let second = codec.decode(&mut buf).unwrap().unwrap();
    assert_eq!(second, NsqFramed::Response(RawResponse::Heartbeat));
    assert!(matches!(codec.decode(&mut buf), Ok(None)));
}

#[test]
fn empty_bodies_encode() {
    let bytes = encode(Command::Pub("t".to_string(), Vec::new()));
    let mut expected = b"PUB t\n".to_vec();
    expected.extend_from_slice(&0u32.to_be_bytes());
    assert_eq!(bytes, expected);

    let bytes = encode(Command::Mpub("t".to_string(), Vec::new()));
    let mut expected = b"MPUB t\n".to_vec();
    expected.extend_from_slice(&4u32.to_be_bytes());
    expected.extend_from_slice(&0u32.to_be_bytes());
    assert_eq!(bytes, expected);
}

#[test]
fn error_description_is_trimmed() {
    let decoded = decode_one(&frame(1, b"E_X   padded  \t")).unwrap().unwrap();
    match decoded {
        NsqFramed::Error(e) => {
            assert_eq!(e.code(), "E_X");
            assert_eq!(e.description(), "padded");
        }
        other => panic!("expected an error frame, got {:?}", other),
    }
}

#[test]
fn utf8_violations_are_reported() {
    let r = decode_one(&frame(1, &[0xff, 0xfe]));
    assert!(matches!(r, Err(nsq_client::Error::Utf8Error)));
}
