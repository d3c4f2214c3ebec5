use nsq_client::codec::{NsqCodec, NsqFramed, RawResponse};
use nsq_client::config::{Compress, Config};
use nsq_client::error::{Error, NsqError};
use nsq_client::handshake::{Handshake, HandshakeAction, HandshakeState};
use nsq_client::heartbeat::{route_batch, Heartbeat, Response, Routed};
use nsq_client::producer::{publish_reply, reader_step, sink_poll, ErrorChannel, ReaderAction};
use nsq_client::reconnect::{ConnState, Reconnect, ReconnectAction, Strategy};

fn caps_json(tls: bool, snappy: bool, deflate: bool, deflate_level: u32, auth: bool) -> String {
    format!(
        "{{\"max_rdy_count\":2500,\"auth_required\":{},\"deflate\":{},\"deflate_level\":{},\
         \"max_deflate_level\":6,\"max_msg_timeout\":900000,\"msg_timeout\":60000,\
         \"output_buffer_size\":16384,\"output_buffer_timeout\":250,\"sample_rate\":0,\
         \"snappy\":{},\"tls_v1\":{},\"version\":\"1.2.1\"}}",
        auth, deflate, deflate_level, snappy, tls
    )
}

fn message_frame() -> NsqFramed {
    let mut body: Vec<u8> = Vec::new();
    body.extend_from_slice(&1u64.to_be_bytes());
    body.extend_from_slice(&1u16.to_be_bytes());
    body.extend_from_slice(b"0123456789abcdef");
    body.extend_from_slice(b"m");
    let mut buf: Vec<u8> = Vec::new();
    buf.extend_from_slice(&((body.len() + 4) as u32).to_be_bytes());
    buf.extend_from_slice(&2u32.to_be_bytes());
    buf.extend_from_slice(&body);
    NsqCodec::new(true).decode(&mut buf).unwrap().unwrap()
}

#[test]
fn connect_plain_then_publish() {
    let config = Config::default();
    let mut hs = Handshake::new(config);
    let bytes = hs.start();
    assert_eq!(&bytes[..4], b"  V2");
    assert_eq!(&bytes[4..13], b"IDENTIFY\n");
    let json_len = u32::from_be_bytes([bytes[13], bytes[14], bytes[15], bytes[16]]) as usize;
    assert_eq!(bytes.len(), 17 + json_len);

    let reply = caps_json(false, false, false, 0, false);
    let action = hs.on_frame(NsqFramed::Response(RawResponse::Json(reply)));
    assert_eq!(action, HandshakeAction::Finish);
    assert_eq!(hs.state, HandshakeState::Done);
    let server = hs.server.unwrap();
    assert!(!server.snappy && !server.deflate && !server.tls_v1 && !server.auth_required);

    let mut codec = NsqCodec::new(true);
    let mut out: Vec<u8> = Vec::new();
    codec
        .encode(
            nsq_client::command::Command::Pub("foo".to_string(), b"hi".to_vec()),
            &mut out,
        )
        .unwrap();
    let mut expected = b"PUB foo\n".to_vec();
    expected.extend_from_slice(&2u32.to_be_bytes());
    expected.extend_from_slice(b"hi");
    assert_eq!(out, expected);
    assert!(publish_reply(Response::Okay).is_ok());
}

#[test]
fn connect_with_deflate_waits_for_post_deflate_ok() {
    let mut config = Config::default();
    config.compress = Compress::Deflate { level: 6 };
    let mut hs = Handshake::new(config);
    let _ = hs.start();
    let reply = caps_json(false, false, true, 6, false);
    let action = hs.on_frame(NsqFramed::Response(RawResponse::Json(reply)));
    assert_eq!(action, HandshakeAction::UpgradeDeflate(6));
    assert_eq!(hs.state, HandshakeState::AwaitCompressOk);
    let action = hs.on_frame(NsqFramed::Response(RawResponse::Okay));
    assert_eq!(action, HandshakeAction::Finish);
    assert_eq!(hs.state, HandshakeState::Done);

    let mut codec = NsqCodec::new(true);
    let mut out: Vec<u8> = Vec::new();
    codec
        .encode(
            nsq_client::command::Command::Mpub(
                "foo".to_string(),
                vec![b"a".to_vec(), b"b".to_vec()],
            ),
            &mut out,
        )
        .unwrap();
    let mut expected = b"MPUB foo\n".to_vec();
    expected.extend_from_slice(&14u32.to_be_bytes());
    expected.extend_from_slice(&2u32.to_be_bytes());
    expected.extend_from_slice(&1u32.to_be_bytes());
    expected.push(b'a');
    expected.extend_from_slice(&1u32.to_be_bytes());
    expected.push(b'b');
    assert_eq!(out, expected);
}

#[test]
fn connect_with_snappy_consumes_one_ok() {
    let mut hs = Handshake::new(Config::default());
    let _ = hs.start();
    let reply = caps_json(false, true, false, 0, false);
    let action = hs.on_frame(NsqFramed::Response(RawResponse::Json(reply)));
    assert_eq!(action, HandshakeAction::UpgradeSnappy);
    assert_eq!(hs.state, HandshakeState::AwaitCompressOk);
    let action = hs.on_frame(NsqFramed::Response(RawResponse::Okay));
    assert_eq!(action, HandshakeAction::Finish);
    assert_eq!(hs.state, HandshakeState::Done);
}

#[test]
fn auth_required_without_secret_fails() {
    let mut hs = Handshake::new(Config::default());
    let _ = hs.start();
    let reply = caps_json(false, false, false, 0, true);
    let action = hs.on_frame(NsqFramed::Response(RawResponse::Json(reply)));
    assert_eq!(
        action,
        HandshakeAction::Fail(Error::Auth("Required auth secret".to_string()))
    );
    assert_eq!(hs.state, HandshakeState::Failed);
}

#[test]
fn auth_required_with_secret_sends_auth() {
    let mut config = Config::default();
    config.auth_secret = Some("s".to_string());
    let mut hs = Handshake::new(config);
    let _ = hs.start();
    let reply = caps_json(false, false, false, 0, true);
    let action = hs.on_frame(NsqFramed::Response(RawResponse::Json(reply)));
    let mut expected = b"AUTH\n".to_vec();
    expected.extend_from_slice(&1u32.to_be_bytes());
    expected.push(b's');
    assert_eq!(action, HandshakeAction::Send(expected));
    assert_eq!(hs.state, HandshakeState::AwaitAuthReply);
    let auth_reply = "{\"identify\":\"ok\",\"permission_count\":1}".to_string();
    let action = hs.on_frame(NsqFramed::Response(RawResponse::Json(auth_reply)));
    assert_eq!(action, HandshakeAction::Finish);
    assert_eq!(hs.state, HandshakeState::Done);
    let auth = hs.auth.unwrap();
    assert_eq!(auth.identify, "ok");
    assert_eq!(auth.identify_url, None);
    assert_eq!(auth.permission_count, 1);
}

#[test]
fn tls_wanted_without_config_fails() {
    let mut hs = Handshake::new(Config::default());
    let _ = hs.start();
    let reply = caps_json(true, false, false, 0, false);
    let action = hs.on_frame(NsqFramed::Response(RawResponse::Json(reply)));
    assert!(matches!(action, HandshakeAction::Fail(Error::TlsError(_))));
    assert_eq!(hs.state, HandshakeState::Failed);
}

#[test]
fn tls_upgrade_consumes_its_ok_before_compression() {
    let mut config = Config::default();
    config.tls_v1 = Some(nsq_client::config::TlsConfig {
        domain: "broker.example".to_string(),
        root_ca_file: None,
        cert_file: None,
        key_file: None,
        insecure_skip_verify: false,
    });
    let mut hs = Handshake::new(config);
    let _ = hs.start();
    let reply = caps_json(true, true, false, 0, false);
    let action = hs.on_frame(NsqFramed::Response(RawResponse::Json(reply)));
    assert_eq!(action, HandshakeAction::UpgradeTls);
    assert_eq!(hs.state, HandshakeState::AwaitTlsOk);
    let action = hs.on_frame(NsqFramed::Response(RawResponse::Okay));
    assert_eq!(action, HandshakeAction::UpgradeSnappy);
    assert_eq!(hs.state, HandshakeState::AwaitCompressOk);
    let action = hs.on_frame(NsqFramed::Response(RawResponse::Okay));
    assert_eq!(action, HandshakeAction::Finish);
    assert_eq!(hs.state, HandshakeState::Done);
}

#[test]
fn bare_ok_reply_means_default_capabilities() {
    let mut hs = Handshake::new(Config::default());
    let _ = hs.start();
    let action = hs.on_frame(NsqFramed::Response(RawResponse::Okay));
    assert_eq!(action, HandshakeAction::Finish);
    assert_eq!(hs.state, HandshakeState::Done);
}

#[test]
fn unexpected_handshake_frame_aborts() {
    let mut hs = Handshake::new(Config::default());
    let _ = hs.start();
    let action = hs.on_frame(NsqFramed::Response(RawResponse::Heartbeat));
    assert!(matches!(action, HandshakeAction::Fail(Error::IoError(_))));
    assert_eq!(hs.state, HandshakeState::Failed);
}

#[test]
fn heartbeat_interception() {
    // An inbound [Heartbeat, Msg, Heartbeat, Ok]: the caller sees the
    // message and the acknowledgment, and exactly two NOPs go out.
    let frames = vec![
        NsqFramed::Response(RawResponse::Heartbeat),
        message_frame(),
        NsqFramed::Response(RawResponse::Heartbeat),
        NsqFramed::Response(RawResponse::Okay),
    ];
    let (delivered, nops) = route_batch(frames);
    assert_eq!(nops, 2);
    assert_eq!(delivered.len(), 2);
    assert!(matches!(delivered[0], Response::Msg(_)));
    assert_eq!(delivered[1], Response::Okay);
}

#[test]
fn two_heartbeats_two_nops_nothing_delivered() {
    let frames = vec![
        NsqFramed::Response(RawResponse::Heartbeat),
        NsqFramed::Response(RawResponse::Heartbeat),
    ];
    let (delivered, nops) = route_batch(frames);
    assert_eq!(nops, 2);
    assert!(delivered.is_empty());
}

#[test]
fn nop_is_flushed_before_next_delivery() {
    let mut hb = Heartbeat::new();
    let routed = hb.on_frame(NsqFramed::Response(RawResponse::Heartbeat));
    assert_eq!(routed, Routed::Pong);
    assert_eq!(hb.response_remaining, 1);
    let n = hb.start_pong();
    assert_eq!(n, 1);
    assert!(hb.responding);
    hb.pong_flushed();
    assert!(!hb.responding);
    assert_eq!(hb.response_remaining, 0);
}

#[test]
fn close_wait_ends_the_stream() {
    let mut hb = Heartbeat::new();
    let routed = hb.on_frame(NsqFramed::Response(RawResponse::CloseWait));
    assert_eq!(routed, Routed::Eof);
}

#[test]
fn non_fatal_error_is_delivered_in_stream() {
    // The broker rejects one FIN; the caller sees the error as an item and
    // the connection stays usable for the next exchange.
    let frames = vec![
        NsqFramed::Error(NsqError::new("E_FIN_FAILED".to_string(), "ID".to_string())),
        NsqFramed::Response(RawResponse::Okay),
    ];
    let (delivered, nops) = route_batch(frames);
    assert_eq!(nops, 0);
    assert_eq!(delivered.len(), 2);
    assert_eq!(
        delivered[0],
        Response::Error(NsqError::new("E_FIN_FAILED".to_string(), "ID".to_string()))
    );
    assert_eq!(delivered[1], Response::Okay);
}

#[test]
fn fatal_error_terminates_the_stream() {
    let frames = vec![
        NsqFramed::Error(NsqError::new("E_BAD_TOPIC".to_string(), "t".to_string())),
        NsqFramed::Response(RawResponse::Okay),
    ];
    let (delivered, nops) = route_batch(frames);
    assert_eq!(nops, 0);
    assert!(delivered.is_empty());
}

#[test]
fn sink_reader_reports_error_on_fourth_poll() {
    // Three publishes are acknowledged; then the broker sends E_BAD_TOPIC.
    // The reader reports it once, and the next readiness poll surfaces it.
    for _ in 0..3 {
        assert_eq!(reader_step(Some(Ok(Response::Okay))), ReaderAction::Continue);
        assert!(sink_poll(ErrorChannel::Pending).is_ok());
    }
    let e = NsqError::new("E_BAD_TOPIC".to_string(), "topic is invalid".to_string());
    let action = reader_step(Some(Ok(Response::Error(e.clone()))));
    let reported = match action {
        ReaderAction::Report(err) => err,
        other => panic!("expected a report, got {:?}", other),
    };
    let fourth = sink_poll(ErrorChannel::Reported(reported));
    assert_eq!(fourth, Err(Error::NsqError(e)));
}

#[test]
fn sink_reader_stops_at_end_of_stream() {
    assert_eq!(reader_step(None), ReaderAction::Stop);
    assert!(matches!(sink_poll(ErrorChannel::Closed), Err(Error::IoError(_))));
    assert!(matches!(sink_poll(ErrorChannel::Gone), Err(Error::IoError(_))));
}

#[test]
fn publish_reply_verdicts() {
    assert!(publish_reply(Response::Okay).is_ok());
    let e = NsqError::new("E_PUB_FAILED".to_string(), "d".to_string());
    assert_eq!(
        publish_reply(Response::Error(e.clone())),
        Err(Error::NsqError(e))
    );
    let msg = match message_frame() {
        NsqFramed::Message(m) => m,
        _ => unreachable!(),
    };
    assert!(matches!(publish_reply(Response::Msg(msg)), Err(Error::IoError(_))));
}

#[test]
fn reconnect_backoff_grows_linearly_and_resets() {
    let mut rc = Reconnect::new(Strategy::Exponential(2));
    let a = rc.on_idle();
    assert_eq!(a, ReconnectAction::Delay(0));
    let _ = rc.on_delay_done();
    rc.on_connect_result(false);
    assert_eq!(rc.attempts, 1);
    let a = rc.on_idle();
    assert_eq!(a, ReconnectAction::Delay(2));
    let _ = rc.on_delay_done();
    rc.on_connect_result(false);
    let a = rc.on_idle();
    assert_eq!(a, ReconnectAction::Delay(4));
    let _ = rc.on_delay_done();
    rc.on_connect_result(true);
    assert_eq!(rc.attempts, 0);
    assert_eq!(rc.state, ConnState::Connected);
    rc.on_stream_broken();
    assert_eq!(rc.attempts, 1);
    assert_eq!(rc.state, ConnState::Idle);
}

#[test]
fn immediate_reconnect_skips_delay() {
    let mut rc = Reconnect::new(Strategy::Immediat);
    assert_eq!(rc.on_idle(), ReconnectAction::Connect);
    assert_eq!(rc.state, ConnState::Connecting);
}
