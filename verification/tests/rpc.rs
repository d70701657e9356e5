use via::rpc::{
    accept_response, check_line, decode_response, encode_request, encode_response, expect_exec,
    expect_pong, seal_envelope, signed_payload, verify_request, wait_until_ready, Frame, Line, ReadyStep,
    ReadyWait, RpcEnvelope, RpcResponse,
};
use via::security::{encrypt_string, ensure_mesh_key, now_ms, sign};

const PING: &str = r#"{"type":"ping"}"#;

fn key() -> Option<Vec<u8>> {
    Some(ensure_mesh_key(None).unwrap().key)
}

fn shown(envelope: &RpcEnvelope) -> String {
    format!(
        "{} {} {} {} {}",
        envelope.version, envelope.timestamp_ms, envelope.nonce, envelope.payload, envelope.signature
    )
}

fn envelope(frame: Frame) -> RpcEnvelope {
    match frame {
        Frame::Sealed(envelope) => envelope,
        Frame::Plain(text) => panic!("not sealed: {text}"),
    }
}

fn line(envelope: RpcEnvelope) -> Line {
    Line { text: shown(&envelope), envelope: Some(envelope) }
}

fn sealed_by_hand(key: &Vec<u8>, kind: &str, timestamp_ms: i64, nonce: &str) -> Line {
    let payload = encrypt_string(key, PING).unwrap();
    let signature = sign(key, &signed_payload(kind, timestamp_ms, nonce, &payload)).unwrap();
    line(RpcEnvelope {
        version: 1,
        timestamp_ms,
        nonce: nonce.to_string(),
        payload,
        signature,
    })
}

#[test]
fn signed_rpc_envelopes_verify_with_mesh_key() {
    let key = key();
    let encoded = envelope(encode_request(&key, PING.to_string()).unwrap());
    let nonce = encoded.nonce.clone();
    let verified = verify_request(&key, &line(encoded), now_ms()).unwrap();
    assert_eq!(verified.message, PING);
    assert_eq!(verified.nonce, Some(nonce));
}

#[test]
fn encrypted_rpc_requests_do_not_expose_plaintext() {
    let key = key();
    let request = r#"{"type":"deploy_image","image":"private-image:latest","service":"secret-service","container":"via-secret-service","port":null,"env":[["API_KEY","super-secret-value"]],"command":["npm","start"]}"#;
    let encoded = envelope(encode_request(&key, request.to_string()).unwrap());
    let text = shown(&encoded);

    assert!(!text.contains("deploy_image"));
    assert!(!text.contains("private-image"));
    assert!(!text.contains("super-secret-value"));
    assert!(verify_request(&key, &line(encoded), now_ms()).is_ok());
}

#[test]
fn encrypted_rpc_responses_do_not_expose_plaintext() {
    let key = key();
    let response = r#"{"type":"logs","output":"sensitive-log-line"}"#;
    let encoded = envelope(encode_response(&key, response.to_string()).unwrap());

    assert!(!shown(&encoded).contains("sensitive-log-line"));
    assert_eq!(decode_response(&key, &line(encoded), now_ms()).unwrap(), response);
}

#[test]
fn signed_rpc_rejects_tampered_requests() {
    let key = key();
    let mut encoded = envelope(encode_request(&key, PING.to_string()).unwrap());
    encoded.nonce.push_str("-tampered");

    assert!(verify_request(&key, &line(encoded), now_ms()).is_err());
}

#[test]
fn signed_rpc_rejects_stale_timestamps() {
    let key = key();
    let stale = now_ms() - 10 * 60 * 1000;
    let line = sealed_by_hand(key.as_ref().unwrap(), "rpc.request", stale, "stale-nonce");

    assert!(verify_request(&key, &line, now_ms()).is_err());
}

#[test]
fn signed_rpc_rejects_response_frames_as_requests() {
    let key = key();
    let line = sealed_by_hand(key.as_ref().unwrap(), "rpc.response", now_ms(), "wrong-kind");

    assert!(verify_request(&key, &line, now_ms()).is_err());
}

#[test]
fn the_window_has_exact_edges() {
    let key = key();
    let line = sealed_by_hand(key.as_ref().unwrap(), "rpc.request", 1_000_000, "edge");
    assert!(verify_request(&key, &line, 1_300_000).is_ok());
    assert!(verify_request(&key, &line, 1_300_001).is_err());
    assert!(verify_request(&key, &line, 700_000).is_ok());
    assert!(verify_request(&key, &line, 699_999).is_err());
}

#[test]
fn without_a_key_messages_are_plain() {
    match encode_request(&None, PING.to_string()).unwrap() {
        Frame::Plain(text) => assert_eq!(text, PING),
        Frame::Sealed(_) => panic!("sealed without a key"),
    }
    let plain = Line { text: PING.to_string(), envelope: None };
    let opened = verify_request(&None, &plain, 0).unwrap();
    assert_eq!(opened.message, PING);
    assert!(opened.nonce.is_none());
}

#[test]
fn with_a_key_plain_messages_are_refused() {
    let plain = Line { text: PING.to_string(), envelope: None };
    assert!(verify_request(&key(), &plain, now_ms()).is_err());
}

#[test]
fn error_responses_become_errors() {
    let refused = accept_response(RpcResponse::Error { message: "no".to_string() });
    assert_eq!(refused.unwrap_err(), "no");
    assert!(matches!(accept_response(RpcResponse::Pong), Ok(RpcResponse::Pong)));
    assert!(expect_pong(RpcResponse::Pong).is_ok());
    assert!(expect_pong(RpcResponse::Done).is_err());
    assert_eq!(
        expect_exec(RpcResponse::Exec { output: "hi".to_string() }).unwrap(),
        "hi"
    );
    assert_eq!(
        check_line("rig:47819", " \n").unwrap_err(),
        "Via daemon at rig:47819 returned an empty response"
    );
}

#[test]
fn readiness_is_given_up_after_fifty_tries() {
    let mut wait = ReadyWait::new();
    for _ in 0..49 {
        match wait_until_ready("rig:47819", wait, Err("refused".to_string())) {
            ReadyStep::Retry(next) => wait = next,
            other => panic!("unexpected step: {other:?}"),
        }
    }
    match wait_until_ready("rig:47819", wait, Err("refused".to_string())) {
        ReadyStep::GiveUp(text) => {
            assert_eq!(text, "Via daemon at rig:47819 did not become ready: refused")
        }
        other => panic!("unexpected step: {other:?}"),
    }
    assert!(matches!(
        wait_until_ready("rig:47819", ReadyWait::new(), Ok(())),
        ReadyStep::Ready
    ));
}

#[test]
fn one_nonce_and_one_time_make_one_envelope() {
    let key = vec![7u8; 32];
    let iv = vec![9u8; 12];
    let seal = |now: i64| {
        seal_envelope(&key, "rpc.request", PING, now, "n1".to_string(), &iv).unwrap()
    };
    assert_eq!(shown(&seal(1_000)), shown(&seal(1_000)));
    assert_eq!(seal(1_000).payload, seal(2_000).payload);
    assert_ne!(seal(1_000).signature, seal(2_000).signature);
    let opened = verify_request(&Some(key.clone()), &line(seal(1_000)), 1_000).unwrap();
    assert_eq!(opened.message, PING);
    assert_eq!(opened.nonce.as_deref(), Some("n1"));
    let short = vec![7u8; 31];
    let refused = seal_envelope(&short, "rpc.request", PING, 1, "n1".to_string(), &iv);
    assert_eq!(refused.unwrap_err(), "Invalid Length");
}
