use sha2::Digest;
use warden_core::live_probe::{trojan_probe_request, trojan_reply_ok, vless_probe_request, vless_reply_ok};
use warden_core::error::WardenError;
use warden_core::protocol_helpers::{TrojanParams, VlessParams, VmessParams};
use warden_core::text::join;
use warden_core::tunnel::{
    handshake_next, loopback_next, proof_payload, HandshakeAction, HandshakeStage, LoopbackAction, LoopbackStep,
    NoiseResult, StepOutcome, WireguardConfig,
};
use warden_core::vmess::{build_vmess_header, connect_header, random_salt};
use warden_core::trojan::handshake;
use warden_core::vless::{build_header, connect_request, warn_if_legacy, VlessTunnel};

fn vless(uuid: &str, sni: Option<&str>) -> VlessParams {
    VlessParams {
        host: "h".into(),
        port: 443,
        uuid: uuid.into(),
        sni: sni.map(|s| s.to_string()),
        flow: None,
        security: None,
        alpn: vec![],
        fingerprint: None,
        network: None,
        path: None,
        host_header: None,
    }
}

#[test]
fn vless_header_layout() {
    let uuid = [1u8; 16];
    let h = build_header(&uuid, 443, "ab");
    let mut want = vec![0u8];
    want.extend_from_slice(&uuid);
    want.extend_from_slice(&[0, 1, 1, 187, 2, 2, b'a', b'b']);
    assert_eq!(h, want);
}

#[test]
fn vless_connect_request() {
    let p = vless("00112233-4455-6677-8899-aabbccddeeff", None);
    let req = connect_request(&p).unwrap();
    assert_eq!(req[0], 0);
    assert_eq!(&req[1..17], &[0x00, 0x11, 0x22, 0x33, 0x44, 0x55, 0x66, 0x77, 0x88, 0x99, 0xaa, 0xbb, 0xcc, 0xdd, 0xee, 0xff]);
    assert_eq!(&req[21..], b"\x02\x0bexample.com");
    assert!(connect_request(&vless("nope", None)).is_err());
    let req = vless_probe_request(&p, "www.google.com", "/generate_204").unwrap();
    assert_eq!(&req[19..21], &80u16.to_be_bytes());
    assert!(req.ends_with(b"GET /generate_204 HTTP/1.1\r\nHost: www.google.com\r\nConnection: close\r\n\r\n"));
}

#[test]
fn trojan_handshake_text() {
    let p = TrojanParams { host: "h.example".into(), port: 443, password: "pw".into(), sni: None, alpn: vec![], skip_verify: false };
    let hash = hex::encode(sha2::Sha224::digest(b"pw"));
    let want = format!("{hash}\r\nCONNECT h.example:443 HTTP/1.1\r\nHost: h.example:443\r\n\r\n");
    assert_eq!(handshake(&p), want);
    let probe = trojan_probe_request(&p, "g.example", "/x");
    assert_eq!(probe, format!("{hash}\r\nGET /x HTTP/1.1\r\nHost: g.example\r\nConnection: close\r\n\r\n"));
}

#[test]
fn probe_replies() {
    assert!(vless_reply_ok(b"HTTP/1.1 204 No Content\r\n"));
    assert!(vless_reply_ok(b"xx 204"));
    assert!(!vless_reply_ok(b"HTTP/1.1 403 Forbidden"));
    assert!(trojan_reply_ok(b"HTTP/1.0 500"));
    assert!(!trojan_reply_ok(&[0xff, 0xfe]));
}

#[test]
fn vless_tunnel_stats_and_legacy() {
    let t = VlessTunnel { host: "h".into(), port: 1, session_id: "s".into(), bytes_tx: 5, bytes_rx: 7 };
    assert_eq!(t.stats(), (5, 7));
    assert!(warn_if_legacy(""));
    assert!(!warn_if_legacy("vless://x"));
}

fn vmess(uuid: &str) -> VmessParams {
    VmessParams {
        host: "h".into(),
        port: 443,
        uuid: uuid.into(),
        alter_id: 0,
        security: "auto".into(),
        network: None,
        tls: false,
        sni: None,
        path: None,
        host_header: None,
    }
}

#[test]
fn vmess_header_layout() {
    let h = build_vmess_header(&[7u8; 16], &[9u8; 16], &[3u8; 16]);
    let mut want = vec![1u8];
    want.extend_from_slice(&[7u8; 16]);
    want.extend_from_slice(&[9u8; 16]);
    want.push(4);
    want.extend_from_slice(&[3u8; 16]);
    assert_eq!(h, want);
}

#[test]
fn vmess_connect_header_carries_the_uuid() {
    let h = connect_header(&vmess("550e8400-e29b-41d4-a716-446655440000")).unwrap();
    assert_eq!(h.len(), 50);
    assert_eq!(h[0], 1);
    assert_eq!(h[33], 4);
    assert_eq!(&h[34..], &[0x55, 0x0e, 0x84, 0x00, 0xe2, 0x9b, 0x41, 0xd4, 0xa7, 0x16, 0x44, 0x66, 0x55, 0x44, 0x00, 0x00]);
    let again = connect_header(&vmess("550e8400-e29b-41d4-a716-446655440000")).unwrap();
    assert_ne!(&h[1..33], &again[1..33]);
}

#[test]
fn vmess_connect_header_rejects_bad_uuid() {
    match connect_header(&vmess("not-a-uuid")) {
        Err(WardenError::TunnelError(m)) => assert!(m.starts_with("vmess uuid: ")),
        other => panic!("unexpected {:?}", other),
    }
}

#[test]
fn random_salt_has_the_length() {
    assert_eq!(random_salt(32).unwrap().len(), 32);
    assert_eq!(random_salt(16).unwrap().len(), 16);
    assert!(random_salt(0).unwrap().is_empty());
}

#[test]
fn handshake_steps_follow_the_noise_engine() {
    assert!(matches!(
        handshake_next(HandshakeStage::Initiating, NoiseResult::WriteToNetwork),
        HandshakeAction::Exchange(HandshakeStage::Responding)
    ));
    assert!(matches!(
        handshake_next(HandshakeStage::Responding, NoiseResult::WriteToNetwork),
        HandshakeAction::Exchange(HandshakeStage::Confirming)
    ));
    assert!(matches!(handshake_next(HandshakeStage::Confirming, NoiseResult::Done), HandshakeAction::Complete));
    let text = |a: HandshakeAction| match a {
        HandshakeAction::Abort(WardenError::TunnelError(m)) => m,
        other => panic!("unexpected {:?}", other),
    };
    assert_eq!(text(handshake_next(HandshakeStage::Initiating, NoiseResult::Done)), "unexpected init result");
    assert_eq!(text(handshake_next(HandshakeStage::Responding, NoiseResult::Other)), "unexpected resp result");
    assert_eq!(text(handshake_next(HandshakeStage::Confirming, NoiseResult::WriteToNetwork)), "unexpected keepalive result");
    assert_eq!(text(handshake_next(HandshakeStage::Responding, NoiseResult::Failure("InvalidMac".into()))), "InvalidMac");
}

#[test]
fn share_url_lists_key_endpoint_and_query() {
    let c = WireguardConfig {
        public_key: [0u8; 32],
        host: "10.0.0.1".into(),
        port: 51820,
        allowed_ips: vec!["0.0.0.0/0".into(), "::/0".into()],
        persistent_keepalive: 25,
    };
    assert_eq!(
        c.share_url(),
        "wg://AAAAAAAAAAAAAAAAAAAAAAAAAAAAAAAAAAAAAAAAAAA=@10.0.0.1:51820?allowed_ips=0.0.0.0/0,::/0&persistent_keepalive=25"
    );
    let none = WireguardConfig { allowed_ips: vec![], ..c };
    assert!(none.share_url().contains("?allowed_ips=&persistent_keepalive=25"));
}

#[test]
fn join_puts_the_separator_between() {
    assert_eq!(join(&vec!["a".into(), "b".into(), "c".into()], ','), "a,b,c");
    assert_eq!(join(&vec!["x".into()], ','), "x");
    assert_eq!(join(&vec![], ','), "");
}

#[test]
fn loopback_steps_follow_the_handshake_then_the_echo() {
    let payload = proof_payload().to_vec();
    let mut step = LoopbackStep::Initiate;
    let mut seen = vec![step];
    loop {
        let outcome = match step {
            LoopbackStep::Settle => StepOutcome::Done,
            LoopbackStep::ReceiveProof | LoopbackStep::ReceiveEcho => StepOutcome::WriteToTunnel(payload.clone()),
            _ => StepOutcome::WriteToNetwork,
        };
        match loopback_next(step, &outcome) {
            LoopbackAction::Send(next) => {
                step = next;
                seen.push(step);
            }
            LoopbackAction::Finish => break,
            LoopbackAction::Fail => panic!("expected outcomes never fail"),
        }
    }
    assert_eq!(seen.len(), 8);
    assert_eq!(seen[7], LoopbackStep::ReceiveEcho);
}

#[test]
fn loopback_fails_on_unexpected_outcomes() {
    assert_eq!(loopback_next(LoopbackStep::Initiate, &StepOutcome::Other), LoopbackAction::Fail);
    assert_eq!(loopback_next(LoopbackStep::Settle, &StepOutcome::WriteToNetwork), LoopbackAction::Fail);
    let mut wrong = proof_payload().to_vec();
    wrong[0] ^= 1;
    assert_eq!(loopback_next(LoopbackStep::ReceiveProof, &StepOutcome::WriteToTunnel(wrong)), LoopbackAction::Fail);
    assert_eq!(loopback_next(LoopbackStep::ReceiveEcho, &StepOutcome::Done), LoopbackAction::Fail);
}
