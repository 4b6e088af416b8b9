use base64::Engine as _;
use warden_core::error::WardenError;
use warden_core::protocol_helpers::{
    extract_wg_pubkey, Hy2Params, SsParams, TrojanParams, VlessParams, VmessParams,
};
use warden_core::tunnel::{proof_payload, WireguardConfig};

fn b64(b: &[u8]) -> String {
    base64::engine::general_purpose::STANDARD.encode(b)
}

#[test]
fn vless_params_from_link() {
    let p = VlessParams::from_config_line(
        "vless://uuid-1@h:443?security=tls&peer=p.example&alpn=h2,http/1.1&fp=chrome&type=ws&path=%2Fws&host=cdn",
        "h",
        443,
    )
    .unwrap();
    assert_eq!(p.uuid, "uuid-1");
    assert_eq!(p.sni.as_deref(), Some("p.example"));
    assert_eq!(p.security.as_deref(), Some("tls"));
    assert_eq!(p.alpn, vec!["h2", "http/1.1"]);
    assert_eq!(p.fingerprint.as_deref(), Some("chrome"));
    assert_eq!(p.network.as_deref(), Some("ws"));
    assert_eq!(p.path.as_deref(), Some("/ws"));
    assert_eq!(p.host_header.as_deref(), Some("cdn"));
    assert!(p.flow.is_none());
}

#[test]
fn vless_params_errors() {
    match VlessParams::from_config_line("trojan://x@h", "h", 1) {
        Err(WardenError::ConfigParseError(m)) => assert_eq!(m, "not a vless URL"),
        _ => panic!(),
    }
    match VlessParams::from_config_line("vless://h:1", "h", 1) {
        Err(WardenError::ConfigParseError(m)) => assert_eq!(m, "vless missing uuid"),
        _ => panic!(),
    }
}

#[test]
fn port_is_cut_to_16_bits() {
    let p = VlessParams::from_config_line("vless://u@h", "h", 65536 + 80).unwrap();
    assert_eq!(p.port, 80);
}

#[test]
fn trojan_params_from_link() {
    let p = TrojanParams::from_config_line("trojan://pw@h:443?sni=s&allowInsecure=1", "h", 443).unwrap();
    assert_eq!(p.password, "pw");
    assert_eq!(p.sni.as_deref(), Some("s"));
    assert!(p.skip_verify);
    assert!(p.alpn.is_empty());
    let p = TrojanParams::from_config_line("trojan://pw@h?allowInsecure=yes", "h", 443).unwrap();
    assert!(!p.skip_verify);
}

#[test]
fn hy2_params_from_link() {
    let p = Hy2Params::from_config_line("hy2://pw@h:443?obfs=salamander&insecure=true", "h", 443).unwrap();
    assert_eq!(p.password, "pw");
    assert_eq!(p.obfs.as_deref(), Some("salamander"));
    assert!(p.insecure);
    assert!(Hy2Params::from_config_line("vless://pw@h", "h", 1).is_err());
}

#[test]
fn ss_params_from_link() {
    // 12 bytes give unpadded base64, which the URL keeps as it is
    let info = b64(b"chacha20:pw1");
    let p = SsParams::from_config_line(&format!("ss://{}@h:8388", info), "h", 8388).unwrap();
    assert_eq!(p.method, "chacha20");
    assert_eq!(p.password, "pw1");
    let p = SsParams::from_config_line("ss://aes:secret@h:8388", "h", 8388);
    // "aes" is no base64 of anything valid here, so the user name is read as it is
    assert!(p.is_err() || p.unwrap().method == "aes");
    match SsParams::from_config_line("ss://nocolon@h", "h", 1) {
        Err(WardenError::ConfigParseError(m)) => assert_eq!(m, "ss missing method/password"),
        _ => panic!(),
    }
}

#[test]
fn vmess_params_from_link() {
    let json = r#"{"id":"abc","aid":2,"net":"ws","tls":"tls","sni":"s","path":"/p","host":"hh"}"#;
    let line = format!("vmess://{}", b64(json.as_bytes()));
    let p = VmessParams::from_config_line(&line, "h", 443).unwrap();
    assert_eq!(p.uuid, "abc");
    assert_eq!(p.alter_id, 2);
    assert_eq!(p.security, "auto");
    assert_eq!(p.network.as_deref(), Some("ws"));
    assert!(p.tls);
    assert_eq!(p.sni.as_deref(), Some("s"));
    assert_eq!(p.path.as_deref(), Some("/p"));
    assert_eq!(p.host_header.as_deref(), Some("hh"));
    let no_id = format!("vmess://{}", b64(br#"{"aid":1}"#));
    match VmessParams::from_config_line(&no_id, "h", 443) {
        Err(WardenError::ConfigParseError(m)) => assert_eq!(m, "vmess missing id"),
        _ => panic!(),
    }
    match VmessParams::from_config_line("vmess://%%%", "h", 443) {
        Err(WardenError::ConfigParseError(m)) => assert!(m.starts_with("vmess base64: ")),
        _ => panic!(),
    }
    let not_json = format!("vmess://{}", b64(b"not json"));
    match VmessParams::from_config_line(&not_json, "h", 443) {
        Err(WardenError::ConfigParseError(m)) => assert!(m.starts_with("vmess json: ")),
        _ => panic!(),
    }
    let doubled = format!("vmess://vmess://{}", b64(json.as_bytes()));
    assert_eq!(VmessParams::from_config_line(&doubled, "h", 443).unwrap().uuid, "abc");
}

#[test]
fn wg_pubkey_extraction() {
    // a 32-byte key always ends in '=', which the URL percent-encodes in the
    // user name, so it never decodes
    let key = [7u8; 32];
    let line = format!("wg://{}@1.2.3.4:51820", b64(&key));
    assert_eq!(extract_wg_pubkey(&line), None);
    assert_eq!(extract_wg_pubkey("wg://@1.2.3.4"), None);
    let short = format!("wireguard://{}@1.2.3.4", b64(&[1u8; 15]));
    assert_eq!(extract_wg_pubkey(&short), None);
    assert_eq!(extract_wg_pubkey("vless://x@h"), None);
}

#[test]
fn wg_share_url_parsing() {
    let key = [9u8; 32];
    let url = format!("wg://{}@10.0.0.1?persistent_keepalive=15", b64(&key));
    assert_eq!(WireguardConfig::endpoint_of(&url).unwrap(), ("10.0.0.1".to_string(), 51820));
    assert_eq!(WireguardConfig::endpoint_of("wg://k@10.0.0.2:7").unwrap(), ("10.0.0.2".to_string(), 7));
    match WireguardConfig::from_share_url(&url) {
        Err(WardenError::TunnelError(m)) => assert!(m.starts_with("bad pubkey: ")),
        _ => panic!(),
    }
    match WireguardConfig::from_share_url("http://x") {
        Err(WardenError::ProtocolNotSupported(m)) => assert_eq!(m, "http://x"),
        _ => panic!(),
    }
    match WireguardConfig::from_share_url(&format!("wg://{}@10.0.0.1", b64(&[1u8; 9]))) {
        Err(WardenError::TunnelError(m)) => assert_eq!(m, "public key must be 32 bytes"),
        _ => panic!(),
    }
}

#[test]
fn proof_payload_bytes() {
    let p = proof_payload();
    assert_eq!(p[0], 0x45);
    assert_eq!(&p[2..4], &32u16.to_be_bytes());
    assert_eq!(&p[12..16], &[10, 0, 0, 1]);
    assert_eq!(&p[20..22], &12345u16.to_be_bytes());
    assert_eq!(&p[22..24], &54321u16.to_be_bytes());
    assert_eq!(&p[24..32], &[0xAB; 8]);
}
