use warden_core::api::{default_port, hash_id, parse_subscription};
use warden_core::error::WardenError;

#[test]
fn default_port_known_schemes() {
    assert_eq!(default_port("https"), 443);
    assert_eq!(default_port("http"), 80);
    assert_eq!(default_port("ss"), 8388);
}

#[test]
fn default_port_unknown_scheme() {
    assert_eq!(default_port("vless"), 443);
    assert_eq!(default_port("hysteria2"), 443);
    assert_eq!(default_port("wireguard"), 443);
}

#[test]
fn hash_id_is_deterministic() {
    let id1 = hash_id("vless://user@host:443#DE");
    let id2 = hash_id("vless://user@host:443#DE");
    assert_eq!(id1, id2);
    assert!(id1 >= 0);
}

#[test]
fn hash_id_different_inputs() {
    let id1 = hash_id("vless://user@host:443#DE");
    let id2 = hash_id("vless://user@other:443#DE");
    assert_ne!(id1, id2);
}

#[test]
fn hash_id_clears_top_bit() {
    let mut h = std::collections::hash_map::DefaultHasher::new();
    std::hash::Hash::hash("abc", &mut h);
    let raw = std::hash::Hasher::finish(&h);
    assert_eq!(hash_id("abc") as u64, raw & 0x7FFF_FFFF_FFFF_FFFF);
}

#[test]
fn parse_subscription_basic_vless() {
    let text = "vless://user@host.example.com:443?type=tcp#DE\n";
    let configs = parse_subscription(text);
    assert_eq!(configs.len(), 1);
    let cfg = &configs[0];
    assert_eq!(cfg.protocol, "vless");
    assert_eq!(cfg.host, "host.example.com");
    assert_eq!(cfg.port, 443);
    assert!(cfg.is_alive);
    assert_eq!(cfg.region, Some("DE".to_string()));
    assert_eq!(cfg.health_score_milli, Some(500));
    assert!(cfg.source.is_none());
}

#[test]
fn parse_subscription_skips_comments_and_blanks() {
    let text = "# profile-title: Test Config\n\n# subscription-userinfo: upload=1024\nss://user@host:8388#US\n";
    let configs = parse_subscription(text);
    assert_eq!(configs.len(), 1);
    assert_eq!(configs[0].protocol, "ss");
    assert_eq!(configs[0].port, 8388);
    assert_eq!(configs[0].region, Some("US".to_string()));
}

#[test]
fn parse_subscription_multiple_protocols() {
    let text = "\
vless://user@host1:443#DE
ss://user@host2:8388#US
hysteria2://user@host3:443#NL
wireguard://user@host4:51820#FR
";
    let configs = parse_subscription(text);
    assert_eq!(configs.len(), 4);
    assert_eq!(configs[0].protocol, "vless");
    assert_eq!(configs[1].protocol, "ss");
    assert_eq!(configs[2].protocol, "hysteria2");
    assert_eq!(configs[3].protocol, "wireguard");
}

#[test]
fn parse_subscription_invalid_url_skipped() {
    let text = "not-a-url-line\nvless://user@host:443#DE\n";
    let configs = parse_subscription(text);
    assert_eq!(configs.len(), 1);
    assert_eq!(configs[0].protocol, "vless");
}

#[test]
fn parse_subscription_empty_text() {
    let configs = parse_subscription("");
    assert!(configs.is_empty());
}

#[test]
fn parse_subscription_with_default_port() {
    let text = "vless://user@host.example.com#DE\n";
    let configs = parse_subscription(text);
    assert_eq!(configs.len(), 1);
    assert_eq!(configs[0].port, 443);
}

#[test]
fn parse_subscription_explicit_port() {
    let text = "vless://user@host.example.com:8443#DE\n";
    let configs = parse_subscription(text);
    assert_eq!(configs[0].port, 8443);
}

#[test]
fn parse_subscription_region_extraction() {
    let text = "vless://user@host:443#Region-DE-Profile\n";
    let configs = parse_subscription(text);
    assert_eq!(configs[0].region, Some("DE".to_string()));
}

#[test]
fn parse_subscription_no_region() {
    let text = "vless://user@host:443\n";
    let configs = parse_subscription(text);
    assert!(configs[0].region.is_none());
}

#[test]
fn parse_subscription_trims_and_keeps_line() {
    let text = "   vless://user@host:443#de  \r\n";
    let configs = parse_subscription(text);
    assert_eq!(configs.len(), 1);
    assert_eq!(configs[0].config_line, "vless://user@host:443#de");
    assert_eq!(configs[0].region, Some("DE".to_string()));
    assert_eq!(configs[0].id, hash_id("vless://user@host:443#de"));
}

#[test]
fn parse_subscription_default_http_port() {
    // the URL parser drops a scheme's default port, so the default applies
    let configs = parse_subscription("http://host:80/\nhttps://host/\n");
    assert_eq!(configs[0].port, 80);
    assert_eq!(configs[1].port, 443);
}

#[test]
fn error_display_messages() {
    assert_eq!(WardenError::NoConfigs.message(), "no configs available");
    assert_eq!(WardenError::AllFailed.message(), "all connection attempts failed");
    assert_eq!(WardenError::ProtocolUnsupported("foo".into()).message(), "protocol not supported: foo");
    assert_eq!(WardenError::AuthMissing.message(), "auth token missing");
    assert_eq!(WardenError::Api("boom".into()).message(), "api error: boom");
    assert_eq!(WardenError::Crypto("fail".into()).message(), "crypto: fail");
    assert_eq!(WardenError::Other("oops".into()).message(), "other: oops");
}

#[test]
fn error_url_message_prefix() {
    let e = url::Url::parse("not a url").unwrap_err();
    let m = WardenError::Url(e).message();
    assert!(m.starts_with("url: "));
}

#[test]
fn error_from_io() {
    let io_err = std::io::Error::new(std::io::ErrorKind::NotFound, "missing");
    let warden_err: WardenError = io_err.into();
    match warden_err {
        WardenError::Io(_) => {}
        other => panic!("expected Io variant, got {other:?}"),
    }
}

#[test]
fn error_from_url() {
    let url_err = url::Url::parse("not a url").unwrap_err();
    let warden_err: WardenError = url_err.into();
    match warden_err {
        WardenError::Url(e) => assert_eq!(e, url::Url::parse("not a url").unwrap_err()),
        other => panic!("expected Url variant, got {other:?}"),
    }
}

#[test]
fn error_from_json() {
    let json_err = serde_json::from_str::<()>("invalid").unwrap_err();
    let warden_err: WardenError = json_err.into();
    match warden_err {
        WardenError::Json(_) => {}
        other => panic!("expected Json variant, got {other:?}"),
    }
}

#[test]
fn outside_error_messages_are_prefixed() {
    let io = WardenError::from(std::io::Error::new(std::io::ErrorKind::NotFound, "missing"));
    assert_eq!(io.message(), "io: missing");
    let json = WardenError::from(serde_json::from_str::<()>("invalid").unwrap_err());
    assert!(json.message().starts_with("json: "));
    let header = WardenError::from(reqwest::header::HeaderValue::from_str("bad\nvalue").unwrap_err());
    assert!(header.message().starts_with("invalid header: "));
    let name = WardenError::from(reqwest::header::HeaderName::from_bytes(b"bad name").unwrap_err());
    assert!(name.message().starts_with("invalid header name: "));
}
