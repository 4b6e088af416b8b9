use base64::Engine as _;
use warden_core::api::ServerConfig;
use warden_core::discovery::{
    configs_from_text, decode_source, default_sources, extract_host_port_rough, health_filter,
    parse_config_line, DiscoveryEngine, SourceFormat,
};
use warden_core::error::WardenError;

fn cfg(id: i64, line: &str, proto: &str, host: &str, port: i32, alive: bool) -> ServerConfig {
    ServerConfig {
        id,
        config_line: line.into(),
        protocol: proto.into(),
        host: host.into(),
        port,
        is_alive: alive,
        source: None,
        health_score_milli: None,
        response_time_ms: None,
        region: None,
    }
}

#[test]
fn parse_known_protocols() {
    for line in [
        "vless://abc@1.2.3.4:443",
        "trojan://secret@host.example:443",
        "ss://base64payload@1.2.3.4:8388",
        "hysteria2://user@1.2.3.4:443",
        "wireguard://pubkey@1.2.3.4:51820",
    ] {
        let cfg = parse_config_line(line).expect("known protocol must parse");
        assert!(!cfg.host.is_empty(), "host must be non-empty for {line}");
        assert!(cfg.port > 0, "port must be positive for {line}");
    }
}

#[test]
fn parse_unknown_protocol_is_error() {
    assert!(parse_config_line("ftp://1.2.3.4:21").is_err());
    assert!(parse_config_line("foo://1.2.3.4").is_err());
    assert!(parse_config_line("not a url at all").is_err());
    assert!(parse_config_line("").is_err());
}

#[test]
fn parse_empty_malformed_lines() {
    assert!(parse_config_line("   ").is_err());
    assert!(parse_config_line("# comment").is_err());
    let cfg = parse_config_line("http://1.2.3.4").expect("http URL parses");
    assert_eq!(cfg.protocol, "http");
}

#[test]
fn parse_error_messages() {
    match parse_config_line("ftp://1.2.3.4:21") {
        Err(WardenError::ConfigParseError(m)) => assert_eq!(m, "unsupported protocol: ftp"),
        _ => panic!("expected a parse error"),
    }
    match parse_config_line("garbage") {
        Err(WardenError::ConfigParseError(m)) => assert_eq!(m, "unknown line: garbage"),
        _ => panic!("expected a parse error"),
    }
}

#[test]
fn parse_feed_fields() {
    let c = parse_config_line("vless://u@1.2.3.4:8443/de#x").unwrap();
    assert_eq!(c.protocol, "vless");
    assert_eq!(c.host, "1.2.3.4");
    assert_eq!(c.port, 8443);
    assert_eq!(c.source.as_deref(), Some("discovery_feed"));
    assert_eq!(c.health_score_milli, Some(500));
    assert_eq!(c.region.as_deref(), Some("DE"));
    let c = parse_config_line("trojan://p@h.example:443#a&region=nl").unwrap();
    assert_eq!(c.region.as_deref(), Some("NL"));
    let c = parse_config_line("ss://p@h.example").unwrap();
    assert_eq!(c.port, 8388);
}

#[test]
fn rough_host_port() {
    assert_eq!(extract_host_port_rough("x@host:1234"), ("host".to_string(), 1234));
    assert_eq!(extract_host_port_rough("x@host:abc"), ("host".to_string(), 443));
    assert_eq!(extract_host_port_rough("x@host"), ("host".to_string(), 443));
    assert_eq!(extract_host_port_rough("nohost"), ("unknown".to_string(), 443));
    assert_eq!(extract_host_port_rough("a@b@c:-7"), ("b@c".to_string(), -7));
}

#[test]
fn dedup_collapses_near_duplicates() {
    let engine = DiscoveryEngine::new(vec![]);
    let a = cfg(1, "vless://a@1.2.3.4:443", "vless", "1.2.3.4", 443, true);
    let b = cfg(2, "vless://a@1.2.3.4:443?foo=bar", "vless", "1.2.3.4", 443, true);
    let c = cfg(3, "trojan://x@5.6.7.8:443", "trojan", "5.6.7.8", 443, true);
    let out = engine.deduplicate(vec![a, b, c]);
    assert_eq!(out.len(), 2, "near-duplicate (same host/port/proto) must collapse");
}

#[test]
fn dedup_drops_empty_and_repeated_lines() {
    let engine = DiscoveryEngine::new(vec![]);
    let a = cfg(1, "", "vless", "h", 1, true);
    let b = cfg(2, "l", "vless", "h", 1, true);
    let c = cfg(3, "l", "trojan", "k", 2, true);
    let out = engine.deduplicate(vec![a, b, c]);
    assert_eq!(out.len(), 1);
    assert_eq!(out[0].id, 2);
}

#[test]
fn filter_protocols_unknown_dropped() {
    let engine = DiscoveryEngine::new(vec![]);
    let allowed = cfg(1, "vless://a@1.2.3.4:443", "vless", "1.2.3.4", 443, true);
    let dead = cfg(2, "vless://b@1.2.3.5:443", "vless", "1.2.3.5", 443, false);
    let unknown = cfg(3, "ftp://c@1.2.3.6:21", "ftp", "1.2.3.6", 21, true);
    let out = engine.filter_protocols(vec![allowed, dead, unknown]);
    assert_eq!(out.len(), 1, "only alive + allowed protocol survives");
    assert_eq!(out[0].host, "1.2.3.4");
}

#[test]
fn decode_plain_and_multi_base64() {
    let plain = decode_source("line1\nline2\n# c\n", &SourceFormat::Plain);
    assert_eq!(plain, vec!["line1", "line2", "# c"]);

    let inner = base64::engine::general_purpose::STANDARD.encode("inner-line");
    let multi = decode_source(&inner, &SourceFormat::MultiBase64);
    assert_eq!(multi, vec!["inner-line"]);
}

#[test]
fn decode_base64_whole_and_fallback() {
    let blob = base64::engine::general_purpose::STANDARD.encode("a\nb\n");
    let out = decode_source(&format!("  {blob}\n"), &SourceFormat::Base64);
    assert_eq!(out, vec!["a", "b"]);
    let out = decode_source("not base64!\nx", &SourceFormat::Base64);
    assert_eq!(out, vec!["not base64!", "x"]);
}

#[test]
fn feed_text_to_configs() {
    let text = "# header\nvless://u@1.1.1.1:443\n\nftp://x\n  trojan://p@2.2.2.2:8443  \n";
    let out = configs_from_text(text, &SourceFormat::Plain);
    assert_eq!(out.len(), 2);
    assert_eq!(out[0].protocol, "vless");
    assert_eq!(out[1].port, 8443);
}

#[test]
fn default_sources_are_base64_feeds() {
    let s = default_sources();
    assert_eq!(s.len(), 4);
    assert_eq!(s[0].name, "all");
    assert_eq!(s[3].name, "ss");
    assert!(s.iter().all(|x| x.format == SourceFormat::Base64));
    let e = DiscoveryEngine::new(s);
    assert_eq!(e.timeout_ms, 30_000);
}

#[test]
fn health_filter_drops_dead_and_negative() {
    let engine = DiscoveryEngine::new(vec![]);
    let mut a = cfg(1, "a", "vless", "h", 1, true);
    a.health_score_milli = Some(-1);
    let b = cfg(2, "b", "vless", "h", 1, false);
    let c = cfg(3, "c", "vless", "h", 1, true);
    let out = health_filter(engine, vec![a, b, c]);
    assert_eq!(out.len(), 1);
    assert_eq!(out[0].id, 3);
}
