use warden_core::api::ServerConfig;
use warden_core::config::ProtocolsConfig;
use warden_core::protocol::{enabled_for, rank_candidates, ProtocolManager};

fn make_cfg(proto: &str, region: &str, score_milli: i64, port: i32) -> ServerConfig {
    let host = format!("{}.example.com", region.to_lowercase());
    let url = format!("{}://user@{}:{}/?#{}", proto, host, port, region);
    ServerConfig {
        id: 1,
        config_line: url,
        protocol: proto.to_string(),
        host,
        port,
        is_alive: true,
        source: None,
        health_score_milli: Some(score_milli),
        response_time_ms: Some(100),
        region: Some(region.to_string()),
    }
}

#[test]
fn enabled_for_all_protocols() {
    let cfg = ProtocolsConfig::default();
    assert!(enabled_for(&cfg, "wireguard"));
    assert!(enabled_for(&cfg, "vless"));
    assert!(enabled_for(&cfg, "shadowsocks"));
    assert!(enabled_for(&cfg, "hysteria2"));
}

#[test]
fn enabled_for_disabled_protocol() {
    let cfg = ProtocolsConfig {
        preferred: vec![],
        wireguard_enabled: false,
        vless_enabled: true,
        shadowsocks_enabled: false,
        hysteria2_enabled: true,
    };
    assert!(!enabled_for(&cfg, "wireguard"));
    assert!(enabled_for(&cfg, "vless"));
    assert!(!enabled_for(&cfg, "shadowsocks"));
    assert!(enabled_for(&cfg, "hysteria2"));
}

#[test]
fn enabled_for_unknown_protocol() {
    let cfg = ProtocolsConfig::default();
    assert!(!enabled_for(&cfg, "unknown"));
    assert!(!enabled_for(&cfg, "openvpn"));
}

#[test]
fn try_connect_picks_vless_first() {
    let mut mgr = ProtocolManager::new(ProtocolsConfig::default());
    let configs = vec![make_cfg("wireguard", "DE", 900, 51820), make_cfg("vless", "DE", 900, 443)];
    let prefer: Vec<String> = vec!["DE".into()];
    let conn = mgr.try_connect(&prefer, &[], false, &configs).unwrap();
    assert!(conn.is_some());
    assert_eq!(conn.unwrap().protocol, "vless");
}

#[test]
fn try_connect_excludes_country_civilian() {
    let mut mgr = ProtocolManager::new(ProtocolsConfig::default());
    let configs = vec![make_cfg("vless", "CN", 1000, 443), make_cfg("vless", "DE", 800, 443)];
    let exclude: Vec<String> = vec!["CN".into()];
    let conn = mgr.try_connect(&[], &exclude, false, &configs).unwrap();
    assert!(conn.is_some());
    assert_eq!(conn.unwrap().host, "de.example.com");
}

#[test]
fn try_connect_operator_bypasses_exclude() {
    let mut mgr = ProtocolManager::new(ProtocolsConfig::default());
    let configs = vec![make_cfg("vless", "CN", 1000, 443), make_cfg("vless", "DE", 800, 443)];
    let exclude: Vec<String> = vec!["CN".into()];
    let conn = mgr.try_connect(&[], &exclude, true, &configs).unwrap();
    assert!(conn.is_some());
    assert_eq!(conn.unwrap().host, "cn.example.com");
}

#[test]
fn try_connect_no_alive_configs() {
    let mut mgr = ProtocolManager::new(ProtocolsConfig::default());
    let conn = mgr.try_connect(&[], &[], false, &[]).unwrap();
    assert!(conn.is_none());
}

#[test]
fn try_connect_dead_configs_only() {
    let mut mgr = ProtocolManager::new(ProtocolsConfig::default());
    let mut dead = make_cfg("vless", "DE", 500, 443);
    dead.is_alive = false;
    let conn = mgr.try_connect(&[], &[], false, &[dead]).unwrap();
    assert!(conn.is_none());
}

#[test]
fn try_connect_disabled_protocol_skipped() {
    let cfg = ProtocolsConfig {
        preferred: vec!["wireguard".into(), "vless".into()],
        wireguard_enabled: false,
        vless_enabled: true,
        shadowsocks_enabled: true,
        hysteria2_enabled: true,
    };
    let mut mgr = ProtocolManager::new(cfg);
    let configs = vec![make_cfg("wireguard", "DE", 1000, 51820), make_cfg("vless", "DE", 800, 443)];
    let conn = mgr.try_connect(&[], &[], false, &configs).unwrap();
    assert_eq!(conn.unwrap().protocol, "vless");
}

#[test]
fn try_connect_prefs_preferred_region() {
    let mut mgr = ProtocolManager::new(ProtocolsConfig::default());
    let configs = vec![make_cfg("vless", "FR", 500, 443), make_cfg("vless", "DE", 500, 443)];
    let prefer: Vec<String> = vec!["DE".into(), "FR".into()];
    let conn = mgr.try_connect(&prefer, &[], false, &configs).unwrap();
    assert_eq!(conn.unwrap().host, "de.example.com");
}

#[test]
fn disconnect_removes_session() {
    let mut mgr = ProtocolManager::new(ProtocolsConfig::default());
    let configs = vec![make_cfg("vless", "DE", 900, 443)];
    let conn = mgr.try_connect(&[], &[], false, &configs).unwrap().unwrap();
    assert_eq!(mgr.list().len(), 1);
    mgr.disconnect(&conn.session_id).unwrap();
    assert_eq!(mgr.list().len(), 0);
}

#[test]
fn disconnect_nonexistent_is_noop() {
    let mut mgr = ProtocolManager::new(ProtocolsConfig::default());
    mgr.disconnect("nonexistent").unwrap();
    assert!(mgr.list().is_empty());
}

#[test]
fn open_session_generates_session() {
    let mut mgr = ProtocolManager::new(ProtocolsConfig::default());
    let configs = vec![make_cfg("vless", "DE", 900, 443)];
    let conn = mgr.try_connect(&[], &[], false, &configs).unwrap().unwrap();
    assert!(!conn.session_id.is_empty());
    assert_eq!(conn.session_id.len(), 36);
    assert_eq!(conn.protocol, "vless");
    assert_eq!(conn.host, "de.example.com");
    assert_eq!(conn.port, 443);
    assert_eq!(conn.server, "de.example.com:443");
    assert_eq!(conn.bytes_sent, 0);
    assert_eq!(conn.bytes_received, 0);
}

#[test]
fn list_empty_when_no_sessions() {
    let mgr = ProtocolManager::new(ProtocolsConfig::default());
    assert!(mgr.list().is_empty());
}

#[test]
fn connect_multiple_creates_sessions() {
    let mut mgr = ProtocolManager::new(ProtocolsConfig::default());
    let configs = vec![make_cfg("vless", "DE", 900, 443), make_cfg("wireguard", "US", 800, 51820)];
    let conn1 = mgr.try_connect(&[], &[], false, &configs).unwrap().unwrap();
    assert_eq!(mgr.list().len(), 1);
    mgr.disconnect(&conn1.session_id).unwrap();
    assert_eq!(mgr.list().len(), 0);
    let _conn2 = mgr.try_connect(&[], &[], false, &configs).unwrap().unwrap();
    assert_eq!(mgr.list().len(), 1);
}

#[test]
fn unparsable_line_is_skipped_for_next_candidate() {
    let mut mgr = ProtocolManager::new(ProtocolsConfig::default());
    let mut bad = make_cfg("vless", "DE", 1000, 443);
    bad.config_line = "not a url".into();
    let good = make_cfg("vless", "FR", 100, 443);
    let conn = mgr.try_connect(&[], &[], false, &[bad, good]).unwrap().unwrap();
    assert_eq!(conn.host, "fr.example.com");
}

#[test]
fn ranking_orders_by_key_then_position() {
    let configs = vec![
        make_cfg("vless", "FR", 500, 1),
        make_cfg("vless", "DE", 700, 2),
        make_cfg("trojan", "DE", 900, 3),
        make_cfg("vless", "NL", 500, 4),
        make_cfg("vless", "de", 700, 5),
    ];
    let prefer: Vec<String> = vec!["DE".into()];
    // DE keys: 700 - 0; FR/NL: 500 - 99
    let r = rank_candidates(&configs, "vless", &prefer, &[], false);
    assert_eq!(r, vec![1, 4, 0, 3]);
    let excl: Vec<String> = vec!["de".into()];
    let r = rank_candidates(&configs, "vless", &prefer, &excl, false);
    assert_eq!(r, vec![0, 3]);
    let r = rank_candidates(&configs, "vless", &prefer, &excl, true);
    assert_eq!(r, vec![1, 4, 0, 3]);
}

#[test]
fn only_five_best_are_tried() {
    let mut mgr = ProtocolManager::new(ProtocolsConfig::default());
    let mut configs = Vec::new();
    for i in 0..6 {
        let mut c = make_cfg("vless", "DE", 1000 - i, 443);
        if i < 5 {
            c.config_line = "bad line".into();
        }
        configs.push(c);
    }
    let conn = mgr.try_connect(&[], &[], false, &configs).unwrap();
    assert!(conn.is_none());
    assert!(mgr.list().is_empty());
}
