use warden_core::config::{ApiConfig, Mode, OpsecConfig, ProtocolsConfig, RotationConfig, WardenConfig};

#[test]
fn mode_default_is_civilian() {
    assert_eq!(Mode::default(), Mode::Civilian);
    assert!(!Mode::default().is_operator());
}

#[test]
fn mode_is_operator() {
    assert!(Mode::Operator.is_operator());
    assert!(!Mode::Civilian.is_operator());
}

#[test]
fn mode_unlock_with_correct_code() {
    let key = "GREYHOUND-19-OPERATOR";
    assert_eq!(Mode::unlock(key), Mode::Operator);
}

#[test]
fn mode_unlock_with_wrong_code() {
    assert_eq!(Mode::unlock("wrong-code"), Mode::Civilian);
}

#[test]
fn mode_unlock_with_empty_code() {
    assert_eq!(Mode::unlock(""), Mode::Civilian);
}

#[test]
fn default_api_config() {
    let cfg = ApiConfig::default();
    assert_eq!(cfg.base_url, "https://fakeonomics.online");
    assert_eq!(cfg.timeout_seconds, 30);
    assert!(cfg.auth_token.is_none());
    assert_eq!(cfg.user_agent, "Warden/0.1.0");
}

#[test]
fn default_protocols_config() {
    let cfg = ProtocolsConfig::default();
    assert!(cfg.wireguard_enabled);
    assert!(cfg.vless_enabled);
    assert!(cfg.shadowsocks_enabled);
    assert!(cfg.hysteria2_enabled);
    assert_eq!(cfg.preferred[0], "vless");
    assert_eq!(cfg.preferred.len(), 4);
}

#[test]
fn default_rotation_config() {
    let cfg = RotationConfig::default();
    assert!(cfg.enabled);
    assert_eq!(cfg.interval_seconds, 30);
    assert_eq!(cfg.max_failures_before_rotate, 3);
    assert_eq!(cfg.prefer_regions.len(), 5);
    assert_eq!(cfg.exclude_countries.len(), 3);
}

#[test]
fn default_opsec_config() {
    let cfg = OpsecConfig::default();
    assert!(cfg.enabled);
    assert!(cfg.fingerprint_rotation);
    assert!(cfg.traffic_shaping);
    assert!(cfg.hwid_spoof);
    assert!(cfg.kill_switch);
    assert!(cfg.dns_leak_protection);
    assert!(cfg.padding);
    assert!(!cfg.auto_on_connect);
}

#[test]
fn default_warden_config() {
    let cfg = WardenConfig::default();
    assert_eq!(cfg.mode, Mode::Civilian);
    assert_eq!(cfg.protocols.preferred.len(), 4);
    assert!(cfg.rotation.enabled);
    assert!(cfg.opsec.enabled);
}
