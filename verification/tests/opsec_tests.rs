use warden_core::config::{Mode, OpsecConfig};
use warden_core::opsec::{fingerprint_for_byte, OpsecManager};

#[test]
fn new_defaults_to_civilian() {
    let opsec = OpsecManager::new(OpsecConfig::default());
    assert_eq!(opsec.mode(), Mode::Civilian);
    assert!(!opsec.mode().is_operator());
}

#[test]
fn with_mode_operator_sets_enabled() {
    let mut cfg = OpsecConfig::default();
    cfg.enabled = false;
    let opsec = OpsecManager::with_mode(cfg, Mode::Operator);
    assert!(opsec.mode().is_operator());
    let status = opsec.status();
    assert!(status.enabled);
    assert!(status.mode_operator);
}

#[test]
fn with_mode_civilian_keeps_config() {
    let mut cfg = OpsecConfig::default();
    cfg.enabled = false;
    let opsec = OpsecManager::with_mode(cfg, Mode::Civilian);
    let status = opsec.status();
    assert!(!status.enabled);
    assert!(!status.mode_operator);
}

#[test]
fn unlock_correct_code() {
    let mut opsec = OpsecManager::new(OpsecConfig::default());
    let key = "GREYHOUND-19-OPERATOR";
    assert!(opsec.unlock(key));
    assert!(opsec.mode().is_operator());
}

#[test]
fn unlock_wrong_code() {
    let mut opsec = OpsecManager::new(OpsecConfig::default());
    assert!(!opsec.unlock("wrong"));
    assert!(!opsec.mode().is_operator());
}

#[test]
fn unlock_empty_code() {
    let mut opsec = OpsecManager::new(OpsecConfig::default());
    assert!(!opsec.unlock(""));
    assert!(!opsec.mode().is_operator());
}

#[test]
fn lock_resets_to_civilian() {
    let mut opsec = OpsecManager::new(OpsecConfig::default());
    let key = "GREYHOUND-19-OPERATOR";
    opsec.unlock(key);
    assert!(opsec.mode().is_operator());
    opsec.lock();
    assert!(!opsec.mode().is_operator());
}

#[test]
fn generate_hwid_non_empty_when_enabled() {
    let opsec = OpsecManager::new(OpsecConfig::default());
    let hwid = opsec.generate_hwid();
    assert!(!hwid.is_empty());
    assert!(hwid.len() >= 20);
}

#[test]
fn generate_hwid_empty_when_disabled() {
    let mut cfg = OpsecConfig::default();
    cfg.hwid_spoof = false;
    let opsec = OpsecManager::new(cfg);
    assert!(opsec.generate_hwid().is_empty());
}

#[test]
fn generate_hwid_different_each_call() {
    let opsec = OpsecManager::new(OpsecConfig::default());
    let hwid1 = opsec.generate_hwid();
    let hwid2 = opsec.generate_hwid();
    assert_ne!(hwid1, hwid2);
}

#[test]
fn pick_fingerprint_returns_valid() {
    let opsec = OpsecManager::new(OpsecConfig::default());
    let fp = opsec.pick_fingerprint();
    let valid = ["chrome", "firefox", "safari", "edge", "360", "qq"];
    assert!(valid.contains(&fp), "fingerprint '{}' is not in the valid set", fp);
}

#[test]
fn pick_fingerprint_fixed_when_rotation_disabled() {
    let mut cfg = OpsecConfig::default();
    cfg.fingerprint_rotation = false;
    let opsec = OpsecManager::new(cfg);
    assert_eq!(opsec.pick_fingerprint(), "chrome");
}

#[test]
fn padding_size_zero_when_disabled() {
    let mut cfg = OpsecConfig::default();
    cfg.padding = false;
    let opsec = OpsecManager::new(cfg);
    assert_eq!(opsec.padding_size(), 0);
}

#[test]
fn padding_size_in_range_when_enabled() {
    let opsec = OpsecManager::new(OpsecConfig::default());
    for _ in 0..100 {
        let p = opsec.padding_size();
        assert!(p <= 255, "padding_size {} exceeds range [0,255]", p);
    }
}

#[test]
fn toggle_requires_operator_mode() {
    let mut opsec = OpsecManager::new(OpsecConfig::default());
    assert!(!opsec.toggle("kill_switch", false));
}

#[test]
fn toggle_valid_field_operator() {
    let mut opsec = OpsecManager::with_mode(OpsecConfig::default(), Mode::Operator);
    assert!(opsec.toggle("kill_switch", false));
    assert!(!opsec.status().kill_switch);
    assert!(opsec.toggle("kill_switch", true));
    assert!(opsec.status().kill_switch);
}

#[test]
fn toggle_invalid_field() {
    let mut opsec = OpsecManager::with_mode(OpsecConfig::default(), Mode::Operator);
    assert!(!opsec.toggle("nonexistent_field", true));
}

#[test]
fn toggle_all_features() {
    let mut opsec = OpsecManager::with_mode(OpsecConfig::default(), Mode::Operator);
    assert!(opsec.toggle("fingerprint_rotation", false));
    assert!(opsec.toggle("traffic_shaping", false));
    assert!(opsec.toggle("hwid_spoof", false));
    assert!(opsec.toggle("kill_switch", false));
    assert!(opsec.toggle("dns_leak_protection", false));
    assert!(opsec.toggle("padding", false));
    let s = opsec.status();
    assert!(!s.fingerprint_rotation);
    assert!(!s.traffic_shaping);
    assert!(!s.hwid_spoof);
    assert!(!s.kill_switch);
    assert!(!s.dns_leak_protection);
    assert!(!s.padding);
}

#[test]
fn status_reflects_config() {
    let mut cfg = OpsecConfig::default();
    cfg.enabled = true;
    cfg.fingerprint_rotation = false;
    cfg.hwid_spoof = false;
    let opsec = OpsecManager::new(cfg);
    let s = opsec.status();
    assert!(s.enabled);
    assert!(!s.fingerprint_rotation);
    assert!(!s.hwid_spoof);
    assert!(!s.mode_operator);
}

#[test]
fn on_kill_switch_no_panic_when_disabled() {
    let mut cfg = OpsecConfig::default();
    cfg.kill_switch = false;
    let opsec = OpsecManager::new(cfg);
    opsec.on_kill_switch();
}

#[test]
fn on_kill_switch_no_panic_when_enabled() {
    let opsec = OpsecManager::new(OpsecConfig::default());
    opsec.on_kill_switch();
}

#[test]
fn kill_switch_engages_only_when_on() {
    let mut cfg = OpsecConfig::default();
    assert!(OpsecManager::new(cfg).on_kill_switch());
    cfg.kill_switch = false;
    assert!(!OpsecManager::new(cfg).on_kill_switch());
}

#[test]
fn hwid_is_22_url_safe_chars() {
    let opsec = OpsecManager::new(OpsecConfig::default());
    let h = opsec.generate_hwid();
    assert_eq!(h.len(), 22);
    assert!(h.chars().all(|c| c.is_ascii_alphanumeric() || c == '-' || c == '_'));
}

#[test]
fn fingerprint_byte_mapping() {
    // 0 * 0x9E = 0 -> chrome; 1 * 0x9E = 158, 158 % 6 = 2 -> safari
    assert_eq!(fingerprint_for_byte(0), "chrome");
    assert_eq!(fingerprint_for_byte(1), "safari");
    // 2 * 0x9E = 316 wraps to 60, 60 % 6 = 0 -> chrome
    assert_eq!(fingerprint_for_byte(2), "chrome");
}

#[test]
fn unlock_then_toggle_then_lock() {
    let mut cfg = OpsecConfig::default();
    cfg.enabled = false;
    let mut opsec = OpsecManager::new(cfg);
    assert!(!opsec.toggle("padding", false));
    assert!(opsec.unlock("GREYHOUND-19-OPERATOR"));
    assert!(opsec.status().enabled);
    assert!(opsec.toggle("padding", false));
    opsec.lock();
    assert!(!opsec.status().padding);
    assert!(!opsec.toggle("padding", true));
}

#[test]
fn padding_is_the_drawn_byte_when_enabled() {
    let mut cfg = OpsecConfig::default();
    cfg.padding = true;
    let opsec = OpsecManager::new(cfg);
    assert_eq!(opsec.padding_for(200), 200);
    assert_eq!(opsec.padding_for(0), 0);
    let mut off = OpsecConfig::default();
    off.padding = false;
    assert_eq!(OpsecManager::new(off).padding_for(200), 0);
}
