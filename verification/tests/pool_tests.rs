use std::time::{SystemTime, UNIX_EPOCH};
use warden_core::api::ServerConfig;
use warden_core::config::PerformanceMode;
use warden_core::decision::{rank_with_cache, NoopDecisionHook, ThreatContext};
use warden_core::pool::{ConfigScoreCache, MockProbe, Probe, QualityMetrics};

fn metrics(latency_ms: u64, last_tested: u64) -> QualityMetrics {
    QualityMetrics {
        latency_us: latency_ms * 1000,
        throughput_kbps: 100_000,
        handshake_ok: true,
        dpi_resistance: true,
        last_tested,
    }
}

fn now_secs() -> u64 {
    SystemTime::now().duration_since(UNIX_EPOCH).unwrap().as_secs()
}

fn server(id: i64, host: &str, protocol: &str, health_milli: Option<i64>, region: Option<&str>) -> ServerConfig {
    ServerConfig {
        id,
        config_line: String::new(),
        protocol: protocol.into(),
        host: host.into(),
        port: 51820,
        is_alive: true,
        source: None,
        health_score_milli: health_milli,
        response_time_ms: None,
        region: region.map(|r| r.to_string()),
    }
}

fn context(mode: PerformanceMode, configs: Vec<ServerConfig>) -> ThreatContext {
    ThreatContext {
        network: "n".into(),
        goal: "g".into(),
        jurisdiction: None,
        battery: 0,
        operator_mode: false,
        mode,
        configs,
    }
}

#[test]
fn stale_cleanup() {
    let mut cache = ConfigScoreCache::new();
    let now = now_secs();
    cache.put("fresh", metrics(10, now));
    cache.put("stale", metrics(10, now - 7200));
    cache.cleanup_stale();
    assert!(cache.get("fresh").is_some());
    assert!(cache.get("stale").is_none());
}

#[test]
fn cleanup_at_keeps_less_than_an_hour_and_future() {
    let mut cache = ConfigScoreCache::new();
    cache.put("a", metrics(1, 10_000));
    cache.put("b", metrics(2, 10_000 - 3599));
    cache.put("c", metrics(3, 10_000 - 3600));
    cache.put("d", metrics(4, 20_000));
    cache.cleanup_stale_at(10_000);
    let ids: Vec<&str> = cache.entries.iter().map(|e| e.id.as_str()).collect();
    assert_eq!(ids, vec!["a", "b", "d"]);
    assert_eq!(cache.len(), 3);
}

#[test]
fn put_replaces_in_place_and_appends_new() {
    let mut cache = ConfigScoreCache::new();
    assert!(cache.is_empty());
    cache.put("mci-wg", metrics(25, 1));
    cache.put("other", metrics(30, 1));
    cache.put("mci-wg", metrics(40, 2));
    assert_eq!(cache.len(), 2);
    assert_eq!(cache.entries[0].id, "mci-wg");
    let e = cache.get("mci-wg").unwrap();
    assert_eq!(e.metrics.latency_us, 40_000);
    assert_eq!(e.metrics.last_tested, 2);
    assert!(cache.get("missing").is_none());
}

#[test]
fn mock_probe_reports_by_protocol() {
    let p = MockProbe;
    let wg = p.measure(&server(-45, "h", "wireguard", None, None));
    assert_eq!(wg.latency_us, (20 + 45 % 30) * 1000);
    assert_eq!(wg.throughput_kbps, 800_000);
    assert!(wg.dpi_resistance && wg.handshake_ok);
    assert_eq!(wg.last_tested, 0);
    let vl = p.probe(&server(7, "h", "vless", None, None));
    assert_eq!(vl.latency_us, 57_000);
    assert!(vl.dpi_resistance);
    let ss = p.measure(&server(51, "h", "shadowsocks", None, None));
    assert_eq!((ss.latency_us, ss.throughput_kbps, ss.dpi_resistance), (81_000, 300_000, false));
    let hy = p.measure(&server(61, "h", "hysteria2", None, None));
    assert_eq!((hy.latency_us, hy.throughput_kbps), (101_000, 600_000));
    let other = p.measure(&server(i64::MIN, "h", "trojan", None, None));
    assert_eq!((other.latency_us, other.throughput_kbps, other.dpi_resistance), (150_000, 100_000, false));
}

#[test]
fn unknown_context_never_empty() {
    let ctx = context(PerformanceMode::Balanced, vec![server(9, "x", "wireguard", Some(100), None)]);
    let ranked = rank_with_cache(&ctx, &ConfigScoreCache::new());
    assert_eq!(ranked.len(), 1);
    assert_eq!(ranked[0].host, "x");
}

#[test]
fn empty_configs_returns_empty_not_panic() {
    let ctx = context(PerformanceMode::Balanced, vec![]);
    assert!(rank_with_cache(&ctx, &ConfigScoreCache::new()).is_empty());
}

#[test]
fn unknown_jurisdiction_handled() {
    let mut ctx = context(PerformanceMode::Stealth, vec![server(1, "h1", "vless", Some(700), Some("EU"))]);
    ctx.jurisdiction = Some("XK".into());
    ctx.network = "tor".into();
    ctx.goal = "evade".into();
    ctx.battery = 12;
    ctx.operator_mode = true;
    let ranked = rank_with_cache(&ctx, &ConfigScoreCache::new());
    assert_eq!(ranked.len(), 1);
}

#[test]
fn battery_and_operator_mode_are_context_only() {
    let mut ctx = context(
        PerformanceMode::Speed,
        vec![
            server(0, "low", "wireguard", Some(200), Some("US")),
            server(0, "high", "wireguard", Some(900), Some("US")),
        ],
    );
    ctx.battery = 255;
    ctx.operator_mode = true;
    let ranked = rank_with_cache(&ctx, &ConfigScoreCache::new());
    assert_eq!(ranked[0].host, "high");
}

#[test]
fn cached_configs_get_a_tenth_of_a_point() {
    let ctx = context(
        PerformanceMode::Balanced,
        vec![
            server(1, "a", "vless", Some(500), None),
            server(-2, "b", "vless", Some(450), None),
            server(3, "c", "vless", None, None),
            server(4, "d", "vless", Some(550), None),
        ],
    );
    let mut cache = ConfigScoreCache::new();
    cache.put("-2", metrics(5, 0));
    let hosts: Vec<String> = rank_with_cache(&ctx, &cache).into_iter().map(|c| c.host).collect();
    assert_eq!(hosts, vec!["b", "d", "a", "c"]);
    cache.put("1", metrics(5, 0));
    let hosts: Vec<String> = rank_with_cache(&ctx, &cache).into_iter().map(|c| c.host).collect();
    assert_eq!(hosts, vec!["a", "b", "d", "c"]);
}

#[test]
fn put_leaves_other_ids_alone_and_cleanup_twice_is_once() {
    let mut cache = ConfigScoreCache::new();
    cache.put("a", metrics(1, 100));
    cache.put("b", metrics(2, 5_000));
    cache.put("a", metrics(3, 5_000));
    assert_eq!(cache.get("b").unwrap().metrics.latency_us, 2_000);
    cache.cleanup_stale_at(7_000);
    let once: Vec<String> = cache.entries.iter().map(|e| e.id.clone()).collect();
    cache.cleanup_stale_at(7_000);
    let twice: Vec<String> = cache.entries.iter().map(|e| e.id.clone()).collect();
    assert_eq!(once, vec!["a", "b"]);
    assert_eq!(once, twice);
}

#[test]
fn empty_cache_ranks_like_health_and_keeps_everything() {
    let ctx = context(
        PerformanceMode::Balanced,
        vec![
            server(1, "a", "vless", Some(300), None),
            server(2, "b", "vless", None, None),
            server(3, "c", "vless", Some(300), None),
            server(4, "d", "vless", Some(-5), None),
            server(5, "e", "vless", Some(800), None),
        ],
    );
    let with_cache: Vec<String> = rank_with_cache(&ctx, &ConfigScoreCache::new()).into_iter().map(|c| c.host).collect();
    let by_health: Vec<String> = NoopDecisionHook.rank_by_health(&ctx).into_iter().map(|c| c.host).collect();
    assert_eq!(with_cache, by_health);
    assert_eq!(with_cache, vec!["e", "a", "c", "b", "d"]);
}
