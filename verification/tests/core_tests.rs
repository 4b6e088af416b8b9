use warden_core::api::ServerConfig;
use warden_core::config::{Mode, OpsecConfig, PerformanceMode, ProtocolsConfig};
use warden_core::opsec::OpsecManager;
use warden_core::decision::{DecisionHook, NoopDecisionHook, ThreatContext};
use warden_core::protocol::{ActiveConnection, ProtocolManager};
use rand::rngs::StdRng;
use rand::SeedableRng;
use warden_core::ternary_vsa::{bind, sign_from_draw, trit_from_draw, unbind, unify, TernaryVSA};
use warden_core::live_probe::{ProbeReport, ProbeVerdict};
use warden_core::tun::{Tun, TunTap};
use warden_core::warden::{
    after_connect_attempt, after_connect_round, begin_rotation, disconnect_all, rotation_due, RetryStep,
    connect_candidates, drop_connections, establish, finish_rotation, partial_split,
    split_for_rotation, ConnectStep, RotationStart, SelfTestReport,
};
use warden_core::error::WardenError;
use warden_core::live_probe::{probe_kind, AliveSearch, ProbeKind};

fn server(proto: &str, host: &str, port: i32, score: i64) -> ServerConfig {
    ServerConfig {
        id: port as i64,
        config_line: format!("{proto}://u@{host}:{port}"),
        protocol: proto.into(),
        host: host.into(),
        port,
        is_alive: true,
        source: None,
        health_score_milli: Some(score),
        response_time_ms: None,
        region: None,
    }
}

fn conn(host: &str, port: i32) -> ActiveConnection {
    ActiveConnection {
        session_id: format!("{host}:{port}"),
        protocol: "vless".into(),
        server: format!("{host}:{port}"),
        host: host.into(),
        port,
        connected_at_ms: 0,
        bytes_sent: 0,
        bytes_received: 0,
    }
}

#[test]
fn t_partial_split() {
    assert_eq!(partial_split(0), (0, 0));
    assert_eq!(partial_split(1), (0, 1));
    assert_eq!(partial_split(2), (1, 1));
    assert_eq!(partial_split(3), (1, 2));
    assert_eq!(partial_split(4), (2, 2));
    assert_eq!(partial_split(5), (2, 3));
    assert_eq!(partial_split(10), (5, 5));
    for n in 1..64 {
        let (k, r) = partial_split(n);
        assert_eq!(k + r, n, "split must sum to total for n={n}");
        assert!(r >= 1, "at least one connection must rotate for n={n}");
        assert!(k <= r, "keep must not exceed rotate for n={n}");
    }
}

#[test]
fn rotation_split_keeps_first_half() {
    let (keep, rot) = split_for_rotation(vec![conn("a", 1), conn("b", 2), conn("c", 3)]);
    assert_eq!(keep.len(), 1);
    assert_eq!(rot.len(), 2);
    assert_eq!(keep[0].host, "a");
}

#[test]
fn establish_uses_distinct_endpoints() {
    let mut mgr = ProtocolManager::new(ProtocolsConfig::default());
    let alive = vec![server("vless", "a", 1, 900), server("vless", "b", 2, 800), server("vless", "a", 1, 700)];
    let conns = establish(&mut mgr, &alive, &[], &[], false, 4);
    let hosts: Vec<&str> = conns.iter().map(|c| c.host.as_str()).collect();
    // a, then b, then (refilled) a again, then b again
    assert_eq!(hosts, vec!["a", "b", "a", "b"]);
    assert_eq!(mgr.list().len(), 4);
}

#[test]
fn establish_stops_when_nothing_connects() {
    let mut mgr = ProtocolManager::new(ProtocolsConfig::default());
    let alive = vec![server("trojan", "a", 1, 900)];
    let conns = establish(&mut mgr, &alive, &[], &[], false, 4);
    assert!(conns.is_empty());
}

#[test]
fn drop_kept_endpoints() {
    let alive = vec![server("vless", "a", 1, 1), server("vless", "b", 2, 1), server("vless", "a", 3, 1)];
    let left = drop_connections(&alive, &[conn("a", 1)]);
    assert_eq!(left.len(), 2);
    assert_eq!(left[0].host, "b");
}

#[test]
fn self_test_report_summary() {
    let r = SelfTestReport::from_stages(true, vec!["x".into()], true, Some((1, 2, 3, 4)));
    assert!(r.service_ok);
    let r = SelfTestReport::from_stages(true, vec![], true, Some((1, 2, 3, 4)));
    assert!(!r.service_ok);
}

#[test]
fn noop_hook_ranks_by_health() {
    let mut unscored = server("vless", "z", 9, 0);
    unscored.health_score_milli = None;
    let ctx = ThreatContext {
        network: "n".into(),
        goal: "g".into(),
        jurisdiction: None,
        battery: 100,
        operator_mode: false,
        mode: PerformanceMode::Balanced,
        configs: vec![server("vless", "a", 1, 100), unscored, server("vless", "b", 2, 900), server("vless", "c", 3, 100)],
    };
    let hook = NoopDecisionHook;
    let out = hook.rank_protocols(&ctx);
    let hosts: Vec<&str> = out.iter().map(|c| c.host.as_str()).collect();
    assert_eq!(hosts, vec!["b", "a", "c", "z"]);
    assert_eq!(hook.name(), "noop");
}

#[test]
fn bind_unbind_identity() {
    let mut rng = StdRng::seed_from_u64(42);
    let vsa = TernaryVSA { dim: 64 };
    let x = vsa.random_bipolar(&mut rng);
    let y = vsa.random_bipolar(&mut rng);
    let bound = bind(&x, &y);
    let recovered = unbind(&bound, &y);
    assert_eq!(recovered, x, "bind/unbind is self-inverse identity on dense bipolar");
}

#[test]
fn random_vectors_have_the_dimension_and_alphabet() {
    let mut rng = StdRng::seed_from_u64(7);
    let vsa = TernaryVSA { dim: 128 };
    let t = vsa.random_vec(&mut rng);
    assert_eq!(t.len(), 128);
    assert!(t.iter().all(|&x| x == -1 || x == 0 || x == 1));
    let b = vsa.random_bipolar(&mut rng);
    assert_eq!(b.len(), 128);
    assert!(b.iter().all(|&x| x == -1 || x == 1));
    assert!(TernaryVSA { dim: 0 }.random_vec(&mut rng).is_empty());
}

#[test]
fn draws_map_to_trits() {
    assert_eq!(trit_from_draw(0), -1);
    assert_eq!(trit_from_draw(1), 0);
    assert_eq!(trit_from_draw(2), 1);
    assert_eq!(sign_from_draw(0), -1);
    assert_eq!(sign_from_draw(1), 1);
}

#[test]
fn unify_takes_column_signs() {
    let v = vec![vec![1i8, -1, 0, 1], vec![1, 1, 0, -1], vec![-1, -1, 1]];
    assert_eq!(unify(&v), vec![1, -1, 1, 0]);
    assert!(unify(&[]).is_empty());
}

#[test]
fn tun_names() {
    assert_eq!(TunTap::new("tun7").name(), "tun7");
    assert_eq!(TunTap::default().name(), "warden0");
    let dev: &dyn Tun = &TunTap::new("wg9");
    assert_eq!(dev.name(), "wg9");
}

#[test]
fn probe_report_reflects_the_outcome() {
    let cfg = server("vless", "h", 443, 500);
    let alive = ProbeReport::from_outcome(&cfg, "http://t/", Ok(42), 99, 1_000);
    assert_eq!(alive.verdict, ProbeVerdict::Alive);
    assert_eq!(alive.latency_ms, Some(42));
    assert_eq!(alive.status, Some(204));
    assert!(alive.error.is_none());
    assert_eq!(alive.target, "http://t/");
    assert_eq!(alive.checked_at_ms, 1_000);
    assert_eq!(alive.config.host, "h");
    let dead = ProbeReport::from_outcome(&cfg, "http://t/", Err("tunnel error: x".into()), 99, 2_000);
    assert_eq!(dead.verdict, ProbeVerdict::Dead);
    assert_eq!(dead.latency_ms, Some(99));
    assert_eq!(dead.status, None);
    assert_eq!(dead.error.as_deref(), Some("tunnel error: x"));
}

#[test]
fn connect_candidates_keep_alive_ones() {
    let mut dead = server("vless", "d", 4, 1);
    dead.is_alive = false;
    let alive = connect_candidates(&vec![dead.clone(), server("vless", "a", 1, 1)]).unwrap();
    assert_eq!(alive.len(), 1);
    assert_eq!(alive[0].host, "a");
    assert!(matches!(connect_candidates(&vec![dead]), Err(WardenError::NoConfigsAvailable)));
}

#[test]
fn connect_rounds_retry_then_give_up() {
    let none: Vec<ActiveConnection> = Vec::new();
    assert!(matches!(after_connect_round(1, &none), ConnectStep::RetryAfterMs(250)));
    assert!(matches!(after_connect_round(2, &none), ConnectStep::RetryAfterMs(500)));
    assert!(matches!(after_connect_round(3, &none), ConnectStep::GiveUp(WardenError::AllConnectionsFailed)));
    match after_connect_round(2, &vec![conn("a", 1), conn("b", 2)]) {
        ConnectStep::Connected(c) => assert_eq!(c.host, "a"),
        _ => panic!("expected a connection"),
    }
}

#[test]
fn rotation_off_or_empty() {
    let mut mgr = ProtocolManager::new(ProtocolsConfig::default());
    match begin_rotation(&mut mgr, false, vec![conn("a", 1)]) {
        RotationStart::Unchanged(v) => assert_eq!(v.len(), 1),
        _ => panic!("rotation off keeps the connections"),
    }
    assert!(matches!(begin_rotation(&mut mgr, true, Vec::new()), RotationStart::ConnectAfresh));
}

#[test]
fn rotation_replaces_the_second_half() {
    let mut mgr = ProtocolManager::new(ProtocolsConfig::default());
    let alive = vec![server("vless", "a", 1, 900), server("vless", "b", 2, 800), server("vless", "c", 3, 700)];
    let current = establish(&mut mgr, &alive, &[], &[], false, 2);
    assert_eq!(mgr.list().len(), 2);
    let (keep, rotated) = match begin_rotation(&mut mgr, true, current) {
        RotationStart::Rotating(keep, n) => (keep, n),
        _ => panic!("expected a rotation"),
    };
    assert_eq!(keep.len(), 1);
    assert_eq!(keep[0].host, "a");
    assert_eq!(rotated, 1);
    assert_eq!(mgr.list().len(), 1);
    let result = finish_rotation(&mut mgr, keep, rotated, &alive, &[], &[], false);
    let hosts: Vec<&str> = result.iter().map(|c| c.host.as_str()).collect();
    assert_eq!(hosts, vec!["a", "b"]);
    assert_eq!(mgr.list().len(), 2);
}

#[test]
fn rotation_without_alive_configs_keeps_half() {
    let mut mgr = ProtocolManager::new(ProtocolsConfig::default());
    let mut dead = server("vless", "x", 9, 1);
    dead.is_alive = false;
    let result = finish_rotation(&mut mgr, vec![conn("a", 1)], 1, &vec![dead], &[], &[], false);
    assert_eq!(result.len(), 1);
    assert_eq!(result[0].host, "a");
}

#[test]
fn finished_search_names_the_live_target() {
    let configs = vec![server("vless", "a", 1, 1), server("vless", "b", 443, 1), server("vless", "c", 3, 1)];
    let mut search = AliveSearch::start(configs.len(), 5);
    search.observe(ProbeVerdict::Dead, None);
    search.observe(ProbeVerdict::Alive, Some(12));
    let (found, stats) = search.finish(&configs, 7);
    assert_eq!(found.unwrap().host, "b");
    assert_eq!(stats.current_target.as_deref(), Some("b:443"));
    assert_eq!((stats.total, stats.tested, stats.alive, stats.dead), (3, 2, 1, 1));
    let none = AliveSearch::start(0, 5);
    let (found, stats) = none.finish(&Vec::new(), 7);
    assert!(found.is_none());
    assert!(stats.current_target.is_none());
}

#[test]
fn session_ids_are_v4_uuids() {
    let mut mgr = ProtocolManager::new(ProtocolsConfig::default());
    let conns = establish(&mut mgr, &vec![server("vless", "a", 1, 900)], &[], &[], false, 1);
    let id: Vec<char> = conns[0].session_id.chars().collect();
    assert_eq!(id.len(), 36);
    for (i, c) in id.iter().enumerate() {
        if [8, 13, 18, 23].contains(&i) {
            assert_eq!(*c, '-');
        } else {
            assert!(c.is_ascii_digit() || ('a'..='f').contains(c));
        }
    }
    assert_eq!(id[14], '4');
    assert!("89ab".contains(id[19]));
}

#[test]
fn disconnect_all_closes_every_session() {
    let mut mgr = ProtocolManager::new(ProtocolsConfig::default());
    let alive = vec![server("vless", "a", 1, 900), server("vless", "b", 2, 800)];
    let conns = establish(&mut mgr, &alive, &[], &[], false, 2);
    assert_eq!(mgr.list().len(), 2);
    let mut cfg = OpsecConfig::default();
    cfg.kill_switch = true;
    let opsec = OpsecManager::with_mode(cfg, Mode::Civilian);
    assert!(disconnect_all(&mut mgr, &opsec, &conns));
    assert!(mgr.list().is_empty());
    assert!(!disconnect_all(&mut mgr, &opsec, &Vec::new()));
}

#[test]
fn connect_attempts_retry_then_return_last_error() {
    assert!(matches!(after_connect_attempt(1, Err(WardenError::NoConfigsAvailable)), RetryStep::RetryAfterMs(250)));
    assert!(matches!(after_connect_attempt(2, Err(WardenError::NoConfigsAvailable)), RetryStep::RetryAfterMs(500)));
    assert!(matches!(
        after_connect_attempt(3, Err(WardenError::NoConfigsAvailable)),
        RetryStep::Done(Err(WardenError::NoConfigsAvailable))
    ));
    match after_connect_attempt(1, Ok(conn("a", 1))) {
        RetryStep::Done(Ok(c)) => assert_eq!(c.host, "a"),
        _ => panic!("a connection ends the retries"),
    }
}

#[test]
fn rotation_due_only_when_active_and_enabled() {
    assert!(rotation_due(2, true));
    assert!(!rotation_due(0, true));
    assert!(!rotation_due(2, false));
}

#[test]
fn probe_kind_by_protocol() {
    assert_eq!(probe_kind("vless").unwrap(), ProbeKind::Vless);
    assert_eq!(probe_kind("ss").unwrap(), ProbeKind::Shadowsocks);
    assert_eq!(probe_kind("shadowsocks").unwrap(), ProbeKind::Shadowsocks);
    assert_eq!(probe_kind("hy2").unwrap(), ProbeKind::Hysteria2);
    assert_eq!(probe_kind("vmess").unwrap(), ProbeKind::Vmess);
    assert_eq!(probe_kind("trojan").unwrap(), ProbeKind::Trojan);
    match probe_kind("wireguard") {
        Err(WardenError::ProtocolNotSupported(p)) => assert_eq!(p, "wireguard"),
        _ => panic!("wireguard has no probe"),
    }
}
