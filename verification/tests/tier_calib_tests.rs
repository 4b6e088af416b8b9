use warden_core::calib::{AutoTuner, HardwareProfile, MetricFlags, TunedConfig};
use warden_core::config::WardenConfig;
use warden_core::speed_test::{combine_streams, per_stream_bytes, SpeedTestConfig};
use warden_core::tier_probe::{detect_tier, detect_uplink, raise_for_uplink, HardwareTier, UplinkKind};

fn flags(latency_ms: f64, loss_pct: f64, throughput_mbps: f64) -> MetricFlags {
    MetricFlags {
        fast_and_clean: latency_ms < 50.0 && loss_pct < 1.0,
        slow_or_lossy: latency_ms > 250.0 || loss_pct > 5.0,
        latency_over_200: latency_ms > 200.0,
        latency_over_100: latency_ms > 100.0,
        loss_over_5: loss_pct > 5.0,
        throughput_over_100: throughput_mbps > 100.0,
        throughput_under_20: throughput_mbps < 20.0,
    }
}

#[test]
fn tier_thresholds() {
    assert_eq!(detect_tier(2, 2048), HardwareTier::Low);
    assert_eq!(detect_tier(4, 4096), HardwareTier::Mid);
    assert_eq!(detect_tier(8, 8192), HardwareTier::High);
    assert_eq!(detect_tier(16, 16384), HardwareTier::Ultra);
}

#[test]
fn uplink_classes() {
    assert_eq!(detect_uplink(1), UplinkKind::Dialup);
    assert_eq!(detect_uplink(50), UplinkKind::Broadband);
    assert_eq!(detect_uplink(150), UplinkKind::FastEthernet);
    assert_eq!(detect_uplink(1000), UplinkKind::Gigabit);
    assert_eq!(detect_uplink(10000), UplinkKind::TenGig);
}

#[test]
fn concurrency_scales() {
    assert!(HardwareTier::Ultra.concurrency() > HardwareTier::High.concurrency());
    assert!(HardwareTier::High.concurrency() > HardwareTier::Mid.concurrency());
    assert!(HardwareTier::Mid.concurrency() > HardwareTier::Low.concurrency());
}

#[test]
fn tier_knob_values() {
    assert_eq!(HardwareTier::Low.per_probe_timeout(), 8_000);
    assert_eq!(HardwareTier::Ultra.max_acceptable_latency(), 120);
    assert_eq!(HardwareTier::High.max_attempts(), 400);
    assert_eq!(HardwareTier::Mid.label(), "mid");
    assert_eq!(UplinkKind::TenGig.label(), "10g");
}

#[test]
fn uplink_raises_tier() {
    assert_eq!(raise_for_uplink(HardwareTier::Low, 900), HardwareTier::High);
    assert_eq!(raise_for_uplink(HardwareTier::Ultra, 10), HardwareTier::Ultra);
    assert_eq!(raise_for_uplink(HardwareTier::Mid, 79), HardwareTier::Mid);
}

#[test]
fn t_tune_defaults_safe() {
    let profile = HardwareProfile { cpus: 1, memory_mb: 0, os: "unknown" };
    let tuned = AutoTuner::default().tune(&profile, &flags(0.0, 0.0, 0.0));
    assert!(tuned.parallel_connections >= 1 && tuned.parallel_connections <= 64);
    assert!(tuned.rotation_interval_seconds >= 5 && tuned.rotation_interval_seconds <= 3600);
    assert!(tuned.handshake_timeout_secs >= 1 && tuned.handshake_timeout_secs <= 60);
    assert!(tuned.worker_threads >= 1 && tuned.worker_threads <= 128);
}

#[test]
fn t_tune_adapts() {
    let powerful = HardwareProfile { cpus: 16, memory_mb: 8192, os: "linux" };
    let tuned_fast = AutoTuner::default().tune(&powerful, &flags(15.0, 0.0, 900.0));
    assert!(tuned_fast.parallel_connections >= 8);
    assert!(tuned_fast.handshake_timeout_secs <= 10);

    let weak = HardwareProfile { cpus: 2, memory_mb: 512, os: "linux" };
    let tuned_slow = AutoTuner::default().tune(&weak, &flags(450.0, 8.0, 5.0));
    assert!(tuned_slow.parallel_connections <= 4);
    assert!(tuned_slow.rotation_interval_seconds >= 30);
    assert!(tuned_slow.handshake_timeout_secs >= 10);
}

#[test]
fn tune_exact_values() {
    let p = HardwareProfile { cpus: 16, memory_mb: 8192, os: "linux" };
    let t = AutoTuner::default().tune(&p, &flags(15.0, 0.0, 900.0));
    assert_eq!(
        t,
        TunedConfig { parallel_connections: 16, rotation_interval_seconds: 30, handshake_timeout_secs: 3, worker_threads: 16 }
    );
    let w = HardwareProfile { cpus: 2, memory_mb: 512, os: "linux" };
    let t = AutoTuner::default().tune(&w, &flags(450.0, 8.0, 5.0));
    assert_eq!(
        t,
        TunedConfig { parallel_connections: 1, rotation_interval_seconds: 240, handshake_timeout_secs: 30, worker_threads: 2 }
    );
}

#[test]
fn t_apply_does_not_break() {
    let profile = HardwareProfile { cpus: 4, memory_mb: 4096, os: "linux" };
    let tuned = AutoTuner::default().tune(&profile, &flags(0.0, 0.0, 0.0));
    let mut cfg = WardenConfig::default();
    tuned.apply(&mut cfg);
    assert!(cfg.rotation.interval_seconds >= 5);
    assert!(cfg.rotation.interval_seconds <= 3600);
    assert!(cfg.rotation.parallel_connections.unwrap() >= 1);
    assert!(cfg.rotation.handshake_timeout_secs.unwrap() >= 1);
    assert!(cfg.rotation.worker_threads.unwrap() >= 1);
    assert!(cfg.rotation.enabled);
}

#[test]
fn apply_keeps_overrides_and_is_idempotent() {
    let tuned = TunedConfig { parallel_connections: 7, rotation_interval_seconds: 30, handshake_timeout_secs: 9, worker_threads: 3 };
    let mut cfg = WardenConfig::default();
    cfg.rotation.interval_seconds = 1;
    cfg.rotation.worker_threads = Some(99);
    tuned.apply(&mut cfg);
    assert_eq!(cfg.rotation.interval_seconds, 5);
    assert_eq!(cfg.rotation.parallel_connections, Some(7));
    assert_eq!(cfg.rotation.handshake_timeout_secs, Some(9));
    assert_eq!(cfg.rotation.worker_threads, Some(99));
    let other = TunedConfig { parallel_connections: 1, rotation_interval_seconds: 30, handshake_timeout_secs: 1, worker_threads: 1 };
    other.apply(&mut cfg);
    assert_eq!(cfg.rotation.parallel_connections, Some(7));
    assert_eq!(cfg.rotation.interval_seconds, 5);
}

#[test]
fn config_defaults() {
    let c = SpeedTestConfig::default();
    assert_eq!(c.target_bytes, 10 * 1024 * 1024);
    assert_eq!(c.samples, 3);
    assert_eq!(c.streams, 4);
    assert_eq!(c.warmup_ms, 750);
    assert_eq!(c.timeout_ms, 15_000);
}

#[test]
fn streams_combine() {
    assert_eq!(per_stream_bytes(10, 4), 2);
    assert_eq!(combine_streams(&[(10, 5), (20, 9), (0, 0)]), Some((30, 9)));
    assert_eq!(combine_streams(&[(0, 5)]), None);
    assert_eq!(combine_streams(&[]), None);
}
