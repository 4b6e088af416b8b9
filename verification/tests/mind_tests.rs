use warden_core::mind::{assignment_for, BlockReason, GeoBlockSignal, Role, SubTask, TrafficWatchdog};
use warden_core::traffic_watch::{ProbeResult, ProbeTarget};

fn signal(at: u64, reason: BlockReason) -> GeoBlockSignal {
    GeoBlockSignal {
        host: "x".into(),
        status: 200,
        body_excerpt: "not available in your region".into(),
        detected_at: at,
        reason,
    }
}

#[test]
fn block_classifier_geo_text() {
    let r = BlockReason::classify(200, "This content is not available in your region");
    assert_eq!(r, BlockReason::RegionExplicit);
}

#[test]
fn block_classifier_legal_status() {
    let r = BlockReason::classify(451, "");
    assert_eq!(r, BlockReason::LegalStatus);
}

#[test]
fn block_classifier_other_reasons() {
    assert_eq!(BlockReason::classify(403, "Wrong COUNTRY"), BlockReason::ForbiddenWithGeo);
    assert_eq!(BlockReason::classify(403, "nope"), BlockReason::Unknown);
    assert_eq!(BlockReason::classify(302, ""), BlockReason::RedirectToLanding);
    assert_eq!(BlockReason::classify(200, "GEOBLOCKED"), BlockReason::RegionExplicit);
    assert_eq!(BlockReason::classify(200, "fine"), BlockReason::Unknown);
}

#[test]
fn mind_assigns_each_role() {
    for role in [
        Role::Discovery,
        Role::Ranking,
        Role::TrafficWatch,
        Role::GeoEvasion,
        Role::Rotation,
        Role::Healing,
        Role::Opsec,
    ] {
        let a = assignment_for(role);
        assert_eq!(a.role, role);
        assert!(!a.subtasks.is_empty());
    }
    assert_eq!(Role::TrafficWatch.name(), "traffic_watch");
    assert_eq!(SubTask::FingerprintRotate.name(), "fingerprint_rotate");
}

#[test]
fn watchdog_only_records_when_enabled() {
    let mut wd = TrafficWatchdog::new();
    let now = 1_000_000;
    let sig = signal(now, BlockReason::RegionExplicit);
    wd.record(sig.clone());
    assert!(wd.signals.is_empty());
    wd.enable();
    wd.record(sig.clone());
    wd.record(sig);
    assert_eq!(wd.signals.len(), 2);
    assert!(wd.should_evade_at(now + 1));
}

#[test]
fn watchdog_drops_old_and_unknown() {
    let mut wd = TrafficWatchdog::new();
    wd.enable();
    wd.record(signal(0, BlockReason::LegalStatus));
    wd.record(signal(100, BlockReason::Unknown));
    assert_eq!(wd.signals.len(), 1);
    wd.record(signal(700_000, BlockReason::RegionExplicit));
    assert_eq!(wd.signals.len(), 1);
    assert_eq!(wd.signals[0].detected_at, 700_000);
    assert!(!wd.should_evade_at(700_001));
    wd.record(signal(700_500, BlockReason::LegalStatus));
    assert!(wd.should_evade_at(701_000));
    assert!(!wd.should_evade_at(800_000));
    assert_eq!(wd.recent_reason(), Some(BlockReason::LegalStatus));
    wd.disable();
    assert!(!wd.should_evade_at(701_000));
}

#[test]
fn probe_result_becomes_signal() {
    let body = "x".repeat(250) + " geo-restricted";
    let r = ProbeResult {
        target: ProbeTarget::HttpGet { url: "https://a.example/".into() },
        host: "a.example".into(),
        status: 200,
        body,
        elapsed_ms: 5,
        at_ms: 42,
    };
    let s = r.to_signal();
    assert_eq!(s.host, "a.example");
    assert_eq!(s.body_excerpt.chars().count(), 200);
    assert_eq!(s.detected_at, 42);
    assert_eq!(s.reason, BlockReason::RegionExplicit);
}
