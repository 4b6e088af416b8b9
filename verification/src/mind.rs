//! The roles of the decision engine and the geo-block watchdog.
use vstd::prelude::*;
use crate::bridge::{now_millis, to_lowercase, unicode_lowercase};
use crate::text::{chars_of, contains_chars, contains_seq, occurs_at};

verus! {

/// A duty of the decision engine.
#[derive(Debug, Clone, Copy, PartialEq, Eq, Hash, Structural)]
pub enum Role {
    Discovery,
    Ranking,
    TrafficWatch,
    GeoEvasion,
    Rotation,
    Healing,
    Opsec,
}

impl Role {
    pub fn name(&self) -> (n: &'static str)
        ensures
            n@ == match self {
                Role::Discovery => "discovery"@,
                Role::Ranking => "ranking"@,
                Role::TrafficWatch => "traffic_watch"@,
                Role::GeoEvasion => "geo_evasion"@,
                Role::Rotation => "rotation"@,
                Role::Healing => "healing"@,
                Role::Opsec => "opsec"@,
            },
    {
        match self {
            Role::Discovery => "discovery",
            Role::Ranking => "ranking",
            Role::TrafficWatch => "traffic_watch",
            Role::GeoEvasion => "geo_evasion",
            Role::Rotation => "rotation",
            Role::Healing => "healing",
            Role::Opsec => "opsec",
        }
    }
}

/// A step that a role performs.
#[derive(Debug, Clone, Copy, PartialEq, Eq, Structural)]
pub enum SubTask {
    ResolveFeed,
    ParseConfig,
    Probe,
    Score,
    InspectResponse,
    ClassifyBlock,
    SelectEvasion,
    PlanRotation,
    DetectDead,
    Reroute,
    FingerprintRotate,
    Persist,
}

impl SubTask {
    pub fn name(&self) -> (n: &'static str)
        ensures
            n@ == match self {
                SubTask::ResolveFeed => "resolve_feed"@,
                SubTask::ParseConfig => "parse_config"@,
                SubTask::Probe => "probe"@,
                SubTask::Score => "score"@,
                SubTask::InspectResponse => "inspect_response"@,
                SubTask::ClassifyBlock => "classify_block"@,
                SubTask::SelectEvasion => "select_evasion"@,
                SubTask::PlanRotation => "plan_rotation"@,
                SubTask::DetectDead => "detect_dead"@,
                SubTask::Reroute => "reroute"@,
                SubTask::FingerprintRotate => "fingerprint_rotate"@,
                SubTask::Persist => "persist"@,
            },
    {
        match self {
            SubTask::ResolveFeed => "resolve_feed",
            SubTask::ParseConfig => "parse_config",
            SubTask::Probe => "probe",
            SubTask::Score => "score",
            SubTask::InspectResponse => "inspect_response",
            SubTask::ClassifyBlock => "classify_block",
            SubTask::SelectEvasion => "select_evasion",
            SubTask::PlanRotation => "plan_rotation",
            SubTask::DetectDead => "detect_dead",
            SubTask::Reroute => "reroute",
            SubTask::FingerprintRotate => "fingerprint_rotate",
            SubTask::Persist => "persist",
        }
    }
}

/// The steps assigned to a role.
pub struct RoleAssignment {
    pub role: Role,
    pub subtasks: Vec<SubTask>,
}

/// The steps that each role performs.
pub open spec fn role_subtasks(role: Role) -> Seq<SubTask> {
    match role {
        Role::Discovery => seq![SubTask::ResolveFeed, SubTask::ParseConfig],
        Role::Ranking => seq![SubTask::Probe, SubTask::Score],
        Role::TrafficWatch => seq![SubTask::InspectResponse],
        Role::GeoEvasion => seq![SubTask::ClassifyBlock, SubTask::SelectEvasion],
        Role::Rotation => seq![SubTask::PlanRotation],
        Role::Healing => seq![SubTask::DetectDead, SubTask::Reroute],
        Role::Opsec => seq![SubTask::FingerprintRotate, SubTask::Persist],
    }
}

/// The assignment of `role`.
pub fn assignment_for(role: Role) -> (a: RoleAssignment)
    ensures
        a.role == role,
        a.subtasks@ == role_subtasks(role),
        a.subtasks@.len() > 0,
{
    let subtasks = match role {
        Role::Discovery => vec![SubTask::ResolveFeed, SubTask::ParseConfig],
        Role::Ranking => vec![SubTask::Probe, SubTask::Score],
        Role::TrafficWatch => vec![SubTask::InspectResponse],
        Role::GeoEvasion => vec![SubTask::ClassifyBlock, SubTask::SelectEvasion],
        Role::Rotation => vec![SubTask::PlanRotation],
        Role::Healing => vec![SubTask::DetectDead, SubTask::Reroute],
        Role::Opsec => vec![SubTask::FingerprintRotate, SubTask::Persist],
    };
    RoleAssignment { role, subtasks }
}

/// Why a response looks geo-blocked.
#[derive(Debug, Clone, Copy, PartialEq, Eq, Structural)]
pub enum BlockReason {
    /// "not available in your region", "unavailable in your country"
    RegionExplicit,
    /// 451 status
    LegalStatus,
    /// 403 with strong geo signal
    ForbiddenWithGeo,
    /// Redirect to a region-locked landing
    RedirectToLanding,
    /// No signal, but we retry-failed
    Unknown,
}

/// The phrases that mark an explicit regional block.
pub open spec fn region_keys() -> Seq<Seq<char>> {
    seq![
        "not available in your country"@,
        "not available in your region"@,
        "unavailable in your region"@,
        "this content is not available"@,
        "is not available in your"@,
        "geo-restricted"@,
        "geoblocked"@,
        "vasha strana"@,
        "nedostupno v vashey strane"@,
        "nedostupen v vashey strane"@,
    ]
}

/// The reason for a response with `status` whose lower-cased body is
/// `lower`.
pub open spec fn classify_lower(status: u16, lower: Seq<char>) -> BlockReason {
    if status == 451 {
        BlockReason::LegalStatus
    } else if exists|k: int| 0 <= k < region_keys().len() && contains_seq(lower, #[trigger] region_keys()[k]) {
        BlockReason::RegionExplicit
    } else if status == 403 && (contains_seq(lower, "region"@) || contains_seq(lower, "country"@)) {
        BlockReason::ForbiddenWithGeo
    } else if status == 302 || status == 301 {
        BlockReason::RedirectToLanding
    } else {
        BlockReason::Unknown
    }
}

/// How a response is classified, by its status first: status 451 is a
/// legal block whatever the body says; a redirect (301 or 302) whose body
/// holds none of the regional phrases is a redirect to a landing page, an
/// empty body included; and any other status but 403 with no regional
/// phrase is unknown.
pub proof fn law_classify_by_status(status: u16, lower: Seq<char>)
    ensures
        status == 451 ==> classify_lower(status, lower) == BlockReason::LegalStatus,
        (status == 301 || status == 302) && (forall|k: int|
            0 <= k < region_keys().len() ==> !contains_seq(lower, #[trigger] region_keys()[k]))
            ==> classify_lower(status, lower) == BlockReason::RedirectToLanding,
        (status == 301 || status == 302) && lower.len() == 0 ==> classify_lower(status, lower)
            == BlockReason::RedirectToLanding,
        status != 451 && status != 403 && status != 301 && status != 302 && (forall|k: int|
            0 <= k < region_keys().len() ==> !contains_seq(lower, #[trigger] region_keys()[k]))
            ==> classify_lower(status, lower) == BlockReason::Unknown,
{
    if lower.len() == 0 {
        assert forall|k: int| 0 <= k < region_keys().len() implies !contains_seq(lower, #[trigger] region_keys()[k]) by {
            reveal_strlit("not available in your country");
            reveal_strlit("not available in your region");
            reveal_strlit("unavailable in your region");
            reveal_strlit("this content is not available");
            reveal_strlit("is not available in your");
            reveal_strlit("geo-restricted");
            reveal_strlit("geoblocked");
            reveal_strlit("vasha strana");
            reveal_strlit("nedostupno v vashey strane");
            reveal_strlit("nedostupen v vashey strane");
            assert(region_keys()[k].len() > 0);
            if contains_seq(lower, region_keys()[k]) {
                let i = choose|i: int| occurs_at(lower, region_keys()[k], i);
            }
        }
    }
}

impl BlockReason {
    /// Classifies a response by its status and (case-insensitively) its body.
    pub fn classify(status: u16, body: &str) -> (r: BlockReason)
        ensures
            r == classify_lower(status, unicode_lowercase(body@)),
    {
        let lower_s = to_lowercase(body);
        let lower = chars_of(lower_s.as_str());
        if status == 451 {
            return BlockReason::LegalStatus;
        }
        let keys: Vec<&str> = vec![
            "not available in your country",
            "not available in your region",
            "unavailable in your region",
            "this content is not available",
            "is not available in your",
            "geo-restricted",
            "geoblocked",
            "vasha strana",
            "nedostupno v vashey strane",
            "nedostupen v vashey strane",
        ];
        assert(forall|k: int| 0 <= k < 10 ==> #[trigger] keys@[k]@ == region_keys()[k]);
        let mut i: usize = 0;
        while i < keys.len()
            invariant
                0 <= i <= keys@.len(),
                keys@.len() == 10,
                status != 451,
                lower@ == unicode_lowercase(body@),
                forall|k: int| 0 <= k < 10 ==> #[trigger] keys@[k]@ == region_keys()[k],
                forall|k: int| 0 <= k < i ==> !contains_seq(lower@, #[trigger] region_keys()[k]),
            decreases keys.len() - i,
        {
            let key = chars_of(keys[i]);
            if contains_chars(&lower, &key) {
                assert(contains_seq(lower@, region_keys()[i as int]));
                return BlockReason::RegionExplicit;
            }
            i += 1;
        }
        if status == 403 {
            let region = chars_of("region");
            let country = chars_of("country");
            if contains_chars(&lower, &region) || contains_chars(&lower, &country) {
                return BlockReason::ForbiddenWithGeo;
            }
        }
        if status == 302 || status == 301 {
            return BlockReason::RedirectToLanding;
        }
        BlockReason::Unknown
    }
}

/// A response that looked geo-blocked. `detected_at` is a wall-clock time
/// in milliseconds.
#[derive(Debug, Clone)]
pub struct GeoBlockSignal {
    pub host: String,
    pub status: u16,
    pub body_excerpt: String,
    pub detected_at: u64,
    pub reason: BlockReason,
}

impl GeoBlockSignal {
    /// A field-by-field copy.
    fn duplicate(&self) -> (r: GeoBlockSignal)
        ensures
            r == *self,
    {
        GeoBlockSignal {
            host: self.host.clone(),
            status: self.status,
            body_excerpt: self.body_excerpt.clone(),
            detected_at: self.detected_at,
            reason: self.reason,
        }
    }
}

/// How long a signal is kept: ten minutes.
pub open spec fn keep_window_ms() -> int {
    600_000
}

/// How recent a signal must be to count towards evasion: one minute.
pub open spec fn evade_window_ms() -> int {
    60_000
}

/// `later - earlier`, or 0 when `earlier` is later.
pub open spec fn elapsed_ms(earlier: u64, later: u64) -> int {
    if later >= earlier {
        later - earlier
    } else {
        0
    }
}

/// The signals that `record(sig)` keeps of `signals`: those within ten
/// minutes before `sig`, then `sig` itself unless its reason is unknown.
pub open spec fn recorded(signals: Seq<GeoBlockSignal>, sig: GeoBlockSignal) -> Seq<GeoBlockSignal> {
    let kept = signals.filter(|s: GeoBlockSignal| elapsed_ms(s.detected_at, sig.detected_at) < keep_window_ms());
    if sig.reason != BlockReason::Unknown {
        kept.push(sig)
    } else {
        kept
    }
}

/// The number of `signals` detected less than a minute before `now`.
pub open spec fn recent_count(signals: Seq<GeoBlockSignal>, now: u64) -> nat {
    signals.filter(|s: GeoBlockSignal| elapsed_ms(s.detected_at, now) < evade_window_ms()).len()
}

/// `i` is the last of the signals with the latest detection time.
pub open spec fn is_latest(signals: Seq<GeoBlockSignal>, i: int) -> bool {
    &&& 0 <= i < signals.len()
    &&& forall|j: int| 0 <= j < signals.len() ==> #[trigger] signals[j].detected_at <= signals[i].detected_at
    &&& forall|j: int| i < j < signals.len() ==> #[trigger] signals[j].detected_at < signals[i].detected_at
}

/// Collects geo-block signals and decides when evasion is due.
pub struct TrafficWatchdog {
    pub enabled: bool,
    /// How often the watchdog looks at traffic, in milliseconds.
    pub poll_interval_ms: u64,
    pub signals: Vec<GeoBlockSignal>,
    pub last_eval: Option<u64>,
}

impl TrafficWatchdog {
    /// A disabled watchdog that polls every 30 seconds.
    pub fn new() -> (w: TrafficWatchdog)
        ensures
            !w.enabled,
            w.poll_interval_ms == 30_000,
            w.signals@.len() == 0,
            w.last_eval is None,
    {
        TrafficWatchdog {
            enabled: false,
            poll_interval_ms: 30_000,
            signals: Vec::new(),
            last_eval: None,
        }
    }

    /// Turns recording on and notes the time.
    pub fn enable(&mut self)
        ensures
            final(self).enabled,
            final(self).last_eval is Some,
            final(self).signals == old(self).signals,
            final(self).poll_interval_ms == old(self).poll_interval_ms,
    {
        self.enabled = true;
        self.last_eval = Some(now_millis());
    }

    /// Turns recording off; the signals stay.
    pub fn disable(&mut self)
        ensures
            !final(self).enabled,
            final(self).signals == old(self).signals,
            final(self).last_eval == old(self).last_eval,
            final(self).poll_interval_ms == old(self).poll_interval_ms,
    {
        self.enabled = false;
    }

    /// Records `signal` when enabled: drops the signals more than ten
    /// minutes older than it, then keeps it unless its reason is unknown.
    pub fn record(&mut self, signal: GeoBlockSignal)
        ensures
            old(self).enabled ==> final(self).signals@ == recorded(old(self).signals@, signal),
            !old(self).enabled ==> final(self).signals@ == old(self).signals@,
            final(self).enabled == old(self).enabled,
            final(self).last_eval == old(self).last_eval,
            final(self).poll_interval_ms == old(self).poll_interval_ms,
    {
        if !self.enabled {
            return;
        }
        let ghost old_signals = self.signals@;
        let ghost pred = |s: GeoBlockSignal| elapsed_ms(s.detected_at, signal.detected_at) < keep_window_ms();
        let mut kept: Vec<GeoBlockSignal> = Vec::new();
        let mut i: usize = 0;
        while i < self.signals.len()
            invariant
                0 <= i <= self.signals@.len(),
                self.signals@ == old_signals,
                pred == (|s: GeoBlockSignal| elapsed_ms(s.detected_at, signal.detected_at) < keep_window_ms()),
                kept@ == old_signals.take(i as int).filter(pred),
            decreases self.signals.len() - i,
        {
            let s = &self.signals[i];
            let keep = if signal.detected_at >= s.detected_at {
                signal.detected_at - s.detected_at < 600_000
            } else {
                true
            };
            proof {
                assert(old_signals.take(i + 1) =~= old_signals.take(i as int).push(old_signals[i as int]));
                old_signals.take(i as int).lemma_filter_push(old_signals[i as int], pred);
                assert(pred(old_signals[i as int]) == keep);
            }
            if keep {
                kept.push(s.duplicate());
            }
            i += 1;
        }
        assert(old_signals.take(old_signals.len() as int) =~= old_signals);
        if signal.reason != BlockReason::Unknown {
            kept.push(signal);
        }
        self.signals = kept;
    }

    /// Evasion is due at time `now` when the watchdog is enabled and at
    /// least two signals are less than a minute old.
    pub fn should_evade_at(&self, now: u64) -> (b: bool)
        ensures
            b == (self.enabled && recent_count(self.signals@, now) >= 2),
    {
        if !self.enabled {
            return false;
        }
        let ghost pred = |s: GeoBlockSignal| elapsed_ms(s.detected_at, now) < evade_window_ms();
        let mut count: usize = 0;
        let mut i: usize = 0;
        while i < self.signals.len()
            invariant
                0 <= i <= self.signals@.len(),
                pred == (|s: GeoBlockSignal| elapsed_ms(s.detected_at, now) < evade_window_ms()),
                count == self.signals@.take(i as int).filter(pred).len(),
                count <= i,
            decreases self.signals.len() - i,
        {
            let s = &self.signals[i];
            let recent = if now >= s.detected_at {
                now - s.detected_at < 60_000
            } else {
                true
            };
            proof {
                assert(self.signals@.take(i + 1) =~= self.signals@.take(i as int).push(self.signals@[i as int]));
                self.signals@.take(i as int).lemma_filter_push(self.signals@[i as int], pred);
                assert(pred(self.signals@[i as int]) == recent);
            }
            if recent {
                count += 1;
            }
            i += 1;
        }
        assert(self.signals@.take(self.signals@.len() as int) =~= self.signals@);
        count >= 2
    }

    /// Evasion is due now: see `should_evade_at`.
    pub fn should_evade(&self) -> (b: bool)
        ensures
            exists|now: u64| b == (self.enabled && recent_count(self.signals@, now) >= 2),
    {
        let now = now_millis();
        let b = self.should_evade_at(now);
        assert(b == (self.enabled && recent_count(self.signals@, now) >= 2));
        b
    }

    /// The reason of the latest signal (the last one recorded when several
    /// share the latest time).
    pub fn recent_reason(&self) -> (r: Option<BlockReason>)
        ensures
            self.signals@.len() == 0 ==> r is None,
            self.signals@.len() > 0 ==> exists|i: int|
                is_latest(self.signals@, i) && r == Some(self.signals@[i].reason),
    {
        if self.signals.len() == 0 {
            return None;
        }
        let mut best: usize = 0;
        let mut i: usize = 1;
        while i < self.signals.len()
            invariant
                1 <= i <= self.signals@.len(),
                best < i,
                forall|j: int| 0 <= j < i ==> #[trigger] self.signals@[j].detected_at <= self.signals@[best as int].detected_at,
                forall|j: int| best < j < i ==> #[trigger] self.signals@[j].detected_at < self.signals@[best as int].detected_at,
            decreases self.signals.len() - i,
        {
            if self.signals[i].detected_at >= self.signals[best].detected_at {
                best = i;
            }
            i += 1;
        }
        assert(is_latest(self.signals@, best as int));
        Some(self.signals[best].reason)
    }
}

} // verus!
