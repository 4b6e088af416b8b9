//! Hardware-aware auto-tuning: knobs derived from the host and from what
//! the link looks like, each kept within safe bounds.
use vstd::prelude::*;
use crate::config::{RotationConfig, WardenConfig};
use crate::text::{chars_of, is_whitespace, is_ws, lines, parse_unsigned, spec_lines, spec_parse_unsigned, starts_with_seq, str_starts_with, views};

verus! {

pub const MIN_PARALLEL: usize = 1;
pub const MAX_PARALLEL: usize = 64;
pub const MIN_INTERVAL_SECS: u64 = 5;
pub const MAX_INTERVAL_SECS: u64 = 3600;
pub const MIN_HANDSHAKE_SECS: u64 = 1;
pub const MAX_HANDSHAKE_SECS: u64 = 60;
pub const MIN_WORKER_THREADS: usize = 1;
pub const MAX_WORKER_THREADS: usize = 128;

/// Snapshot of the host's compute resources, captured once at startup.
#[derive(Debug, Clone, Copy, PartialEq, Eq)]
pub struct HardwareProfile {
    pub cpus: usize,
    pub memory_mb: u64,
    pub os: &'static str,
}

/// What the live network metrics (latency in ms, loss in percent, throughput
/// in Mbps) say about the link, as the tuner reads them.
#[derive(Debug, Clone, Copy, PartialEq, Eq, Structural)]
pub struct MetricFlags {
    /// latency < 50 and loss < 1
    pub fast_and_clean: bool,
    /// latency > 250 or loss > 5
    pub slow_or_lossy: bool,
    /// latency > 200
    pub latency_over_200: bool,
    /// latency > 100
    pub latency_over_100: bool,
    /// loss > 5
    pub loss_over_5: bool,
    /// throughput > 100
    pub throughput_over_100: bool,
    /// throughput < 20
    pub throughput_under_20: bool,
}

/// Derived tuning knobs, ready to apply to a [`WardenConfig`].
#[derive(Debug, Clone, Copy, PartialEq, Eq, Structural)]
pub struct TunedConfig {
    pub parallel_connections: usize,
    pub rotation_interval_seconds: u64,
    pub handshake_timeout_secs: u64,
    pub worker_threads: usize,
}

/// `x` held within `[lo, hi]`.
pub open spec fn clamped(x: int, lo: int, hi: int) -> int {
    if x < lo {
        lo
    } else if x > hi {
        hi
    } else {
        x
    }
}

/// What `apply` makes of a rotation section: the interval clamped to its
/// bounds, and each unset knob filled from `t`.
pub open spec fn applied_rotation(t: TunedConfig, r: RotationConfig) -> RotationConfig {
    RotationConfig {
        interval_seconds: clamped(
            r.interval_seconds as int,
            MIN_INTERVAL_SECS as int,
            MAX_INTERVAL_SECS as int,
        ) as u64,
        parallel_connections: if r.parallel_connections is None {
            Some(t.parallel_connections)
        } else {
            r.parallel_connections
        },
        handshake_timeout_secs: if r.handshake_timeout_secs is None {
            Some(t.handshake_timeout_secs)
        } else {
            r.handshake_timeout_secs
        },
        worker_threads: if r.worker_threads is None {
            Some(t.worker_threads)
        } else {
            r.worker_threads
        },
        ..r
    }
}

impl TunedConfig {
    /// Apply these values to a config, respecting any explicit overrides the
    /// user already set. Explicit overrides win so manual config always
    /// beats auto-tuning.
    pub fn apply(&self, cfg: &mut WardenConfig)
        ensures
            final(cfg).rotation == applied_rotation(*self, old(cfg).rotation),
            final(cfg).mode == old(cfg).mode,
            final(cfg).performance_mode == old(cfg).performance_mode,
            final(cfg).api == old(cfg).api,
            final(cfg).protocols == old(cfg).protocols,
            final(cfg).opsec == old(cfg).opsec,
            final(cfg).database == old(cfg).database,
    {
        let iv = cfg.rotation.interval_seconds;
        cfg.rotation.interval_seconds = if iv < MIN_INTERVAL_SECS {
            MIN_INTERVAL_SECS
        } else if iv > MAX_INTERVAL_SECS {
            MAX_INTERVAL_SECS
        } else {
            iv
        };
        if cfg.rotation.parallel_connections.is_none() {
            cfg.rotation.parallel_connections = Some(self.parallel_connections);
        }
        if cfg.rotation.handshake_timeout_secs.is_none() {
            cfg.rotation.handshake_timeout_secs = Some(self.handshake_timeout_secs);
        }
        if cfg.rotation.worker_threads.is_none() {
            cfg.rotation.worker_threads = Some(self.worker_threads);
        }
    }
}

/// Applying tuned values twice changes nothing more than applying them once,
/// and a second tuning never overrides what the first one filled in.
pub proof fn law_apply_idempotent(t: TunedConfig, u: TunedConfig, r: RotationConfig)
    ensures
        applied_rotation(u, applied_rotation(t, r)) == applied_rotation(t, r),
{
}

/// Knobs the user set explicitly survive `apply` unchanged.
pub proof fn law_apply_keeps_overrides(t: TunedConfig, r: RotationConfig)
    ensures
        r.parallel_connections is Some ==> applied_rotation(t, r).parallel_connections
            == r.parallel_connections,
        r.handshake_timeout_secs is Some ==> applied_rotation(t, r).handshake_timeout_secs
            == r.handshake_timeout_secs,
        r.worker_threads is Some ==> applied_rotation(t, r).worker_threads == r.worker_threads,
        MIN_INTERVAL_SECS <= r.interval_seconds <= MAX_INTERVAL_SECS
            ==> applied_rotation(t, r).interval_seconds == r.interval_seconds,
{
}

/// Stateful auto-tuner. Holds no mutable state itself; `tune` is pure given a
/// profile and what the live metrics say.
#[derive(Debug, Clone, Copy, Default)]
pub struct AutoTuner;

/// The parallel connections for `cpus` cores on a link read as `m`.
pub open spec fn tuned_parallel(cpus: int, m: MetricFlags) -> int {
    let c = if cpus < 1 { 1 } else { cpus };
    let base = clamped(c / 2, 1, MAX_PARALLEL as int);
    if m.fast_and_clean {
        if base * 2 > MAX_PARALLEL { MAX_PARALLEL as int } else { base * 2 }
    } else if m.slow_or_lossy {
        if base / 2 < MIN_PARALLEL { MIN_PARALLEL as int } else { base / 2 }
    } else {
        base
    }
}

/// The rotation interval, in seconds, on a link read as `m`.
pub open spec fn tuned_interval(m: MetricFlags) -> int {
    let base = if m.latency_over_200 {
        120int
    } else if m.latency_over_100 {
        60
    } else {
        30
    };
    if m.loss_over_5 {
        base * 2
    } else {
        base
    }
}

/// The handshake timeout, in seconds, on a link read as `m`.
pub open spec fn tuned_handshake(m: MetricFlags) -> int {
    let base = if m.throughput_over_100 {
        3int
    } else if m.throughput_under_20 {
        15
    } else {
        5
    };
    if m.loss_over_5 || m.latency_over_200 {
        base * 2
    } else {
        base
    }
}

impl AutoTuner {
    /// Derive a [`TunedConfig`] from a hardware profile and what the live
    /// metrics say.
    ///
    /// Rules (all clamped to safe bounds):
    /// - parallel_connections = cpus/2, capped, raised on low latency.
    /// - rotation_interval_seconds = latency-scaled, lengthened by loss.
    /// - handshake_timeout_secs = inverse-bandwidth, relaxed by loss/latency.
    /// - worker_threads = cpus, capped.
    pub fn tune(&self, profile: &HardwareProfile, m: &MetricFlags) -> (t: TunedConfig)
        ensures
            t.parallel_connections == tuned_parallel(profile.cpus as int, *m),
            t.rotation_interval_seconds == tuned_interval(*m),
            t.handshake_timeout_secs == tuned_handshake(*m),
            t.worker_threads == clamped(
                profile.cpus as int,
                MIN_WORKER_THREADS as int,
                MAX_WORKER_THREADS as int,
            ),
            MIN_PARALLEL <= t.parallel_connections <= MAX_PARALLEL,
            MIN_INTERVAL_SECS <= t.rotation_interval_seconds <= MAX_INTERVAL_SECS,
            MIN_HANDSHAKE_SECS <= t.handshake_timeout_secs <= MAX_HANDSHAKE_SECS,
            MIN_WORKER_THREADS <= t.worker_threads <= MAX_WORKER_THREADS,
    {
        let cpus: usize = if profile.cpus < 1 {
            1
        } else {
            profile.cpus
        };
        let half = cpus / 2;
        let mut parallel: usize = if half < 1 {
            1
        } else if half > MAX_PARALLEL {
            MAX_PARALLEL
        } else {
            half
        };
        if m.fast_and_clean {
            parallel = if parallel * 2 > MAX_PARALLEL {
                MAX_PARALLEL
            } else {
                parallel * 2
            };
        } else if m.slow_or_lossy {
            parallel = if parallel / 2 < MIN_PARALLEL {
                MIN_PARALLEL
            } else {
                parallel / 2
            };
        }
        let mut interval: u64 = 30;
        if m.latency_over_200 {
            interval = 120;
        } else if m.latency_over_100 {
            interval = 60;
        }
        if m.loss_over_5 {
            interval = interval * 2;
        }
        let mut handshake: u64 = 5;
        if m.throughput_over_100 {
            handshake = 3;
        } else if m.throughput_under_20 {
            handshake = 15;
        }
        if m.loss_over_5 || m.latency_over_200 {
            handshake = handshake * 2;
        }
        let worker_threads: usize = if cpus > MAX_WORKER_THREADS {
            MAX_WORKER_THREADS
        } else {
            cpus
        };
        TunedConfig {
            parallel_connections: parallel,
            rotation_interval_seconds: interval,
            handshake_timeout_secs: handshake,
            worker_threads,
        }
    }
}

/// The length of the run of non-whitespace characters at the start of `s`.
pub open spec fn word_len(s: Seq<char>) -> nat
    decreases s.len(),
{
    if s.len() == 0 || is_ws(s[0]) {
        0
    } else {
        1 + word_len(s.drop_first())
    }
}

/// The words of `s`, as `str::split_whitespace` yields them.
pub open spec fn words(s: Seq<char>) -> Seq<Seq<char>>
    decreases s.len(),
{
    if s.len() == 0 {
        seq![]
    } else if is_ws(s[0]) {
        words(s.drop_first())
    } else {
        let n = word_len(s);
        proof {
            lemma_word_len_bound(s);
        }
        seq![s.take(n as int)] + words(s.skip(n as int))
    }
}

pub proof fn lemma_word_len_bound(s: Seq<char>)
    ensures
        word_len(s) <= s.len(),
        s.len() > 0 && !is_ws(s[0]) ==> word_len(s) > 0,
    decreases s.len(),
{
    if s.len() > 0 && !is_ws(s[0]) {
        lemma_word_len_bound(s.drop_first());
    }
}

/// The `k`-th word of `v[from..]`, as positions into `v`.
pub(crate) fn nth_word(v: &Vec<char>, from: usize, k: usize) -> (r: Option<(usize, usize)>)
    requires
        from <= v@.len(),
    ensures
        match r {
            Some((a, b)) => k < words(v@.skip(from as int)).len() && from <= a <= b <= v@.len()
                && v@.subrange(a as int, b as int) == words(v@.skip(from as int))[k as int],
            None => k >= words(v@.skip(from as int)).len(),
        },
    decreases v@.len() - from, k,
{
    let n = v.len();
    let mut i = from;
    while i < n && is_whitespace(v[i])
        invariant
            from <= i <= n,
            n == v@.len(),
            words(v@.skip(from as int)) == words(v@.skip(i as int)),
        decreases n - i,
    {
        assert(v@.skip(i as int).drop_first() =~= v@.skip(i + 1));
        i += 1;
    }
    if i == n {
        assert(v@.skip(i as int) =~= Seq::<char>::empty());
        return None;
    }
    let mut j = i;
    while j < n && !is_whitespace(v[j])
        invariant
            i <= j <= n,
            n == v@.len(),
            word_len(v@.skip(i as int)) == (j - i) + word_len(v@.skip(j as int)),
        decreases n - j,
    {
        assert(v@.skip(j as int).drop_first() =~= v@.skip(j + 1));
        j += 1;
    }
    proof {
        if j < n {
            assert(word_len(v@.skip(j as int)) == 0);
        } else {
            assert(v@.skip(j as int) =~= Seq::<char>::empty());
        }
        let s = v@.skip(i as int);
        assert(s.take((j - i) as int) =~= v@.subrange(i as int, j as int));
        assert(s.skip((j - i) as int) =~= v@.skip(j as int));
        assert(!is_ws(s[0]));
    }
    if k == 0 {
        Some((i, j))
    } else {
        nth_word(v, j, k - 1)
    }
}

/// The total memory, in megabytes, that a `/proc/meminfo` text reports: the
/// number after `MemTotal:` on the first line that starts with it, in
/// kilobytes, divided by 1024; `None` when that line has no such number.
pub open spec fn spec_meminfo_mb(ls: Seq<Seq<char>>) -> Option<nat>
    decreases ls.len(),
{
    if ls.len() == 0 {
        None
    } else if starts_with_seq(ls[0], "MemTotal:"@) {
        let w = words(ls[0]);
        if w.len() < 2 {
            None
        } else {
            match spec_parse_unsigned(w[1], u64::MAX as nat) {
                Some(kb) => Some(kb / 1024),
                None => None,
            }
        }
    } else {
        spec_meminfo_mb(ls.drop_first())
    }
}

/// The total memory that a `/proc/meminfo` text reports, in megabytes.
pub fn read_meminfo_mb(text: &str) -> (r: Option<u64>)
    ensures
        match spec_meminfo_mb(spec_lines(text@)) {
            Some(mb) => r == Some(mb as u64),
            None => r is None,
        },
{
    let ls = lines(text);
    let mut i: usize = 0;
    assert(views(ls@).skip(0) =~= views(ls@));
    while i < ls.len()
        invariant
            0 <= i <= ls@.len(),
            views(ls@) == spec_lines(text@),
            spec_meminfo_mb(spec_lines(text@)) == spec_meminfo_mb(views(ls@).skip(i as int)),
        decreases ls.len() - i,
    {
        let ghost rest = views(ls@).skip(i as int);
        assert(rest[0] == ls@[i as int]@);
        assert(rest.drop_first() =~= views(ls@).skip(i + 1));
        if str_starts_with(ls[i].as_str(), "MemTotal:") {
            let v = chars_of(ls[i].as_str());
            assert(v@.skip(0) =~= v@);
            match nth_word(&v, 0, 1) {
                None => return None,
                Some((a, b)) => {
                    return match parse_unsigned(&v, a, b, u64::MAX) {
                        Some(kb) => Some(kb / 1024),
                        None => None,
                    };
                },
            }
        }
        i += 1;
    }
    None
}

} // verus!
