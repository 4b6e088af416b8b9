//! Hardware tiers and uplink classes, and the knobs each tier sets.
use vstd::prelude::*;
use crate::calib::{nth_word, words};
use crate::text::{chars_of, lines, parse_unsigned, spec_lines, spec_parse_unsigned, starts_with_seq, str_starts_with, views};

verus! {

/// How capable the host is, from weakest to strongest.
#[derive(Debug, Clone, Copy, PartialEq, Eq, PartialOrd, Ord, Structural)]
pub enum HardwareTier {
    /// Embedded / old laptop / weak uplink
    Low,
    /// Mainstream desktop / 100 Mbps uplink
    Mid,
    /// Gaming / workstation / gigabit
    High,
    /// Datacenter-grade
    Ultra,
}

/// The position of a tier in the order `Low < Mid < High < Ultra`.
pub open spec fn tier_rank(t: HardwareTier) -> int {
    match t {
        HardwareTier::Low => 0,
        HardwareTier::Mid => 1,
        HardwareTier::High => 2,
        HardwareTier::Ultra => 3,
    }
}

impl HardwareTier {
    pub fn label(&self) -> (s: &'static str)
        ensures
            s@ == match self {
                HardwareTier::Low => "low"@,
                HardwareTier::Mid => "mid"@,
                HardwareTier::High => "high"@,
                HardwareTier::Ultra => "ultra"@,
            },
    {
        match self {
            HardwareTier::Low => "low",
            HardwareTier::Mid => "mid",
            HardwareTier::High => "high",
            HardwareTier::Ultra => "ultra",
        }
    }

    /// Concurrent probe workers.
    pub fn concurrency(&self) -> (n: usize)
        ensures
            n == self.concurrency_spec(),
    {
        match self {
            HardwareTier::Low => 4,
            HardwareTier::Mid => 16,
            HardwareTier::High => 64,
            HardwareTier::Ultra => 256,
        }
    }

    /// Per-probe timeout, in milliseconds.
    pub fn per_probe_timeout(&self) -> (ms: u64)
        ensures
            ms == self.per_probe_timeout_spec(),
    {
        match self {
            HardwareTier::Low => 8_000,
            HardwareTier::Mid => 5_000,
            HardwareTier::High => 3_000,
            HardwareTier::Ultra => 2_000,
        }
    }

    /// How many candidates to exhaust before declaring "no good server found".
    /// Higher tier = willing to burn more probes to find the best one.
    pub fn max_attempts(&self) -> (n: usize)
        ensures
            n == self.max_attempts_spec(),
    {
        match self {
            HardwareTier::Low => 30,
            HardwareTier::Mid => 100,
            HardwareTier::High => 400,
            HardwareTier::Ultra => 2000,
        }
    }

    /// Latency target, in milliseconds: probes above it are considered bad
    /// even if alive.
    pub fn max_acceptable_latency(&self) -> (ms: u64)
        ensures
            ms == self.max_acceptable_latency_spec(),
    {
        match self {
            HardwareTier::Low => 800,
            HardwareTier::Mid => 400,
            HardwareTier::High => 200,
            HardwareTier::Ultra => 120,
        }
    }
}

/// A stronger tier gets more workers and attempts, and tighter timeouts and
/// latency targets.
pub proof fn law_tier_knobs_monotone(a: HardwareTier, b: HardwareTier)
    requires
        tier_rank(a) < tier_rank(b),
    ensures
        a.concurrency_spec() < b.concurrency_spec(),
        a.max_attempts_spec() < b.max_attempts_spec(),
        a.per_probe_timeout_spec() > b.per_probe_timeout_spec(),
        a.max_acceptable_latency_spec() > b.max_acceptable_latency_spec(),
{
}

impl HardwareTier {
    /// What `concurrency` returns.
    pub open spec fn concurrency_spec(&self) -> int {
        match self {
            HardwareTier::Low => 4,
            HardwareTier::Mid => 16,
            HardwareTier::High => 64,
            HardwareTier::Ultra => 256,
        }
    }

    /// What `max_attempts` returns.
    pub open spec fn max_attempts_spec(&self) -> int {
        match self {
            HardwareTier::Low => 30,
            HardwareTier::Mid => 100,
            HardwareTier::High => 400,
            HardwareTier::Ultra => 2000,
        }
    }

    /// What `per_probe_timeout` returns.
    pub open spec fn per_probe_timeout_spec(&self) -> int {
        match self {
            HardwareTier::Low => 8_000,
            HardwareTier::Mid => 5_000,
            HardwareTier::High => 3_000,
            HardwareTier::Ultra => 2_000,
        }
    }

    /// What `max_acceptable_latency` returns.
    pub open spec fn max_acceptable_latency_spec(&self) -> int {
        match self {
            HardwareTier::Low => 800,
            HardwareTier::Mid => 400,
            HardwareTier::High => 200,
            HardwareTier::Ultra => 120,
        }
    }
}

/// How fast the uplink is.
#[derive(Debug, Clone, Copy, PartialEq, Eq, Structural)]
pub enum UplinkKind {
    Dialup,
    Broadband,
    FastEthernet,
    Gigabit,
    TenGig,
}

impl UplinkKind {
    pub fn label(&self) -> (s: &'static str)
        ensures
            s@ == match self {
                UplinkKind::Dialup => "dialup"@,
                UplinkKind::Broadband => "broadband"@,
                UplinkKind::FastEthernet => "fast_eth"@,
                UplinkKind::Gigabit => "gigabit"@,
                UplinkKind::TenGig => "10g"@,
            },
    {
        match self {
            UplinkKind::Dialup => "dialup",
            UplinkKind::Broadband => "broadband",
            UplinkKind::FastEthernet => "fast_eth",
            UplinkKind::Gigabit => "gigabit",
            UplinkKind::TenGig => "10g",
        }
    }
}

/// The tier of a host with `cpus` cores and `mem_mb` megabytes of memory.
pub open spec fn spec_detect_tier(cpus: int, mem_mb: int) -> HardwareTier {
    if cpus >= 16 && mem_mb >= 16384 {
        HardwareTier::Ultra
    } else if cpus >= 8 && mem_mb >= 8192 {
        HardwareTier::High
    } else if cpus >= 4 && mem_mb >= 4096 {
        HardwareTier::Mid
    } else {
        HardwareTier::Low
    }
}

pub fn detect_tier(cpus: usize, mem_mb: u64) -> (t: HardwareTier)
    ensures
        t == spec_detect_tier(cpus as int, mem_mb as int),
{
    if cpus >= 16 && mem_mb >= 16384 {
        HardwareTier::Ultra
    } else if cpus >= 8 && mem_mb >= 8192 {
        HardwareTier::High
    } else if cpus >= 4 && mem_mb >= 4096 {
        HardwareTier::Mid
    } else {
        HardwareTier::Low
    }
}

/// Each tier asks for enough cores and enough memory together: Ultra comes
/// exactly with at least 16 cores and 16384 MB; High needs at least 8
/// cores and 8192 MB, Mid at least 4 cores and 4096 MB; a host short of 4
/// cores or of 4096 MB is Low.
pub proof fn law_detect_tier_thresholds(cpus: int, mem_mb: int)
    ensures
        (spec_detect_tier(cpus, mem_mb) == HardwareTier::Ultra) == (cpus >= 16 && mem_mb >= 16384),
        spec_detect_tier(cpus, mem_mb) == HardwareTier::High ==> cpus >= 8 && mem_mb >= 8192,
        spec_detect_tier(cpus, mem_mb) == HardwareTier::Mid ==> cpus >= 4 && mem_mb >= 4096,
        cpus < 4 || mem_mb < 4096 ==> spec_detect_tier(cpus, mem_mb) == HardwareTier::Low,
        cpus >= 8 && mem_mb >= 8192 ==> spec_detect_tier(cpus, mem_mb) != HardwareTier::Low
            && spec_detect_tier(cpus, mem_mb) != HardwareTier::Mid,
{
}

/// More cores and more memory never give a weaker tier.
pub proof fn law_detect_tier_monotone(c1: int, m1: int, c2: int, m2: int)
    requires
        c1 <= c2,
        m1 <= m2,
    ensures
        tier_rank(spec_detect_tier(c1, m1)) <= tier_rank(spec_detect_tier(c2, m2)),
{
}

/// The uplink class of a link measured at `mbps` whole megabits per second.
pub open spec fn spec_detect_uplink(mbps: int) -> UplinkKind {
    if mbps >= 5000 {
        UplinkKind::TenGig
    } else if mbps >= 800 {
        UplinkKind::Gigabit
    } else if mbps >= 80 {
        UplinkKind::FastEthernet
    } else if mbps >= 5 {
        UplinkKind::Broadband
    } else {
        UplinkKind::Dialup
    }
}

/// The uplink class of a link measured at `mbps` megabits per second,
/// rounded down (the thresholds are whole numbers, so rounding down does not
/// change the class).
pub fn detect_uplink(mbps: u64) -> (k: UplinkKind)
    ensures
        k == spec_detect_uplink(mbps as int),
{
    if mbps >= 5000 {
        UplinkKind::TenGig
    } else if mbps >= 800 {
        UplinkKind::Gigabit
    } else if mbps >= 80 {
        UplinkKind::FastEthernet
    } else if mbps >= 5 {
        UplinkKind::Broadband
    } else {
        UplinkKind::Dialup
    }
}

/// The tier a measured uplink of `mbps` whole megabits per second asks for
/// at least: Ultra from 5000, High from 800, Mid from 80.
pub open spec fn uplink_floor(mbps: int) -> int {
    if mbps >= 5000 {
        3
    } else if mbps >= 800 {
        2
    } else if mbps >= 80 {
        1
    } else {
        0
    }
}

/// `tier` raised to what a measured uplink of `mbps` (rounded down) asks
/// for, and never lowered.
pub fn raise_for_uplink(tier: HardwareTier, mbps: u64) -> (t: HardwareTier)
    ensures
        tier_rank(t) == if tier_rank(tier) >= uplink_floor(mbps as int) {
            tier_rank(tier)
        } else {
            uplink_floor(mbps as int)
        },
{
    let floor = if mbps >= 5000 {
        HardwareTier::Ultra
    } else if mbps >= 800 {
        HardwareTier::High
    } else if mbps >= 80 {
        HardwareTier::Mid
    } else {
        HardwareTier::Low
    };
    if rank(tier) >= rank(floor) {
        tier
    } else {
        floor
    }
}

fn rank(t: HardwareTier) -> (r: u8)
    ensures
        r == tier_rank(t),
{
    match t {
        HardwareTier::Low => 0,
        HardwareTier::Mid => 1,
        HardwareTier::High => 2,
        HardwareTier::Ultra => 3,
    }
}

/// The total memory, in megabytes, that a `/proc/meminfo` text reports: the
/// first `MemTotal:` line whose second word is a number of kilobytes, divided
/// by 1024; 4096 when there is none.
pub open spec fn spec_total_memory_mb(ls: Seq<Seq<char>>) -> nat
    decreases ls.len(),
{
    if ls.len() == 0 {
        4096
    } else {
        let w = words(ls[0]);
        if starts_with_seq(ls[0], "MemTotal:"@) && w.len() >= 2 && spec_parse_unsigned(
            w[1],
            u64::MAX as nat,
        ) is Some {
            spec_parse_unsigned(w[1], u64::MAX as nat)->0 / 1024
        } else {
            spec_total_memory_mb(ls.drop_first())
        }
    }
}

/// The total memory that a `/proc/meminfo` text reports, in megabytes (see
/// [`spec_total_memory_mb`]).
pub fn total_memory_mb(text: &str) -> (mb: u64)
    ensures
        mb == spec_total_memory_mb(spec_lines(text@)),
{
    let ls = lines(text);
    let mut i: usize = 0;
    assert(views(ls@).skip(0) =~= views(ls@));
    while i < ls.len()
        invariant
            0 <= i <= ls@.len(),
            views(ls@) == spec_lines(text@),
            spec_total_memory_mb(spec_lines(text@)) == spec_total_memory_mb(views(ls@).skip(i as int)),
        decreases ls.len() - i,
    {
        let ghost rest = views(ls@).skip(i as int);
        assert(rest[0] == ls@[i as int]@);
        assert(rest.drop_first() =~= views(ls@).skip(i + 1));
        if str_starts_with(ls[i].as_str(), "MemTotal:") {
            let v = chars_of(ls[i].as_str());
            assert(v@.skip(0) =~= v@);
            match nth_word(&v, 0, 1) {
                None => {},
                Some((a, b)) => match parse_unsigned(&v, a, b, u64::MAX) {
                    Some(kb) => {
                        return kb / 1024;
                    },
                    None => {},
                },
            }
        }
        i += 1;
    }
    4096
}

} // verus!
