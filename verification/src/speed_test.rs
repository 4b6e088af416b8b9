//! Speed-test settings, and how the streams of one sample add up.
use vstd::prelude::*;

verus! {

/// How a speed test is run.
#[derive(Debug, Clone, Copy, PartialEq, Eq, Structural)]
pub struct SpeedTestConfig {
    /// Target sample size in bytes (10 MB default).
    pub target_bytes: u64,
    /// Per-probe HTTP timeout, in milliseconds.
    pub timeout_ms: u64,
    /// Number of independent samples (median wins).
    pub samples: u8,
    /// Number of parallel streams per sample.
    pub streams: u8,
    /// Discard the first N ms of each stream (TCP slow-start).
    pub warmup_ms: u64,
}

impl Default for SpeedTestConfig {
    fn default() -> (c: SpeedTestConfig)
        ensures
            c == (SpeedTestConfig {
                target_bytes: 10_485_760u64,
                timeout_ms: 15_000,
                samples: 3,
                streams: 4,
                warmup_ms: 750,
            }),
    {
        SpeedTestConfig {
            target_bytes: 10 * 1024 * 1024,
            timeout_ms: 15_000,
            samples: 3,
            streams: 4,
            warmup_ms: 750,
        }
    }
}

/// What each of `streams` parallel downloads fetches of `target_bytes`.
pub fn per_stream_bytes(target_bytes: u64, streams: u8) -> (n: u64)
    requires
        streams > 0,
    ensures
        n == target_bytes / (streams as u64),
{
    target_bytes / (streams as u64)
}

/// The sum of the byte counts of `streams` (each a pair of bytes and
/// elapsed milliseconds).
pub open spec fn total_bytes(streams: Seq<(u64, u64)>) -> int
    decreases streams.len(),
{
    if streams.len() == 0 {
        0
    } else {
        total_bytes(streams.drop_last()) + streams.last().0
    }
}

/// The longest elapsed time among `streams`, or 0 when there is none.
pub open spec fn max_elapsed(streams: Seq<(u64, u64)>) -> int
    decreases streams.len(),
{
    if streams.len() == 0 {
        0
    } else {
        let m = max_elapsed(streams.drop_last());
        if streams.last().1 > m {
            streams.last().1 as int
        } else {
            m
        }
    }
}

proof fn lemma_max_elapsed_bound(streams: Seq<(u64, u64)>)
    ensures
        0 <= max_elapsed(streams) <= u64::MAX,
    decreases streams.len(),
{
    if streams.len() > 0 {
        lemma_max_elapsed_bound(streams.drop_last());
    }
}

/// The streams of one sample taken together: all the bytes over the longest
/// elapsed time, or `None` when no byte came or no time passed.
pub fn combine_streams(streams: &[(u64, u64)]) -> (r: Option<(u64, u64)>)
    requires
        total_bytes(streams@) <= u64::MAX,
    ensures
        match r {
            Some((bytes, ms)) => bytes == total_bytes(streams@) && ms == max_elapsed(streams@)
                && bytes > 0 && ms > 0,
            None => total_bytes(streams@) == 0 || max_elapsed(streams@) == 0,
        },
{
    let mut bytes: u64 = 0;
    let mut ms: u64 = 0;
    let mut i: usize = 0;
    while i < streams.len()
        invariant
            0 <= i <= streams@.len(),
            total_bytes(streams@) <= u64::MAX,
            bytes == total_bytes(streams@.take(i as int)),
            ms == max_elapsed(streams@.take(i as int)),
        decreases streams.len() - i,
    {
        proof {
            assert(streams@.take(i + 1).drop_last() =~= streams@.take(i as int));
            lemma_total_prefix(streams@, i + 1);
        }
        let (b, e) = streams[i];
        bytes = bytes + b;
        if e > ms {
            ms = e;
        }
        i += 1;
    }
    assert(streams@.take(streams@.len() as int) =~= streams@);
    if bytes == 0 || ms == 0 {
        None
    } else {
        Some((bytes, ms))
    }
}

proof fn lemma_total_prefix(streams: Seq<(u64, u64)>, k: int)
    requires
        0 <= k <= streams.len(),
    ensures
        total_bytes(streams.take(k)) <= total_bytes(streams),
    decreases streams.len() - k,
{
    if k < streams.len() {
        lemma_total_prefix(streams, k + 1);
        assert(streams.take(k + 1).drop_last() =~= streams.take(k));
    } else {
        assert(streams.take(k) =~= streams);
    }
}

} // verus!
