//! Server quality measurements, the cache that keeps them, and probes that
//! take them.
use vstd::prelude::*;
use crate::api::ServerConfig;
use crate::bridge::now_millis;
use crate::text::str_eq;

verus! {

/// One measurement of a server. Latency is kept in microseconds and
/// throughput in kilobits per second, so that whole milliseconds and whole
/// megabits are exact.
#[derive(Debug, Clone, Copy, PartialEq, Eq, Structural)]
pub struct QualityMetrics {
    pub latency_us: u64,
    pub throughput_kbps: u64,
    pub handshake_ok: bool,
    pub dpi_resistance: bool,
    /// When the measurement was taken, in seconds since the Unix epoch.
    pub last_tested: u64,
}

/// A measurement kept under the id of the configuration it was taken of.
#[derive(Debug, Clone)]
pub struct ProvenEntry {
    pub id: String,
    pub metrics: QualityMetrics,
}

impl ProvenEntry {
    /// A field-by-field copy.
    pub fn duplicate(&self) -> (r: ProvenEntry)
        ensures
            r == *self,
    {
        ProvenEntry { id: self.id.clone(), metrics: self.metrics }
    }
}

/// No two entries share an id.
pub open spec fn ids_distinct(es: Seq<ProvenEntry>) -> bool {
    forall|i: int, j: int| 0 <= i < j < es.len() ==> (#[trigger] es[i]).id@ != (#[trigger] es[j]).id@
}

/// `i` is the first entry of `es` kept under `id`.
pub open spec fn first_with_id(es: Seq<ProvenEntry>, id: Seq<char>, i: int) -> bool {
    &&& 0 <= i < es.len()
    &&& es[i].id@ == id
    &&& forall|j: int| 0 <= j < i ==> (#[trigger] es[j]).id@ != id
}

/// Some entry of `es` is kept under `id`.
pub open spec fn has_id(es: Seq<ProvenEntry>, id: Seq<char>) -> bool {
    exists|i: int| 0 <= i < es.len() && (#[trigger] es[i]).id@ == id
}

/// A measurement taken at `last_tested` is still fresh at `now` (both in
/// seconds): less than an hour has passed, and one from the future is
/// always fresh.
pub open spec fn is_fresh(last_tested: u64, now: u64) -> bool {
    (if now >= last_tested { now - last_tested } else { 0 }) < 3600
}

/// The entries of `es` still fresh at `now`, in order.
pub open spec fn fresh_entries(es: Seq<ProvenEntry>, now: u64) -> Seq<ProvenEntry> {
    es.filter(|e: ProvenEntry| is_fresh(e.metrics.last_tested, now))
}

/// `new` is what keeping `m` under `id` makes of `old`: the first entry
/// under `id` gets `m` in place, or, when there is none, a new entry for
/// `id` joins the end; every other entry stays where it was.
pub open spec fn put_result(old: Seq<ProvenEntry>, id: Seq<char>, m: QualityMetrics, new: Seq<ProvenEntry>) -> bool {
    if has_id(old, id) {
        exists|i: int|
            first_with_id(old, id, i) && new.len() == old.len() && new[i].id@ == id && new[i].metrics == m
                && forall|j: int| 0 <= j < old.len() && j != i ==> #[trigger] new[j] == old[j]
    } else {
        new.len() == old.len() + 1 && new.last().id@ == id && new.last().metrics == m && forall|j: int|
            0 <= j < old.len() ==> #[trigger] new[j] == old[j]
    }
}

/// A read after a write gives back what was written: after `m` is kept
/// under `id`, the first entry under `id` holds `m`.
pub proof fn law_get_after_put(old: Seq<ProvenEntry>, id: Seq<char>, m: QualityMetrics, new: Seq<ProvenEntry>)
    requires
        put_result(old, id, m, new),
    ensures
        has_id(new, id),
        exists|i: int| first_with_id(new, id, i) && new[i].metrics == m,
{
    if has_id(old, id) {
        let i = choose|i: int|
            first_with_id(old, id, i) && new.len() == old.len() && new[i].id@ == id && new[i].metrics == m
                && forall|j: int| 0 <= j < old.len() && j != i ==> #[trigger] new[j] == old[j];
        assert forall|j: int| 0 <= j < i implies (#[trigger] new[j]).id@ != id by {
            assert(new[j] == old[j]);
        }
        assert(first_with_id(new, id, i));
    } else {
        let n = old.len() as int;
        assert forall|j: int| 0 <= j < n implies (#[trigger] new[j]).id@ != id by {
            assert(new[j] == old[j]);
            if old[j].id@ == id {
                assert(has_id(old, id));
            }
        }
        assert(new[n] == new.last());
        assert(first_with_id(new, id, n));
    }
}

/// Writing under one id leaves what is read under any other id as it was.
pub proof fn law_put_keeps_other_ids(
    old: Seq<ProvenEntry>,
    id: Seq<char>,
    m: QualityMetrics,
    new: Seq<ProvenEntry>,
    other: Seq<char>,
    i: int,
)
    requires
        put_result(old, id, m, new),
        other != id,
    ensures
        first_with_id(old, other, i) <==> first_with_id(new, other, i),
        first_with_id(old, other, i) ==> new[i] == old[i],
        has_id(old, other) <==> has_id(new, other),
{
    if has_id(old, id) {
        let t = choose|t: int|
            first_with_id(old, id, t) && new.len() == old.len() && new[t].id@ == id && new[t].metrics == m
                && forall|j: int| 0 <= j < old.len() && j != t ==> #[trigger] new[j] == old[j];
        assert forall|j: int| 0 <= j < old.len() implies (#[trigger] new[j]).id@ == other <==> old[j].id@ == other by {
            if j != t {
                assert(new[j] == old[j]);
            }
        }
        if has_id(new, other) {
            let j = choose|j: int| 0 <= j < new.len() && (#[trigger] new[j]).id@ == other;
            assert(old[j].id@ == other);
        }
        if has_id(old, other) {
            let j = choose|j: int| 0 <= j < old.len() && (#[trigger] old[j]).id@ == other;
            assert(new[j].id@ == other);
        }
        if first_with_id(old, other, i) {
            assert(i != t);
            assert(new[i] == old[i]);
            assert forall|j: int| 0 <= j < i implies (#[trigger] new[j]).id@ != other by {
                assert(old[j].id@ != other);
            }
        }
        if first_with_id(new, other, i) {
            assert(old[i].id@ == other) by {
                assert(new[i].id@ == other);
            }
            assert forall|j: int| 0 <= j < i implies (#[trigger] old[j]).id@ != other by {
                assert(new[j].id@ != other);
            }
        }
    } else {
        let n = old.len() as int;
        assert forall|j: int| 0 <= j < n implies (#[trigger] new[j]).id@ == other <==> old[j].id@ == other by {
            assert(new[j] == old[j]);
        }
        assert(new[n] == new.last());
        if has_id(new, other) {
            let j = choose|j: int| 0 <= j < new.len() && (#[trigger] new[j]).id@ == other;
            assert(j != n);
            assert(old[j].id@ == other);
        }
        if has_id(old, other) {
            let j = choose|j: int| 0 <= j < old.len() && (#[trigger] old[j]).id@ == other;
            assert(new[j].id@ == other);
        }
        if first_with_id(old, other, i) {
            assert(new[i] == old[i]);
            assert forall|j: int| 0 <= j < i implies (#[trigger] new[j]).id@ != other by {
                assert(old[j].id@ != other);
            }
        }
        if first_with_id(new, other, i) {
            assert(i != n);
            assert(old[i].id@ == other) by {
                assert(new[i].id@ == other);
            }
            assert forall|j: int| 0 <= j < i implies (#[trigger] old[j]).id@ != other by {
                assert(new[j].id@ != other);
            }
        }
    }
}

/// Cleaning up keeps exactly the fresh entries: each kept entry is fresh,
/// every fresh entry is kept, and a second clean-up at the same time
/// changes nothing.
pub proof fn law_cleanup_keeps_fresh(es: Seq<ProvenEntry>, now: u64)
    ensures
        forall|k: int| 0 <= k < fresh_entries(es, now).len() ==> is_fresh(
            (#[trigger] fresh_entries(es, now)[k]).metrics.last_tested,
            now,
        ),
        forall|k: int| 0 <= k < es.len() && is_fresh((#[trigger] es[k]).metrics.last_tested, now)
            ==> fresh_entries(es, now).contains(es[k]),
        fresh_entries(fresh_entries(es, now), now) == fresh_entries(es, now),
    decreases es.len(),
{
    let pred = |e: ProvenEntry| is_fresh(e.metrics.last_tested, now);
    broadcast use vstd::seq_lib::group_filter_ensures;
    assert forall|k: int| 0 <= k < fresh_entries(es, now).len() implies is_fresh(
        (#[trigger] fresh_entries(es, now)[k]).metrics.last_tested,
        now,
    ) by {
        es.lemma_filter_pred(pred, k);
    }
    assert forall|k: int| 0 <= k < es.len() && is_fresh((#[trigger] es[k]).metrics.last_tested, now) implies fresh_entries(
        es,
        now,
    ).contains(es[k]) by {
        es.lemma_filter_contains(pred, k);
    }
    reveal(Seq::filter);
    if es.len() > 0 {
        law_cleanup_keeps_fresh(es.drop_last(), now);
        let rest = fresh_entries(es.drop_last(), now);
        if pred(es.last()) {
            assert(fresh_entries(es, now) == rest.push(es.last()));
            assert(rest.push(es.last()).drop_last() =~= rest);
            assert(fresh_entries(rest.push(es.last()), now) == fresh_entries(rest, now).push(es.last()));
        } else {
            assert(fresh_entries(es, now) == rest);
        }
    }
}

/// The measurements known of configurations, one per id.
#[derive(Debug, Clone)]
pub struct ConfigScoreCache {
    pub entries: Vec<ProvenEntry>,
}

fn find_entry(es: &Vec<ProvenEntry>, id: &str) -> (r: Option<usize>)
    ensures
        r matches Some(i) ==> first_with_id(es@, id@, i as int),
        r is None <==> !has_id(es@, id@),
{
    let mut i: usize = 0;
    while i < es.len()
        invariant
            0 <= i <= es@.len(),
            forall|j: int| 0 <= j < i ==> (#[trigger] es@[j]).id@ != id@,
        decreases es.len() - i,
    {
        if str_eq(es[i].id.as_str(), id) {
            return Some(i);
        }
        i += 1;
    }
    None
}

impl ConfigScoreCache {
    /// The cache keeps one entry per id.
    pub open spec fn wf(&self) -> bool {
        ids_distinct(self.entries@)
    }

    pub fn new() -> (c: ConfigScoreCache)
        ensures
            c.entries@.len() == 0,
            c.wf(),
    {
        ConfigScoreCache { entries: Vec::new() }
    }

    /// The entry kept under `id`, if any.
    pub fn get(&self, id: &str) -> (r: Option<&ProvenEntry>)
        ensures
            r is None <==> !has_id(self.entries@, id@),
            r matches Some(e) ==> exists|i: int|
                first_with_id(self.entries@, id@, i) && self.entries@[i] == *e,
    {
        match find_entry(&self.entries, id) {
            Some(i) => Some(&self.entries[i]),
            None => None,
        }
    }

    /// Keeps `m` under `id`: it replaces the entry already kept there, or
    /// is added after the others.
    pub fn put(&mut self, id: &str, m: QualityMetrics)
        ensures
            put_result(old(self).entries@, id@, m, final(self).entries@),
            old(self).wf() ==> final(self).wf(),
    {
        let e = ProvenEntry { id: id.to_string(), metrics: m };
        match find_entry(&self.entries, id) {
            Some(i) => {
                self.entries.set(i, e);
                proof {
                    if ids_distinct(old(self).entries@) {
                        assert forall|a: int, b: int|
                            0 <= a < b < self.entries@.len() implies (#[trigger] self.entries@[a]).id@
                            != (#[trigger] self.entries@[b]).id@ by {
                            if a == i as int {
                                assert(old(self).entries@[b].id@ != id@);
                            } else if b == i as int {
                                assert(old(self).entries@[a].id@ != id@);
                            } else {
                                assert(old(self).entries@[a] == self.entries@[a]);
                                assert(old(self).entries@[b] == self.entries@[b]);
                            }
                        }
                    }
                }
            },
            None => {
                self.entries.push(e);
                proof {
                    let n = old(self).entries@.len() as int;
                    if ids_distinct(old(self).entries@) {
                        assert forall|a: int, b: int|
                            0 <= a < b < self.entries@.len() implies (#[trigger] self.entries@[a]).id@
                            != (#[trigger] self.entries@[b]).id@ by {
                            assert(self.entries@[a] == old(self).entries@[a]);
                            if b == n {
                                assert(old(self).entries@[a].id@ != id@);
                            } else {
                                assert(self.entries@[b] == old(self).entries@[b]);
                            }
                        }
                    }
                }
            },
        }
    }

    /// Drops every entry measured an hour or more before `now` (seconds
    /// since the Unix epoch); the others stay, in order.
    pub fn cleanup_stale_at(&mut self, now: u64)
        ensures
            final(self).entries@ == fresh_entries(old(self).entries@, now),
            old(self).wf() ==> final(self).wf(),
    {
        let ghost pred = |e: ProvenEntry| is_fresh(e.metrics.last_tested, now);
        let ghost es = self.entries@;
        let mut kept: Vec<ProvenEntry> = Vec::new();
        let ghost mut from: Seq<int> = Seq::empty();
        let mut i: usize = 0;
        while i < self.entries.len()
            invariant
                es == self.entries@,
                pred == (|e: ProvenEntry| is_fresh(e.metrics.last_tested, now)),
                0 <= i <= es.len(),
                kept@ == es.take(i as int).filter(pred),
                from.len() == kept@.len(),
                forall|k: int| 0 <= k < from.len() ==> 0 <= #[trigger] from[k] < i && kept@[k] == es[from[k]],
                forall|a: int, b: int| 0 <= a < b < from.len() ==> #[trigger] from[a] < #[trigger] from[b],
            decreases es.len() - i,
        {
            let e = &self.entries[i];
            proof {
                assert(es.take(i + 1).drop_last() =~= es.take(i as int));
                assert(es.take(i + 1).last() == es[i as int]);
                reveal(Seq::filter);
            }
            let lt = e.metrics.last_tested;
            let age: u64 = if now >= lt {
                now - lt
            } else {
                0
            };
            if age < 3600 {
                kept.push(e.duplicate());
                proof {
                    from = from.push(i as int);
                }
            }
            i += 1;
        }
        proof {
            assert(es.take(es.len() as int) =~= es);
            if ids_distinct(es) {
                assert forall|a: int, b: int|
                    0 <= a < b < kept@.len() implies (#[trigger] kept@[a]).id@
                    != (#[trigger] kept@[b]).id@ by {
                    assert(from[a] < from[b]);
                }
            }
        }
        self.entries = kept;
    }

    /// Drops every entry measured an hour or more ago, by the clock.
    pub fn cleanup_stale(&mut self)
        ensures
            exists|now: u64| final(self).entries@ == fresh_entries(old(self).entries@, now),
            old(self).wf() ==> final(self).wf(),
    {
        let now = now_millis() / 1000;
        self.cleanup_stale_at(now);
    }

    pub fn len(&self) -> (n: usize)
        ensures
            n == self.entries@.len(),
    {
        self.entries.len()
    }

    pub fn is_empty(&self) -> (b: bool)
        ensures
            b == (self.entries@.len() == 0),
    {
        self.entries.len() == 0
    }
}

/// Something that measures a configuration.
pub trait Probe {
    fn probe(&self, cfg: &ServerConfig) -> QualityMetrics;
}

/// `|id|`, as `i64::unsigned_abs` gives it.
pub open spec fn abs_id(id: i64) -> nat {
    if id < 0 {
        (-id) as nat
    } else {
        id as nat
    }
}

/// The latency, in whole milliseconds, the mock probe reports for a
/// configuration of the protocol `p` whose id has magnitude `base`.
pub open spec fn mock_latency_ms(p: Seq<char>, base: nat) -> nat {
    if p == "wireguard"@ {
        20 + base % 30
    } else if p == "vless"@ {
        50 + base % 40
    } else if p == "shadowsocks"@ {
        80 + base % 50
    } else if p == "hysteria2"@ {
        100 + base % 60
    } else {
        150
    }
}

/// The throughput, in whole megabits per second, the mock probe reports for
/// the protocol `p`.
pub open spec fn mock_throughput_mbps(p: Seq<char>) -> nat {
    if p == "wireguard"@ {
        800
    } else if p == "vless"@ {
        500
    } else if p == "shadowsocks"@ {
        300
    } else if p == "hysteria2"@ {
        600
    } else {
        100
    }
}

/// What the mock probe reports for `cfg`.
pub open spec fn mock_metrics(cfg: ServerConfig) -> QualityMetrics {
    QualityMetrics {
        latency_us: (mock_latency_ms(cfg.protocol@, abs_id(cfg.id)) * 1000) as u64,
        throughput_kbps: (mock_throughput_mbps(cfg.protocol@) * 1000) as u64,
        handshake_ok: true,
        dpi_resistance: cfg.protocol@ == "wireguard"@ || cfg.protocol@ == "vless"@,
        last_tested: 0,
    }
}

/// A probe that makes up plausible measurements from a configuration alone,
/// for tests and dry runs.
#[derive(Debug, Clone, Copy, Default)]
pub struct MockProbe;

impl MockProbe {
    /// Latency grows with the protocol's overhead and varies with the id;
    /// throughput depends on the protocol alone.
    pub fn measure(&self, cfg: &ServerConfig) -> (m: QualityMetrics)
        ensures
            m == mock_metrics(*cfg),
    {
        let base: u64 = if cfg.id < 0 {
            if cfg.id == i64::MIN {
                0x8000_0000_0000_0000u64
            } else {
                (-cfg.id) as u64
            }
        } else {
            cfg.id as u64
        };
        let p = cfg.protocol.as_str();
        let (latency_ms, mbps): (u64, u64) = if str_eq(p, "wireguard") {
            (20 + base % 30, 800)
        } else if str_eq(p, "vless") {
            (50 + base % 40, 500)
        } else if str_eq(p, "shadowsocks") {
            (80 + base % 50, 300)
        } else if str_eq(p, "hysteria2") {
            (100 + base % 60, 600)
        } else {
            (150, 100)
        };
        let dpi = str_eq(p, "wireguard") || str_eq(p, "vless");
        QualityMetrics {
            latency_us: latency_ms * 1000,
            throughput_kbps: mbps * 1000,
            handshake_ok: true,
            dpi_resistance: dpi,
            last_tested: 0,
        }
    }
}

impl Probe for MockProbe {
    fn probe(&self, cfg: &ServerConfig) -> (m: QualityMetrics)
        ensures
            m == mock_metrics(*cfg),
    {
        self.measure(cfg)
    }
}

} // verus!
