//! Decision hooks: how candidate configurations are put in order before
//! connecting.
use vstd::prelude::*;
use crate::api::ServerConfig;
use crate::config::PerformanceMode;
use crate::pool::{has_id, ConfigScoreCache, ProvenEntry};
use crate::text::{signed_decimal, spec_signed_decimal};

verus! {

/// What a decision is made about.
pub struct ThreatContext {
    pub network: String,
    pub goal: String,
    pub jurisdiction: Option<String>,
    pub battery: u8,
    pub operator_mode: bool,
    pub mode: PerformanceMode,
    pub configs: Vec<ServerConfig>,
}

/// Puts the configurations of a context in the order they should be tried.
pub trait DecisionHook {
    fn rank_protocols(&self, ctx: &ThreatContext) -> Vec<ServerConfig>;

    fn name(&self) -> &'static str;
}

/// A configuration's health in thousandths; a missing score counts as 0.
pub open spec fn health_or_zero(c: ServerConfig) -> int {
    match c.health_score_milli {
        Some(h) => h as int,
        None => 0,
    }
}

/// Under `keys`, position `i` comes before `j`: a greater key, or an equal
/// key and earlier.
pub open spec fn key_first(keys: Seq<i128>, i: int, j: int) -> bool {
    keys[i] > keys[j] || (keys[i] == keys[j] && i < j)
}

/// `order` lists every position of `keys` once, greatest key first, earlier
/// first among equals (what a stable sort by descending key gives).
pub open spec fn is_key_order(order: Seq<usize>, keys: Seq<i128>) -> bool {
    &&& order.len() == keys.len()
    &&& forall|k: int| 0 <= k < order.len() ==> #[trigger] order[k] < keys.len()
    &&& forall|a: int, b: int|
        0 <= a < b < order.len() ==> key_first(keys, #[trigger] order[a] as int, #[trigger] order[b] as int)
}

/// The health of each configuration, in thousandths.
pub open spec fn health_keys(cs: Seq<ServerConfig>) -> Seq<i128> {
    Seq::new(cs.len(), |i: int| health_or_zero(cs[i]) as i128)
}

/// `order` lists every position of `cs` once, healthiest first, earlier
/// first among equals.
pub open spec fn is_health_order(order: Seq<usize>, cs: Seq<ServerConfig>) -> bool {
    is_key_order(order, health_keys(cs))
}

/// The configurations at the positions `order`, in that order.
pub open spec fn pick(cs: Seq<ServerConfig>, order: Seq<usize>) -> Seq<ServerConfig> {
    order.map_values(|i: usize| cs[i as int])
}

/// Position `i` is listed in `order`.
pub open spec fn appears_in(order: Seq<usize>, i: int) -> bool {
    exists|k: int| 0 <= k < order.len() && order[k] as int == i
}

/// A ranking drops nothing and repeats nothing: in an order by keys, every
/// position of the ranked sequence appears exactly once.
pub proof fn law_key_order_is_permutation(order: Seq<usize>, keys: Seq<i128>)
    requires
        is_key_order(order, keys),
    ensures
        order.no_duplicates(),
        forall|i: int| 0 <= i < keys.len() ==> #[trigger] appears_in(order, i),
{
    assert forall|a: int, b: int| 0 <= a < order.len() && 0 <= b < order.len() && a != b implies order[a]
        != order[b] by {
        if a < b {
            assert(key_first(keys, order[a] as int, order[b] as int));
        } else {
            assert(key_first(keys, order[b] as int, order[a] as int));
        }
    }
    let ints = order.map_values(|u: usize| u as int);
    assert forall|a: int, b: int| 0 <= a < ints.len() && 0 <= b < ints.len() && a != b implies ints[a]
        != ints[b] by {
        assert(order[a] != order[b]);
    }
    assert(ints.no_duplicates());
    ints.unique_seq_to_set();
    let n = keys.len() as int;
    vstd::set_lib::lemma_int_range(0, n);
    let range = vstd::set_lib::set_int_range(0, n);
    assert forall|x: int| ints.to_set().contains(x) implies range.contains(x) by {
        let k = choose|k: int| 0 <= k < ints.len() && ints[k] == x;
        assert(order[k] < keys.len());
    }
    vstd::seq_lib::seq_to_set_is_finite(ints);
    vstd::set_lib::lemma_subset_equality(ints.to_set(), range);
    assert forall|i: int| 0 <= i < keys.len() implies #[trigger] appears_in(order, i) by {
        assert(range.contains(i));
        assert(ints.to_set().contains(i));
        let k = choose|k: int| 0 <= k < ints.len() && ints[k] == i;
        assert(order[k] as int == i);
    }
}

/// Every earlier position of `s` comes before every later one under `keys`.
pub open spec fn sorted_by_key(s: Seq<usize>, keys: Seq<i128>) -> bool {
    forall|p: int, q: int| 0 <= p < q < s.len() ==> key_first(keys, #[trigger] s[p] as int, #[trigger] s[q] as int)
}

proof fn lemma_key_sorted_unique(a: Seq<usize>, b: Seq<usize>, keys: Seq<i128>)
    requires
        sorted_by_key(a, keys),
        sorted_by_key(b, keys),
        forall|x: usize| a.contains(x) <==> b.contains(x),
        forall|k: int| 0 <= k < a.len() ==> #[trigger] a[k] < keys.len(),
        forall|k: int| 0 <= k < b.len() ==> #[trigger] b[k] < keys.len(),
    ensures
        a == b,
    decreases a.len(),
{
    if a.len() == 0 {
        if b.len() > 0 {
            assert(b.contains(b[0]));
        }
        assert(a =~= b);
    } else {
        assert(a.contains(a[0]));
        assert(b.len() > 0);
        assert(b.contains(b[0]));
        let ka = choose|k: int| 0 <= k < a.len() && a[k] == b[0];
        let kb = choose|k: int| 0 <= k < b.len() && b[k] == a[0];
        if a[0] != b[0] {
            assert(key_first(keys, a[0] as int, a[ka] as int));
            assert(key_first(keys, b[0] as int, b[kb] as int));
        }
        let ta = a.drop_first();
        let tb = b.drop_first();
        assert forall|x: usize| ta.contains(x) <==> tb.contains(x) by {
            if ta.contains(x) {
                let k = choose|k: int| 0 <= k < ta.len() && ta[k] == x;
                assert(a[k + 1] == x);
                assert(key_first(keys, a[0] as int, a[k + 1] as int));
                assert(a.contains(x));
                let m = choose|m: int| 0 <= m < b.len() && b[m] == x;
                assert(m != 0);
                assert(tb[m - 1] == x);
            }
            if tb.contains(x) {
                let k = choose|k: int| 0 <= k < tb.len() && tb[k] == x;
                assert(b[k + 1] == x);
                assert(key_first(keys, b[0] as int, b[k + 1] as int));
                assert(b.contains(x));
                let m = choose|m: int| 0 <= m < a.len() && a[m] == x;
                assert(m != 0);
                assert(ta[m - 1] == x);
            }
        }
        assert(sorted_by_key(ta, keys)) by {
            assert forall|p: int, q: int| 0 <= p < q < ta.len() implies key_first(keys, #[trigger] ta[p] as int, #[trigger] ta[q] as int) by {
                assert(ta[p] == a[p + 1] && ta[q] == a[q + 1]);
            }
        }
        assert(sorted_by_key(tb, keys)) by {
            assert forall|p: int, q: int| 0 <= p < q < tb.len() implies key_first(keys, #[trigger] tb[p] as int, #[trigger] tb[q] as int) by {
                assert(tb[p] == b[p + 1] && tb[q] == b[q + 1]);
            }
        }
        assert forall|k: int| 0 <= k < ta.len() implies #[trigger] ta[k] < keys.len() by {
            assert(ta[k] == a[k + 1]);
        }
        assert forall|k: int| 0 <= k < tb.len() implies #[trigger] tb[k] < keys.len() by {
            assert(tb[k] == b[k + 1]);
        }
        lemma_key_sorted_unique(ta, tb, keys);
        assert(a =~= seq![a[0]] + ta);
        assert(b =~= seq![b[0]] + tb);
    }
}

/// The ranking is determined by the keys: two orders by the same keys are
/// the same list (so a ranking's `exists` names exactly one order).
pub proof fn law_key_order_unique(o1: Seq<usize>, o2: Seq<usize>, keys: Seq<i128>)
    requires
        is_key_order(o1, keys),
        is_key_order(o2, keys),
    ensures
        o1 == o2,
{
    law_key_order_is_permutation(o1, keys);
    law_key_order_is_permutation(o2, keys);
    assert forall|x: usize| o1.contains(x) <==> o2.contains(x) by {
        if o1.contains(x) {
            let k = choose|k: int| 0 <= k < o1.len() && o1[k] == x;
            assert(appears_in(o2, x as int));
        }
        if o2.contains(x) {
            let k = choose|k: int| 0 <= k < o2.len() && o2[k] == x;
            assert(appears_in(o1, x as int));
        }
    }
    assert(sorted_by_key(o1, keys));
    assert(sorted_by_key(o2, keys));
    lemma_key_sorted_unique(o1, o2, keys);
}

fn order_by_keys(keys: &Vec<i128>) -> (order: Vec<usize>)
    ensures
        is_key_order(order@, keys@),
{
    let mut order: Vec<usize> = Vec::new();
    let mut i: usize = 0;
    while i < keys.len()
        invariant
            0 <= i <= keys@.len(),
            order@.len() == i,
            forall|q: int| 0 <= q < i ==> (#[trigger] order@[q]) < i,
            forall|a: int, b: int|
                0 <= a < b < i ==> key_first(keys@, #[trigger] order@[a] as int, #[trigger] order@[b] as int),
        decreases keys.len() - i,
    {
        let k = keys[i];
        let mut p: usize = 0;
        while p < order.len() && keys[order[p]] >= k
            invariant
                0 <= p <= order@.len(),
                order@.len() == i,
                i < keys@.len(),
                k == keys@[i as int],
                forall|q: int| 0 <= q < i ==> (#[trigger] order@[q]) < i,
                forall|q: int| 0 <= q < p ==> keys@[#[trigger] order@[q] as int] >= k,
            decreases order.len() - p,
        {
            p += 1;
        }
        let ghost old_o = order@;
        order.insert(p, i);
        proof {
            assert(order@ =~= old_o.insert(p as int, i));
            assert forall|q: int| 0 <= q < i + 1 implies (#[trigger] order@[q]) < i + 1 by {
                if q < p {
                    assert(order@[q] == old_o[q]);
                } else if q > p {
                    assert(order@[q] == old_o[q - 1]);
                }
            }
            assert forall|a: int, b: int| 0 <= a < b < i + 1 implies key_first(keys@, #[trigger] order@[a] as int, #[trigger] order@[b] as int) by {
                if a < p && b < p {
                    assert(order@[a] == old_o[a] && order@[b] == old_o[b]);
                } else if a < p && b == p {
                    assert(order@[a] == old_o[a]);
                    assert(keys@[old_o[a] as int] >= k);
                } else if a < p && b > p {
                    assert(order@[a] == old_o[a] && order@[b] == old_o[b - 1]);
                } else if a == p {
                    assert(order@[b] == old_o[b - 1]);
                    assert(!(keys@[old_o[p as int] as int] >= k));
                    if b - 1 > p {
                        assert(key_first(keys@, old_o[p as int] as int, old_o[b - 1] as int));
                    }
                } else {
                    assert(order@[a] == old_o[a - 1] && order@[b] == old_o[b - 1]);
                }
            }
        }
        i += 1;
    }
    order
}

/// The configurations of `cs` at the positions of `order`, copied.
fn pick_configs(cs: &Vec<ServerConfig>, order: &Vec<usize>) -> (v: Vec<ServerConfig>)
    requires
        forall|k: int| 0 <= k < order@.len() ==> #[trigger] order@[k] < cs@.len(),
    ensures
        v@ == pick(cs@, order@),
{
    let mut v: Vec<ServerConfig> = Vec::new();
    let mut k: usize = 0;
    while k < order.len()
        invariant
            0 <= k <= order@.len(),
            forall|q: int| 0 <= q < order@.len() ==> #[trigger] order@[q] < cs@.len(),
            v@ == pick(cs@, order@.take(k as int)),
        decreases order.len() - k,
    {
        let ghost before = v@;
        v.push(cs[order[k]].duplicate());
        assert(pick(cs@, order@.take(k + 1)) =~= before.push(cs@[order@[k as int] as int]));
        k += 1;
    }
    assert(order@.take(order@.len() as int) =~= order@);
    v
}

/// The health of each configuration, in thousandths, as sort keys.
fn health_key_vec(cs: &Vec<ServerConfig>) -> (keys: Vec<i128>)
    ensures
        keys@ == health_keys(cs@),
{
    let mut keys: Vec<i128> = Vec::new();
    let mut i: usize = 0;
    while i < cs.len()
        invariant
            0 <= i <= cs@.len(),
            keys@.len() == i,
            forall|q: int| 0 <= q < i ==> #[trigger] keys@[q] == health_or_zero(cs@[q]) as i128,
        decreases cs.len() - i,
    {
        let h: i128 = match cs[i].health_score_milli {
            Some(h) => h as i128,
            None => 0,
        };
        keys.push(h);
        i += 1;
    }
    assert(keys@ =~= health_keys(cs@));
    keys
}

/// The cache holds a measurement of `c`, under its id in decimal.
pub open spec fn is_cached(c: ServerConfig, es: Seq<ProvenEntry>) -> bool {
    has_id(es, spec_signed_decimal(c.id as int))
}

/// A configuration's health in thousandths, with 100 more (a tenth of a
/// point) when the cache holds a measurement of it.
pub open spec fn cached_health_keys(cs: Seq<ServerConfig>, es: Seq<ProvenEntry>) -> Seq<i128> {
    Seq::new(
        cs.len(),
        |i: int| (health_or_zero(cs[i]) + if is_cached(cs[i], es) { 100int } else { 0int }) as i128,
    )
}

/// With nothing measured, the cache changes nothing: the keys are the
/// health alone, so the ranking is the ranking by health.
pub proof fn law_empty_cache_ranks_by_health(cs: Seq<ServerConfig>, es: Seq<ProvenEntry>)
    requires
        es.len() == 0,
    ensures
        cached_health_keys(cs, es) == health_keys(cs),
{
    assert forall|i: int| 0 <= i < cs.len() implies !is_cached(#[trigger] cs[i], es) by {
        if is_cached(cs[i], es) {
            let j = choose|j: int| 0 <= j < es.len() && (#[trigger] es[j]).id@ == spec_signed_decimal(cs[i].id as int);
        }
    }
    assert(cached_health_keys(cs, es) =~= health_keys(cs));
}

/// `v` is `cs` ranked by health, with a tenth of a point added for each
/// configuration that the cache entries `es` have measured; equal ones
/// keep their order, and none is dropped.
pub open spec fn ranks_by_cache(cs: Seq<ServerConfig>, es: Seq<ProvenEntry>, v: Seq<ServerConfig>) -> bool {
    exists|order: Seq<usize>| is_key_order(order, cached_health_keys(cs, es)) && v == pick(cs, order)
}

/// Without a reasoning core, the ranking depends on the configurations and
/// the cache alone: two contexts with the same configurations get the same
/// ranking whatever their network, goal, jurisdiction, battery, operator
/// mode and performance mode.
pub proof fn law_ranking_without_core_is_context_only(
    ctx1: ThreatContext,
    ctx2: ThreatContext,
    es: Seq<ProvenEntry>,
    v1: Seq<ServerConfig>,
    v2: Seq<ServerConfig>,
)
    requires
        ctx1.configs@ == ctx2.configs@,
        ranks_by_cache(ctx1.configs@, es, v1),
        ranks_by_cache(ctx2.configs@, es, v2),
    ensures
        v1 == v2,
{
    let keys = cached_health_keys(ctx1.configs@, es);
    let o1 = choose|order: Seq<usize>| is_key_order(order, keys) && v1 == pick(ctx1.configs@, order);
    let o2 = choose|order: Seq<usize>| is_key_order(order, keys) && v2 == pick(ctx2.configs@, order);
    law_key_order_unique(o1, o2, keys);
}

/// Ranks the configurations of `ctx` as the ternary hook does when it has
/// no reasoning core (see [`ranks_by_cache`]); nothing else of `ctx` plays
/// a part.
pub fn rank_with_cache(ctx: &ThreatContext, cache: &ConfigScoreCache) -> (v: Vec<ServerConfig>)
    ensures
        ranks_by_cache(ctx.configs@, cache.entries@, v@),
{
    let cs = &ctx.configs;
    let mut keys: Vec<i128> = Vec::new();
    let mut i: usize = 0;
    while i < cs.len()
        invariant
            0 <= i <= cs@.len(),
            keys@.len() == i,
            forall|q: int| 0 <= q < i ==> #[trigger] keys@[q] == cached_health_keys(cs@, cache.entries@)[q],
        decreases cs.len() - i,
    {
        let h: i128 = match cs[i].health_score_milli {
            Some(h) => h as i128,
            None => 0,
        };
        let id = signed_decimal(cs[i].id);
        let bonus: i128 = if cache.get(id.as_str()).is_some() {
            100
        } else {
            0
        };
        keys.push(h + bonus);
        i += 1;
    }
    assert(keys@ =~= cached_health_keys(cs@, cache.entries@));
    let order = order_by_keys(&keys);
    pick_configs(cs, &order)
}

/// The hook that ranks by health alone.
#[derive(Debug, Clone, Copy, Default)]
pub struct NoopDecisionHook;

impl NoopDecisionHook {
    /// The configurations of `ctx`, healthiest first (a missing score counts
    /// as 0), in the order given among equals.
    pub fn rank_by_health(&self, ctx: &ThreatContext) -> (v: Vec<ServerConfig>)
        ensures
            exists|order: Seq<usize>| is_health_order(order, ctx.configs@) && v@ == pick(ctx.configs@, order),
    {
        let keys = health_key_vec(&ctx.configs);
        let order = order_by_keys(&keys);
        pick_configs(&ctx.configs, &order)
    }
}

impl DecisionHook for NoopDecisionHook {
    fn rank_protocols(&self, ctx: &ThreatContext) -> (v: Vec<ServerConfig>)
        ensures
            exists|order: Seq<usize>| is_health_order(order, ctx.configs@) && v@ == pick(ctx.configs@, order),
    {
        self.rank_by_health(ctx)
    }

    fn name(&self) -> (n: &'static str)
        ensures
            n@ == "noop"@,
    {
        "noop"
    }
}

} // verus!
