//! Choosing a server for a protocol and keeping track of the sessions that
//! are open.
use vstd::prelude::*;
use crate::api::ServerConfig;
use crate::bridge::{is_v4_uuid_text, new_uuid_v4, now_millis, parse_url, url_parse};
use crate::config::ProtocolsConfig;
use crate::error::WardenError;
use crate::text::{
    append_str, eq_ignore_ascii_case, eq_ignore_case, signed_decimal, spec_signed_decimal, str_eq,
    string_from, views,
};
use crate::urls::opt_str;

verus! {

/// A connection that the client holds open. `connected_at_ms` is the
/// wall-clock time it was opened, in milliseconds since the Unix epoch.
#[derive(Debug, Clone)]
pub struct ActiveConnection {
    pub session_id: String,
    pub protocol: String,
    pub server: String,
    pub host: String,
    pub port: i32,
    pub connected_at_ms: u64,
    pub bytes_sent: u64,
    pub bytes_received: u64,
}

impl ActiveConnection {
    /// A field-by-field copy.
    pub fn duplicate(&self) -> (r: ActiveConnection)
        ensures
            r == *self,
    {
        ActiveConnection {
            session_id: self.session_id.clone(),
            protocol: self.protocol.clone(),
            server: self.server.clone(),
            host: self.host.clone(),
            port: self.port,
            connected_at_ms: self.connected_at_ms,
            bytes_sent: self.bytes_sent,
            bytes_received: self.bytes_received,
        }
    }
}

/// What the manager keeps of an open session.
#[derive(Debug, Clone)]
pub struct SessionHandle {
    pub id: String,
    pub protocol: String,
    pub host: String,
    pub port: i32,
    pub started_at_ms: u64,
    pub fingerprint: String,
}

/// Whether protocol `p` is switched on in `c`; unknown protocols are off.
pub open spec fn enabled_spec(c: ProtocolsConfig, p: Seq<char>) -> bool {
    if p == "wireguard"@ {
        c.wireguard_enabled
    } else if p == "vless"@ {
        c.vless_enabled
    } else if p == "shadowsocks"@ {
        c.shadowsocks_enabled
    } else if p == "hysteria2"@ {
        c.hysteria2_enabled
    } else {
        false
    }
}

pub fn enabled_for(c: &ProtocolsConfig, p: &str) -> (b: bool)
    ensures
        b == enabled_spec(*c, p@),
{
    if str_eq(p, "wireguard") {
        c.wireguard_enabled
    } else if str_eq(p, "vless") {
        c.vless_enabled
    } else if str_eq(p, "shadowsocks") {
        c.shadowsocks_enabled
    } else if str_eq(p, "hysteria2") {
        c.hysteria2_enabled
    } else {
        false
    }
}

/// A configuration's health score in thousandths; a missing score counts
/// as 0.5.
pub open spec fn score_milli(c: ServerConfig) -> int {
    match c.health_score_milli {
        Some(h) => h as int,
        None => 500,
    }
}

/// The position of the first of `prefer[k..]` that names region `r`
/// (ignoring ASCII case), or 99 when none does.
pub open spec fn pref_pos_from(prefer: Seq<Seq<char>>, r: Seq<char>, k: int) -> int
    decreases prefer.len() - k,
{
    if k >= prefer.len() || k < 0 {
        99
    } else if eq_ignore_case(prefer[k], r) {
        k
    } else {
        pref_pos_from(prefer, r, k + 1)
    }
}

/// How far down the preferred regions a configuration's region stands: its
/// position in `prefer`, 99 when it is not there, 98 when it has none.
pub open spec fn region_rank(prefer: Seq<Seq<char>>, region: Option<Seq<char>>) -> int {
    match region {
        Some(r) => pref_pos_from(prefer, r, 0),
        None => 98,
    }
}

/// The ranking key of a configuration: its health score in thousandths,
/// less its region rank in civilian mode.
pub open spec fn rank_key(c: ServerConfig, prefer: Seq<Seq<char>>, operator: bool) -> int {
    if operator {
        score_milli(c)
    } else {
        score_milli(c) - region_rank(prefer, opt_str(c.region))
    }
}

/// Region `region` (empty when there is none) is one of `exclude`,
/// ignoring ASCII case.
pub open spec fn excluded(exclude: Seq<Seq<char>>, region: Option<Seq<char>>) -> bool {
    let r = match region {
        Some(r) => r,
        None => Seq::<char>::empty(),
    };
    exists|k: int| 0 <= k < exclude.len() && eq_ignore_case(#[trigger] exclude[k], r)
}

/// Configuration `i` may be tried for protocol `proto`: it is alive, speaks
/// `proto`, and (in civilian mode) its region is not excluded.
pub open spec fn is_candidate(
    configs: Seq<ServerConfig>,
    i: int,
    proto: Seq<char>,
    exclude: Seq<Seq<char>>,
    operator: bool,
) -> bool {
    &&& 0 <= i < configs.len()
    &&& configs[i].is_alive
    &&& configs[i].protocol@ == proto
    &&& (operator || !excluded(exclude, opt_str(configs[i].region)))
}

/// Configuration `i` ranks before `j`: a higher key, or the same key and
/// an earlier position.
pub open spec fn ranks_before(
    configs: Seq<ServerConfig>,
    prefer: Seq<Seq<char>>,
    operator: bool,
    i: int,
    j: int,
) -> bool {
    let ki = rank_key(configs[i], prefer, operator);
    let kj = rank_key(configs[j], prefer, operator);
    ki > kj || (ki == kj && i < j)
}

pub open spec fn ranked_in_order(
    r: Seq<usize>,
    configs: Seq<ServerConfig>,
    prefer: Seq<Seq<char>>,
    operator: bool,
) -> bool {
    forall|a: int, b: int|
        0 <= a < b < r.len() ==> ranks_before(configs, prefer, operator, #[trigger] r[a] as int, #[trigger] r[b] as int)
}

/// `r` lists exactly the candidates for `proto`, best first.
pub open spec fn is_ranking(
    r: Seq<usize>,
    configs: Seq<ServerConfig>,
    proto: Seq<char>,
    prefer: Seq<Seq<char>>,
    exclude: Seq<Seq<char>>,
    operator: bool,
) -> bool {
    &&& forall|k: int| 0 <= k < r.len() ==> is_candidate(configs, #[trigger] r[k] as int, proto, exclude, operator)
    &&& forall|i: int| is_candidate(configs, i, proto, exclude, operator) ==> r.contains(i as usize)
    &&& ranked_in_order(r, configs, prefer, operator)
}

/// The ranking of the candidates for `proto` (there is exactly one).
pub open spec fn ranking(
    configs: Seq<ServerConfig>,
    proto: Seq<char>,
    prefer: Seq<Seq<char>>,
    exclude: Seq<Seq<char>>,
    operator: bool,
) -> Seq<usize> {
    choose|r: Seq<usize>| is_ranking(r, configs, proto, prefer, exclude, operator)
}

proof fn lemma_before_strict(
    configs: Seq<ServerConfig>,
    prefer: Seq<Seq<char>>,
    operator: bool,
    i: int,
    j: int,
)
    ensures
        !(ranks_before(configs, prefer, operator, i, j) && ranks_before(configs, prefer, operator, j, i)),
        !ranks_before(configs, prefer, operator, i, i),
        i != j ==> ranks_before(configs, prefer, operator, i, j) || ranks_before(configs, prefer, operator, j, i),
{
}

proof fn lemma_sorted_unique(
    a: Seq<usize>,
    b: Seq<usize>,
    configs: Seq<ServerConfig>,
    prefer: Seq<Seq<char>>,
    operator: bool,
)
    requires
        ranked_in_order(a, configs, prefer, operator),
        ranked_in_order(b, configs, prefer, operator),
        forall|x: usize| a.contains(x) <==> b.contains(x),
    ensures
        a == b,
    decreases a.len(),
{
    if a.len() == 0 {
        if b.len() > 0 {
            assert(b.contains(b[0]));
        }
        assert(a =~= b);
    } else {
        assert(a.contains(a[0]));
        assert(b.len() > 0);
        assert(b.contains(b[0]));
        let ka = choose|k: int| 0 <= k < a.len() && a[k] == b[0];
        let kb = choose|k: int| 0 <= k < b.len() && b[k] == a[0];
        if a[0] != b[0] {
            assert(ka > 0);
            assert(kb > 0);
            assert(ranks_before(configs, prefer, operator, a[0] as int, a[ka] as int));
            assert(ranks_before(configs, prefer, operator, b[0] as int, b[kb] as int));
            lemma_before_strict(configs, prefer, operator, a[0] as int, b[0] as int);
        }
        let ta = a.drop_first();
        let tb = b.drop_first();
        assert forall|x: usize| ta.contains(x) <==> tb.contains(x) by {
            if ta.contains(x) {
                let k = choose|k: int| 0 <= k < ta.len() && ta[k] == x;
                assert(a[k + 1] == x);
                assert(ranks_before(configs, prefer, operator, a[0] as int, a[k + 1] as int));
                lemma_before_strict(configs, prefer, operator, a[0] as int, a[0] as int);
                assert(a.contains(x));
                let m = choose|m: int| 0 <= m < b.len() && b[m] == x;
                assert(m != 0);
                assert(tb[m - 1] == x);
            }
            if tb.contains(x) {
                let k = choose|k: int| 0 <= k < tb.len() && tb[k] == x;
                assert(b[k + 1] == x);
                assert(ranks_before(configs, prefer, operator, b[0] as int, b[k + 1] as int));
                lemma_before_strict(configs, prefer, operator, b[0] as int, b[0] as int);
                assert(b.contains(x));
                let m = choose|m: int| 0 <= m < a.len() && a[m] == x;
                assert(m != 0);
                assert(ta[m - 1] == x);
            }
        }
        assert(ranked_in_order(ta, configs, prefer, operator)) by {
            assert forall|p: int, q: int| 0 <= p < q < ta.len() implies ranks_before(configs, prefer, operator, #[trigger] ta[p] as int, #[trigger] ta[q] as int) by {
                assert(ta[p] == a[p + 1] && ta[q] == a[q + 1]);
            }
        }
        assert(ranked_in_order(tb, configs, prefer, operator)) by {
            assert forall|p: int, q: int| 0 <= p < q < tb.len() implies ranks_before(configs, prefer, operator, #[trigger] tb[p] as int, #[trigger] tb[q] as int) by {
                assert(tb[p] == b[p + 1] && tb[q] == b[q + 1]);
            }
        }
        lemma_sorted_unique(ta, tb, configs, prefer, operator);
        assert(a =~= seq![a[0]] + ta);
        assert(b =~= seq![b[0]] + tb);
    }
}

/// The ranking of the candidates is determined by the inputs: two rankings
/// of the same candidates are the same list.
pub proof fn law_ranking_unique(
    r1: Seq<usize>,
    r2: Seq<usize>,
    configs: Seq<ServerConfig>,
    proto: Seq<char>,
    prefer: Seq<Seq<char>>,
    exclude: Seq<Seq<char>>,
    operator: bool,
)
    requires
        is_ranking(r1, configs, proto, prefer, exclude, operator),
        is_ranking(r2, configs, proto, prefer, exclude, operator),
    ensures
        r1 == r2,
{
    assert forall|x: usize| r1.contains(x) <==> r2.contains(x) by {
        if r1.contains(x) {
            let k = choose|k: int| 0 <= k < r1.len() && r1[k] == x;
            assert(is_candidate(configs, r1[k] as int, proto, exclude, operator));
        }
        if r2.contains(x) {
            let k = choose|k: int| 0 <= k < r2.len() && r2[k] == x;
            assert(is_candidate(configs, r2[k] as int, proto, exclude, operator));
        }
    }
    lemma_sorted_unique(r1, r2, configs, prefer, operator);
}

/// In operator mode the excluded regions play no part: a ranking for one
/// exclusion list is a ranking for any other.
pub proof fn law_operator_ignores_exclude(
    r: Seq<usize>,
    configs: Seq<ServerConfig>,
    proto: Seq<char>,
    prefer: Seq<Seq<char>>,
    exclude1: Seq<Seq<char>>,
    exclude2: Seq<Seq<char>>,
)
    requires
        is_ranking(r, configs, proto, prefer, exclude1, true),
    ensures
        is_ranking(r, configs, proto, prefer, exclude2, true),
{
    assert forall|i: int| is_candidate(configs, i, proto, exclude2, true) implies r.contains(i as usize) by {
        assert(is_candidate(configs, i, proto, exclude1, true));
    }
}

/// `a` and `b` spell the same text but for the case of ASCII letters:
/// position by position the characters are equal, or one is the ASCII
/// capital of the other (its code point 32 lower).
pub open spec fn same_ignoring_ascii_case(a: Seq<char>, b: Seq<char>) -> bool {
    &&& a.len() == b.len()
    &&& forall|i: int|
        0 <= i < a.len() ==> {
            ||| #[trigger] a[i] == b[i]
            ||| ('A' <= a[i] <= 'Z' && b[i] as int == a[i] as int + 32)
            ||| ('A' <= b[i] <= 'Z' && a[i] as int == b[i] as int + 32)
        }
}

proof fn lemma_ignore_case_matches(a: Seq<char>, b: Seq<char>)
    ensures
        eq_ignore_case(a, b) <==> same_ignoring_ascii_case(a, b),
{
    if same_ignoring_ascii_case(a, b) {
        assert forall|i: int| 0 <= i < a.len() implies crate::text::ascii_lower(#[trigger] a[i])
            == crate::text::ascii_lower(b[i]) by {
            assert(a[i] == b[i] || ('A' <= a[i] <= 'Z' && b[i] as int == a[i] as int + 32) || ('A'
                <= b[i] <= 'Z' && a[i] as int == b[i] as int + 32));
        }
    }
    if eq_ignore_case(a, b) {
        assert forall|i: int| 0 <= i < a.len() implies {
            ||| #[trigger] a[i] == b[i]
            ||| ('A' <= a[i] <= 'Z' && b[i] as int == a[i] as int + 32)
            ||| ('A' <= b[i] <= 'Z' && a[i] as int == b[i] as int + 32)
        } by {
            assert(crate::text::ascii_lower(a[i]) == crate::text::ascii_lower(b[i]));
        }
    }
}

proof fn lemma_pref_pos_skips(prefer: Seq<Seq<char>>, r: Seq<char>, j: int, k: int)
    requires
        0 <= j <= k < prefer.len(),
        eq_ignore_case(prefer[k], r),
        forall|q: int| j <= q < k ==> !eq_ignore_case(#[trigger] prefer[q], r),
    ensures
        pref_pos_from(prefer, r, j) == k,
    decreases k - j,
{
    if j < k {
        lemma_pref_pos_skips(prefer, r, j + 1, k);
    }
}

/// Preferred regions are matched ignoring ASCII case, as excluded ones
/// are: a region that spells `prefer[k]` up to the case of ASCII letters,
/// and spells no earlier preferred region so, has region rank `k`; so in
/// civilian mode its configuration's ranking key is its health less `k`.
pub proof fn law_preferred_region_ignores_case(prefer: Seq<Seq<char>>, region: Seq<char>, k: int, c: ServerConfig)
    requires
        0 <= k < prefer.len(),
        same_ignoring_ascii_case(prefer[k], region),
        forall|j: int| 0 <= j < k ==> !same_ignoring_ascii_case(#[trigger] prefer[j], region),
        opt_str(c.region) == Some(region),
    ensures
        region_rank(prefer, Some(region)) == k,
        rank_key(c, prefer, false) == score_milli(c) - k,
{
    lemma_ignore_case_matches(prefer[k], region);
    assert forall|q: int| 0 <= q < k implies !eq_ignore_case(#[trigger] prefer[q], region) by {
        lemma_ignore_case_matches(prefer[q], region);
    }
    lemma_pref_pos_skips(prefer, region, 0, k);
}

proof fn lemma_pref_pos_none(prefer: Seq<Seq<char>>, r: Seq<char>, j: int)
    requires
        0 <= j,
        forall|q: int| j <= q < prefer.len() ==> !eq_ignore_case(#[trigger] prefer[q], r),
    ensures
        pref_pos_from(prefer, r, j) == 99,
    decreases prefer.len() - j,
{
    if j < prefer.len() {
        lemma_pref_pos_none(prefer, r, j + 1);
    }
}

/// In a civilian ranking, of two candidates with the same health, one whose
/// region is the first preferred region up to ASCII case comes before one
/// whose region is none of the preferred regions.
pub proof fn law_preferred_region_ranks_first(
    r: Seq<usize>,
    configs: Seq<ServerConfig>,
    proto: Seq<char>,
    prefer: Seq<Seq<char>>,
    exclude: Seq<Seq<char>>,
    a: int,
    b: int,
    ra: Seq<char>,
    rb: Seq<char>,
)
    requires
        is_ranking(r, configs, proto, prefer, exclude, false),
        0 <= a < r.len(),
        0 <= b < r.len(),
        prefer.len() > 0,
        score_milli(configs[r[a] as int]) == score_milli(configs[r[b] as int]),
        opt_str(configs[r[a] as int].region) == Some(ra),
        opt_str(configs[r[b] as int].region) == Some(rb),
        same_ignoring_ascii_case(prefer[0], ra),
        forall|q: int| 0 <= q < prefer.len() ==> !same_ignoring_ascii_case(#[trigger] prefer[q], rb),
    ensures
        a < b,
{
    law_preferred_region_ignores_case(prefer, ra, 0, configs[r[a] as int]);
    assert forall|q: int| 0 <= q < prefer.len() implies !eq_ignore_case(#[trigger] prefer[q], rb) by {
        lemma_ignore_case_matches(prefer[q], rb);
    }
    lemma_pref_pos_none(prefer, rb, 0);
    lemma_ignore_case_matches(prefer[0], rb);
    if b <= a {
        if b == a {
            assert(ra == rb);
        } else {
            assert(ranks_before(configs, prefer, false, r[b] as int, r[a] as int));
        }
    }
}

/// In civilian mode no ranked configuration has an excluded region.
pub proof fn law_civilian_respects_exclude(
    r: Seq<usize>,
    configs: Seq<ServerConfig>,
    proto: Seq<char>,
    prefer: Seq<Seq<char>>,
    exclude: Seq<Seq<char>>,
    k: int,
)
    requires
        is_ranking(r, configs, proto, prefer, exclude, false),
        0 <= k < r.len(),
    ensures
        !excluded(exclude, opt_str(configs[r[k] as int].region)),
        configs[r[k] as int].is_alive,
{
    assert(is_candidate(configs, r[k] as int, proto, exclude, false));
}

fn region_rank_of(prefer: &[String], region: &Option<String>) -> (n: i128)
    ensures
        n as int == region_rank(views(prefer@), opt_str(*region)),
        0 <= n <= 0x1_0000_0000_0000_0064,
{
    match region {
        None => 98,
        Some(r) => {
            let mut k: usize = 0;
            let n = prefer.len();
            while k < n
                invariant
                    0 <= k <= prefer@.len(),
                    opt_str(*region) == Some(r@),
                    pref_pos_from(views(prefer@), r@, 0) == pref_pos_from(views(prefer@), r@, k as int),
                    prefer@.len() == n,
                decreases n - k,
            {
                assert(views(prefer@)[k as int] == prefer@[k as int]@);
                if eq_ignore_ascii_case(prefer[k].as_str(), r.as_str()) {
                    return k as i128;
                }
                k += 1;
            }
            99
        },
    }
}

fn rank_key_of(c: &ServerConfig, prefer: &[String], operator: bool) -> (k: i128)
    ensures
        k as int == rank_key(*c, views(prefer@), operator),
{
    let score: i128 = match c.health_score_milli {
        Some(h) => h as i128,
        None => 500,
    };
    if operator {
        score
    } else {
        score - region_rank_of(prefer, &c.region)
    }
}

fn is_excluded(exclude: &[String], region: &Option<String>) -> (b: bool)
    ensures
        b == excluded(views(exclude@), opt_str(*region)),
{
    let empty = String::new();
    let r: &String = match region {
        Some(r) => r,
        None => &empty,
    };
    let ghost rv = match opt_str(*region) {
        Some(x) => x,
        None => Seq::<char>::empty(),
    };
    assert(r@ == rv);
    let mut k: usize = 0;
    while k < exclude.len()
        invariant
            0 <= k <= exclude@.len(),
            r@ == rv,
            rv == (match opt_str(*region) {
                Some(x) => x,
                None => Seq::<char>::empty(),
            }),
            forall|j: int| 0 <= j < k ==> !eq_ignore_case(#[trigger] views(exclude@)[j], rv),
        decreases exclude.len() - k,
    {
        assert(views(exclude@)[k as int] == exclude@[k as int]@);
        if eq_ignore_ascii_case(exclude[k].as_str(), r.as_str()) {
            assert(eq_ignore_case(views(exclude@)[k as int], rv));
            return true;
        }
        k += 1;
    }
    false
}

/// The candidates for `proto` among `configs`, best first: alive, of that
/// protocol, not in an excluded region (unless `operator`), ordered by
/// [`rank_key`] from high to low, and by position among equal keys.
pub fn rank_candidates(
    configs: &[ServerConfig],
    proto: &str,
    prefer: &[String],
    exclude: &[String],
    operator: bool,
) -> (r: Vec<usize>)
    ensures
        is_ranking(r@, configs@, proto@, views(prefer@), views(exclude@), operator),
{
    let ghost pv = views(prefer@);
    let ghost ev = views(exclude@);
    let mut r: Vec<usize> = Vec::new();
    let mut keys: Vec<i128> = Vec::new();
    let mut i: usize = 0;
    while i < configs.len()
        invariant
            0 <= i <= configs@.len(),
            pv == views(prefer@),
            ev == views(exclude@),
            keys@.len() == r@.len(),
            forall|q: int| 0 <= q < r@.len() ==> (#[trigger] r@[q]) < i,
            forall|q: int| 0 <= q < r@.len() ==> #[trigger] keys@[q] as int == rank_key(configs@[r@[q] as int], pv, operator),
            forall|q: int| 0 <= q < r@.len() ==> is_candidate(configs@, #[trigger] r@[q] as int, proto@, ev, operator),
            forall|j: int| 0 <= j < i && is_candidate(configs@, j, proto@, ev, operator) ==> r@.contains(j as usize),
            ranked_in_order(r@, configs@, pv, operator),
        decreases configs.len() - i,
    {
        let c = &configs[i];
        let candidate = c.is_alive && str_eq(c.protocol.as_str(), proto) && (operator
            || !is_excluded(exclude, &c.region));
        if candidate {
            let k = rank_key_of(c, prefer, operator);
            let mut p: usize = 0;
            while p < r.len() && keys[p] >= k
                invariant
                    0 <= p <= r@.len(),
                    keys@.len() == r@.len(),
                    forall|q: int| 0 <= q < p ==> #[trigger] keys@[q] >= k,
                decreases r.len() - p,
            {
                p += 1;
            }
            let ghost old_r = r@;
            let ghost old_keys = keys@;
            r.insert(p, i);
            keys.insert(p, k);
            proof {
                assert(r@ =~= old_r.insert(p as int, i));
                assert(keys@ =~= old_keys.insert(p as int, k));
                assert forall|q: int| 0 <= q < r@.len() implies (#[trigger] r@[q]) < i + 1 by {
                    if q < p {
                        assert(r@[q] == old_r[q]);
                    } else if q > p {
                        assert(r@[q] == old_r[q - 1]);
                    }
                }
                assert forall|q: int| 0 <= q < r@.len() implies #[trigger] keys@[q] as int == rank_key(configs@[r@[q] as int], pv, operator) by {
                    if q < p {
                        assert(r@[q] == old_r[q] && keys@[q] == old_keys[q]);
                    } else if q > p {
                        assert(r@[q] == old_r[q - 1] && keys@[q] == old_keys[q - 1]);
                    }
                }
                assert forall|q: int| 0 <= q < r@.len() implies is_candidate(configs@, #[trigger] r@[q] as int, proto@, ev, operator) by {
                    if q < p {
                        assert(r@[q] == old_r[q]);
                    } else if q > p {
                        assert(r@[q] == old_r[q - 1]);
                    }
                }
                assert forall|j: int| 0 <= j < i + 1 && is_candidate(configs@, j, proto@, ev, operator) implies r@.contains(j as usize) by {
                    if j < i {
                        let m = choose|m: int| 0 <= m < old_r.len() && old_r[m] == j as usize;
                        if m < p {
                            assert(r@[m] == j as usize);
                        } else {
                            assert(r@[m + 1] == j as usize);
                        }
                    } else {
                        assert(r@[p as int] == i);
                    }
                }
                assert forall|a: int, b: int| 0 <= a < b < r@.len() implies ranks_before(configs@, pv, operator, #[trigger] r@[a] as int, #[trigger] r@[b] as int) by {
                    if a < p && b < p {
                        assert(r@[a] == old_r[a] && r@[b] == old_r[b]);
                    } else if a < p && b == p {
                        assert(r@[a] == old_r[a]);
                        assert(old_keys[a] >= k);
                    } else if a < p && b > p {
                        assert(r@[a] == old_r[a] && r@[b] == old_r[b - 1]);
                    } else if a == p {
                        assert(r@[b] == old_r[b - 1]);
                        assert(!(old_keys[p as int] >= k));
                        if b - 1 > p {
                            assert(ranks_before(configs@, pv, operator, old_r[p as int] as int, old_r[b - 1] as int));
                        }
                    } else {
                        assert(r@[a] == old_r[a - 1] && r@[b] == old_r[b - 1]);
                    }
                }
            }
        } else {
            proof {
                if is_candidate(configs@, i as int, proto@, ev, operator) {
                    assert(false);
                }
            }
        }
        i += 1;
    }
    r
}


/// No two sessions share an id.
pub open spec fn ids_distinct(s: Seq<SessionHandle>) -> bool {
    forall|i: int, j: int| 0 <= i < j < s.len() ==> (#[trigger] s[i]).id@ != (#[trigger] s[j]).id@
}

pub open spec fn has_id(s: Seq<SessionHandle>, id: Seq<char>, i: int) -> bool {
    0 <= i < s.len() && s[i].id@ == id
}

/// The position of the session with id `id`, if there is one.
pub open spec fn find_id(s: Seq<SessionHandle>, id: Seq<char>) -> Option<int> {
    if exists|i: int| has_id(s, id, i) {
        Some(choose|i: int| has_id(s, id, i))
    } else {
        None
    }
}

/// The sessions after recording `h`: it replaces the session with its id,
/// or joins the end.
pub open spec fn inserted(s: Seq<SessionHandle>, h: SessionHandle) -> Seq<SessionHandle> {
    match find_id(s, h.id@) {
        Some(i) => s.update(i, h),
        None => s.push(h),
    }
}

/// The sessions after dropping the one with id `id`, if any.
pub open spec fn removed(s: Seq<SessionHandle>, id: Seq<char>) -> Seq<SessionHandle> {
    match find_id(s, id) {
        Some(i) => s.remove(i),
        None => s,
    }
}

/// The session a connection opens.
pub open spec fn handle_of(c: ActiveConnection) -> SessionHandle {
    SessionHandle {
        id: c.session_id,
        protocol: c.protocol,
        host: c.host,
        port: c.port,
        started_at_ms: c.connected_at_ms,
        fingerprint: c.protocol,
    }
}

/// `c` is a fresh connection over protocol `proto` to configuration `cfg`,
/// named by a fresh version-4 UUID.
pub open spec fn connection_to(c: ActiveConnection, proto: Seq<char>, cfg: ServerConfig) -> bool {
    &&& c.protocol@ == proto
    &&& c.host@ == cfg.host@
    &&& c.port == cfg.port
    &&& c.server@ == cfg.host@ + ":"@ + spec_signed_decimal(cfg.port as int)
    &&& c.bytes_sent == 0
    &&& c.bytes_received == 0
    &&& is_v4_uuid_text(c.session_id@)
}

/// The first of the (at most) five best-ranked configurations from
/// position `k` on whose line parses as a URL.
pub open spec fn first_openable(configs: Seq<ServerConfig>, r: Seq<usize>, k: int) -> Option<usize>
    decreases 5 - k,
{
    if k < 0 || k >= 5 || k >= r.len() {
        None
    } else if url_parse(configs[r[k] as int].config_line@) is Some {
        Some(r[k])
    } else {
        first_openable(configs, r, k + 1)
    }
}

/// The protocol (by position in `cfg.preferred`, from `p` on) and the
/// configuration that `try_connect` opens: for each enabled preferred
/// protocol in turn, the first openable of its five best candidates.
pub open spec fn connect_choice(
    cfg: ProtocolsConfig,
    configs: Seq<ServerConfig>,
    prefer: Seq<Seq<char>>,
    exclude: Seq<Seq<char>>,
    operator: bool,
    p: int,
) -> Option<(int, usize)>
    decreases cfg.preferred@.len() - p,
{
    if p < 0 || p >= cfg.preferred@.len() {
        None
    } else {
        let proto = cfg.preferred@[p]@;
        let next = connect_choice(cfg, configs, prefer, exclude, operator, p + 1);
        if enabled_spec(cfg, proto) {
            match first_openable(configs, ranking(configs, proto, prefer, exclude, operator), 0) {
                Some(ci) => Some((p, ci)),
                None => next,
            }
        } else {
            next
        }
    }
}

/// Opens sessions over the configured protocols and remembers them.
pub struct ProtocolManager {
    config: ProtocolsConfig,
    sessions: Vec<SessionHandle>,
}

impl ProtocolManager {
    /// The protocol settings.
    pub closed spec fn spec_config(&self) -> ProtocolsConfig {
        self.config
    }

    /// The open sessions, oldest first.
    pub closed spec fn spec_sessions(&self) -> Seq<SessionHandle> {
        self.sessions@
    }

    /// The manager is well formed: no two sessions share an id.
    pub closed spec fn wf(&self) -> bool {
        ids_distinct(self.sessions@)
    }

    /// A manager over `config` with no session.
    pub fn new(config: ProtocolsConfig) -> (m: ProtocolManager)
        ensures
            m.wf(),
            m.spec_config() == config,
            m.spec_sessions().len() == 0,
    {
        ProtocolManager { config, sessions: Vec::new() }
    }

    fn open_session(&self, proto: &str, cfg: &ServerConfig) -> (r: Result<ActiveConnection, WardenError>)
        ensures
            r is Ok <==> url_parse(cfg.config_line@) is Some,
            r matches Ok(c) ==> connection_to(c, proto@, *cfg),
    {
        match parse_url(cfg.config_line.as_str()) {
            Err(e) => Err(WardenError::Url(e)),
            Ok(_) => {
                let sid = new_uuid_v4();
                let now = now_millis();
                let mut server = append_str(cfg.host.clone(), ":");
                server = append_str(server, signed_decimal(cfg.port as i64).as_str());
                Ok(
                    ActiveConnection {
                        session_id: sid,
                        protocol: string_from(proto),
                        server,
                        host: cfg.host.clone(),
                        port: cfg.port,
                        connected_at_ms: now,
                        bytes_sent: 0,
                        bytes_received: 0,
                    },
                )
            },
        }
    }

    fn record_session(&mut self, h: SessionHandle)
        requires
            old(self).wf(),
        ensures
            final(self).wf(),
            final(self).sessions@ == inserted(old(self).sessions@, h),
            final(self).config == old(self).config,
    {
        let ghost s0 = self.sessions@;
        let ghost cfg0 = self.config;
        let mut i: usize = 0;
        while i < self.sessions.len()
            invariant
                0 <= i <= self.sessions@.len(),
                self.sessions@ == s0,
                self.config == cfg0,
                old(self).sessions@ == s0,
                old(self).config == cfg0,
                ids_distinct(s0),
                forall|j: int| 0 <= j < i ==> (#[trigger] s0[j]).id@ != h.id@,
            decreases self.sessions.len() - i,
        {
            if str_eq(self.sessions[i].id.as_str(), h.id.as_str()) {
                proof {
                    assert(has_id(s0, h.id@, i as int));
                    let w = choose|w: int| has_id(s0, h.id@, w);
                    assert(w == i);
                }
                self.sessions.set(i, h);
                proof {
                    assert forall|a: int, b: int| 0 <= a < b < self.sessions@.len() implies (#[trigger] self.sessions@[a]).id@ != (#[trigger] self.sessions@[b]).id@ by {
                        if a == i {
                            assert(s0[b].id@ != s0[a].id@);
                        } else if b == i {
                            assert(s0[a].id@ != s0[b].id@);
                        }
                    }
                }
                return;
            }
            i += 1;
        }
        assert(find_id(s0, h.id@) is None);
        self.sessions.push(h);
        assert forall|a: int, b: int| 0 <= a < b < self.sessions@.len() implies (#[trigger] self.sessions@[a]).id@ != (#[trigger] self.sessions@[b]).id@ by {
            if b == s0.len() {
                assert(s0[a].id@ != h.id@);
            } else {
                assert(self.sessions@[a] == s0[a] && self.sessions@[b] == s0[b]);
            }
        }
    }

    /// Tries the enabled preferred protocols in order; for each, the five
    /// best-ranked candidates in turn, until a session opens. Excludes the
    /// regions in `exclude` and prefers those in `prefer`; operator mode
    /// bypasses the region filter and ranks by health alone.
    pub fn try_connect(
        &mut self,
        prefer: &[String],
        exclude: &[String],
        operator: bool,
        configs: &[ServerConfig],
    ) -> (r: Result<Option<ActiveConnection>, WardenError>)
        requires
            old(self).wf(),
        ensures
            final(self).wf(),
            final(self).spec_config() == old(self).spec_config(),
            match connect_choice(
                old(self).spec_config(),
                configs@,
                views(prefer@),
                views(exclude@),
                operator,
                0,
            ) {
                None => r matches Ok(None) && final(self).spec_sessions() == old(self).spec_sessions(),
                Some((p, ci)) => r matches Ok(Some(c)) && connection_to(
                    c,
                    old(self).spec_config().preferred@[p]@,
                    configs@[ci as int],
                ) && final(self).spec_sessions() == inserted(old(self).spec_sessions(), handle_of(c)),
            },
    {
        let ghost pv = views(prefer@);
        let ghost ev = views(exclude@);
        let ghost cfg0 = self.config;
        let mut pi: usize = 0;
        while pi < self.config.preferred.len()
            invariant
                0 <= pi <= self.config.preferred@.len(),
                self.config == cfg0,
                old(self).config == cfg0,
                self.sessions@ == old(self).sessions@,
                self.wf(),
                pv == views(prefer@),
                ev == views(exclude@),
                connect_choice(cfg0, configs@, pv, ev, operator, 0) == connect_choice(
                    cfg0,
                    configs@,
                    pv,
                    ev,
                    operator,
                    pi as int,
                ),
            decreases self.config.preferred.len() - pi,
        {
            let proto = self.config.preferred[pi].clone();
            if enabled_for(&self.config, proto.as_str()) {
                let ranked = rank_candidates(configs, proto.as_str(), prefer, exclude, operator);
                proof {
                    let rk = ranking(configs@, proto@, pv, ev, operator);
                    assert(is_ranking(rk, configs@, proto@, pv, ev, operator));
                    law_ranking_unique(rk, ranked@, configs@, proto@, pv, ev, operator);
                }
                let limit = if ranked.len() < 5 {
                    ranked.len()
                } else {
                    5
                };
                let mut k: usize = 0;
                while k < limit
                    invariant
                        0 <= k <= limit,
                        limit == if ranked@.len() < 5 { ranked@.len() } else { 5 },
                        self.config == cfg0,
                        old(self).config == cfg0,
                        self.sessions@ == old(self).sessions@,
                        self.wf(),
                        pv == views(prefer@),
                        ev == views(exclude@),
                        pi < cfg0.preferred@.len(),
                        proto@ == cfg0.preferred@[pi as int]@,
                        enabled_spec(cfg0, proto@),
                        ranked@ == ranking(configs@, proto@, pv, ev, operator),
                        is_ranking(ranked@, configs@, proto@, pv, ev, operator),
                        connect_choice(cfg0, configs@, pv, ev, operator, 0) == connect_choice(
                            cfg0,
                            configs@,
                            pv,
                            ev,
                            operator,
                            pi as int,
                        ),
                        first_openable(configs@, ranked@, 0) == first_openable(configs@, ranked@, k as int),
                    decreases limit - k,
                {
                    let ci = ranked[k];
                    assert(is_candidate(configs@, ranked@[k as int] as int, proto@, ev, operator));
                    match self.open_session(proto.as_str(), &configs[ci]) {
                        Ok(conn) => {
                            let h = SessionHandle {
                                id: conn.session_id.clone(),
                                protocol: conn.protocol.clone(),
                                host: conn.host.clone(),
                                port: conn.port,
                                started_at_ms: conn.connected_at_ms,
                                fingerprint: conn.protocol.clone(),
                            };
                            assert(h == handle_of(conn));
                            self.record_session(h);
                            return Ok(Some(conn));
                        },
                        Err(_) => {},
                    }
                    k += 1;
                }
                assert(first_openable(configs@, ranked@, limit as int) is None);
            }
            pi += 1;
        }
        Ok(None)
    }

    /// Forgets the session `session_id`, if there is one.
    pub fn disconnect(&mut self, session_id: &str) -> (r: Result<(), WardenError>)
        requires
            old(self).wf(),
        ensures
            r is Ok,
            final(self).wf(),
            final(self).spec_config() == old(self).spec_config(),
            final(self).spec_sessions() == removed(old(self).spec_sessions(), session_id@),
    {
        let ghost s0 = self.sessions@;
        let ghost cfg0 = self.config;
        let mut i: usize = 0;
        while i < self.sessions.len()
            invariant
                0 <= i <= self.sessions@.len(),
                self.sessions@ == s0,
                self.config == cfg0,
                old(self).sessions@ == s0,
                old(self).config == cfg0,
                ids_distinct(s0),
                forall|j: int| 0 <= j < i ==> (#[trigger] s0[j]).id@ != session_id@,
            decreases self.sessions.len() - i,
        {
            if str_eq(self.sessions[i].id.as_str(), session_id) {
                proof {
                    assert(has_id(s0, session_id@, i as int));
                    let w = choose|w: int| has_id(s0, session_id@, w);
                    assert(w == i);
                }
                self.sessions.remove(i);
                proof {
                    assert forall|a: int, b: int| 0 <= a < b < self.sessions@.len() implies (#[trigger] self.sessions@[a]).id@ != (#[trigger] self.sessions@[b]).id@ by {
                        let oa = if a < i { a } else { a + 1 };
                        let ob = if b < i { b } else { b + 1 };
                        assert(self.sessions@[a] == s0[oa] && self.sessions@[b] == s0[ob]);
                    }
                }
                return Ok(());
            }
            i += 1;
        }
        assert(find_id(s0, session_id@) is None);
        Ok(())
    }

    /// The ids of the open sessions, oldest first.
    pub fn list(&self) -> (ids: Vec<String>)
        ensures
            ids@.len() == self.spec_sessions().len(),
            forall|k: int| 0 <= k < ids@.len() ==> #[trigger] ids@[k]@ == self.spec_sessions()[k].id@,
    {
        let mut ids: Vec<String> = Vec::new();
        let mut i: usize = 0;
        while i < self.sessions.len()
            invariant
                0 <= i <= self.sessions@.len(),
                ids@.len() == i,
                forall|k: int| 0 <= k < i ==> #[trigger] ids@[k]@ == self.sessions@[k].id@,
            decreases self.sessions.len() - i,
        {
            ids.push(self.sessions[i].id.clone());
            i += 1;
        }
        ids
    }
}

/// Recording a session and then dropping its id gives back the sessions as
/// they were, when no session had that id before.
pub proof fn law_disconnect_undoes_connect(s: Seq<SessionHandle>, h: SessionHandle)
    requires
        ids_distinct(s),
        find_id(s, h.id@) is None,
    ensures
        removed(inserted(s, h), h.id@) == s,
{
    let t = s.push(h);
    assert(has_id(t, h.id@, s.len() as int));
    let w = choose|w: int| has_id(t, h.id@, w);
    if w != s.len() {
        assert(has_id(s, h.id@, w));
    }
    assert(t.remove(s.len() as int) =~= s);
}

/// After dropping an id, no session has it, and ids stay distinct.
pub proof fn law_disconnect_removes(s: Seq<SessionHandle>, id: Seq<char>)
    requires
        ids_distinct(s),
    ensures
        find_id(removed(s, id), id) is None,
        ids_distinct(removed(s, id)),
        removed(s, id).len() == if find_id(s, id) is Some { s.len() - 1 } else { s.len() as int },
{
    match find_id(s, id) {
        Some(i) => {
            let t = s.remove(i);
            assert(has_id(s, id, i));
            assert forall|k: int| !has_id(t, id, k) by {
                if 0 <= k < t.len() {
                    let o = if k < i { k } else { k + 1 };
                    assert(t[k] == s[o]);
                }
            }
            assert forall|a: int, b: int| 0 <= a < b < t.len() implies (#[trigger] t[a]).id@ != (#[trigger] t[b]).id@ by {
                let oa = if a < i { a } else { a + 1 };
                let ob = if b < i { b } else { b + 1 };
                assert(t[a] == s[oa] && t[b] == s[ob]);
            }
        },
        None => {},
    }
}

/// A recorded session is found by its id.
pub proof fn law_connect_records(s: Seq<SessionHandle>, h: SessionHandle)
    requires
        ids_distinct(s),
    ensures
        find_id(inserted(s, h), h.id@) is Some,
        inserted(s, h)[find_id(inserted(s, h), h.id@)->0] == h,
        ids_distinct(inserted(s, h)),
{
    let t = inserted(s, h);
    match find_id(s, h.id@) {
        Some(i) => {
            assert(has_id(s, h.id@, i));
            assert(has_id(t, h.id@, i));
            let w = choose|w: int| has_id(t, h.id@, w);
            if w != i {
                assert(t[w] == s[w]);
                if w < i {
                    assert(s[w].id@ != s[i].id@);
                } else {
                    assert(s[i].id@ != s[w].id@);
                }
            }
            assert forall|a: int, b: int| 0 <= a < b < t.len() implies (#[trigger] t[a]).id@ != (#[trigger] t[b]).id@ by {
                if a == i {
                    assert(s[b].id@ != s[a].id@);
                } else if b == i {
                    assert(s[a].id@ != s[b].id@);
                }
            }
        },
        None => {
            assert(has_id(t, h.id@, s.len() as int));
            let w = choose|w: int| has_id(t, h.id@, w);
            if w != s.len() {
                assert(has_id(s, h.id@, w));
            }
            assert forall|a: int, b: int| 0 <= a < b < t.len() implies (#[trigger] t[a]).id@ != (#[trigger] t[b]).id@ by {
                if b == s.len() {
                    assert(!has_id(s, h.id@, a));
                }
            }
        },
    }
}

} // verus!
