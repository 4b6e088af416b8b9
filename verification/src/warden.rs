//! The decisions of the client as a whole: how many parallel tunnels are
//! opened from a set of configurations, and how a rotation splits the
//! active connections.
use vstd::prelude::*;
use crate::api::ServerConfig;
use crate::error::WardenError;
use crate::opsec::OpsecManager;
use crate::protocol::{
    connect_choice, connection_to, handle_of, inserted, removed, ActiveConnection, ProtocolManager,
    SessionHandle,
};
use crate::text::{str_eq, views};

verus! {

/// How a rotation splits `total` active connections: keep the first
/// `keep`, rotate the other `rotate`.
pub open spec fn spec_partial_split(total: int) -> (int, int) {
    if total == 0 {
        (0, 0)
    } else {
        let keep = total / 2;
        let rotate = total - keep;
        (keep, if rotate < 1 { 1 } else { rotate })
    }
}

/// The partial-rotation split: keep the first `total / 2` (rounded down)
/// connections and rotate the rest. At least one connection is always
/// rotated when `total > 0`.
pub fn partial_split(total: usize) -> (r: (usize, usize))
    ensures
        r.0 as int == spec_partial_split(total as int).0,
        r.1 as int == spec_partial_split(total as int).1,
{
    if total == 0 {
        return (0, 0);
    }
    let keep = total / 2;
    let rotate = total - keep;
    (keep, if rotate < 1 { 1 } else { rotate })
}

/// The split covers every connection, rotates at least one, and never
/// keeps more than it rotates.
pub proof fn law_partial_split(total: int)
    requires
        total > 0,
    ensures
        spec_partial_split(total).0 + spec_partial_split(total).1 == total,
        spec_partial_split(total).1 >= 1,
        spec_partial_split(total).0 <= spec_partial_split(total).1,
        spec_partial_split(total).0 == total / 2,
{
}

/// `cs` without the configurations at endpoint `host:port`.
pub open spec fn without_endpoint(cs: Seq<ServerConfig>, host: Seq<char>, port: i32) -> Seq<ServerConfig> {
    cs.filter(|c: ServerConfig| !(c.host@ == host && c.port == port))
}

/// `cs` without the endpoints of the connections `keep`.
pub open spec fn without_connections(cs: Seq<ServerConfig>, keep: Seq<ActiveConnection>) -> Seq<ServerConfig>
    decreases keep.len(),
{
    if keep.len() == 0 {
        cs
    } else {
        without_endpoint(without_connections(cs, keep.drop_last()), keep.last().host@, keep.last().port)
    }
}

/// The configurations left of `cs` once the endpoint `host:port` is used.
pub fn drop_endpoint(cs: &Vec<ServerConfig>, host: &str, port: i32) -> (r: Vec<ServerConfig>)
    ensures
        r@ == without_endpoint(cs@, host@, port),
{
    let ghost pred = |c: ServerConfig| !(c.host@ == host@ && c.port == port);
    let mut out: Vec<ServerConfig> = Vec::new();
    let mut i: usize = 0;
    while i < cs.len()
        invariant
            0 <= i <= cs@.len(),
            pred == (|c: ServerConfig| !(c.host@ == host@ && c.port == port)),
            out@ == cs@.take(i as int).filter(pred),
        decreases cs.len() - i,
    {
        proof {
            assert(cs@.take(i + 1) =~= cs@.take(i as int).push(cs@[i as int]));
            cs@.take(i as int).lemma_filter_push(cs@[i as int], pred);
        }
        let c = &cs[i];
        if !(str_eq(c.host.as_str(), host) && c.port == port) {
            out.push(c.duplicate());
        }
        i += 1;
    }
    assert(cs@.take(cs@.len() as int) =~= cs@);
    out
}

/// The configurations of `cs` whose endpoints none of `keep` uses.
pub fn drop_connections(cs: &Vec<ServerConfig>, keep: &[ActiveConnection]) -> (r: Vec<ServerConfig>)
    ensures
        r@ == without_connections(cs@, keep@),
{
    let mut cur = copy_configs(cs);
    let mut i: usize = 0;
    while i < keep.len()
        invariant
            0 <= i <= keep@.len(),
            cur@ == without_connections(cs@, keep@.take(i as int)),
        decreases keep.len() - i,
    {
        assert(keep@.take(i + 1).drop_last() =~= keep@.take(i as int));
        cur = drop_endpoint(&cur, keep[i].host.as_str(), keep[i].port);
        i += 1;
    }
    assert(keep@.take(keep@.len() as int) =~= keep@);
    cur
}

/// The (protocol position, configuration) pairs that opening up to `n`
/// tunnels picks: each pick comes from `remaining` (from `refill` once
/// `remaining` runs dry), and its endpoint is then taken out of
/// `remaining`; the picking stops at the first failure.
pub open spec fn establish_plan(
    mgr: crate::config::ProtocolsConfig,
    refill: Seq<ServerConfig>,
    remaining: Seq<ServerConfig>,
    prefer: Seq<Seq<char>>,
    exclude: Seq<Seq<char>>,
    operator: bool,
    n: nat,
) -> Seq<(int, ServerConfig)>
    decreases n,
{
    if n == 0 {
        seq![]
    } else {
        let rem = if remaining.len() == 0 {
            refill
        } else {
            remaining
        };
        match connect_choice(mgr, rem, prefer, exclude, operator, 0) {
            None => seq![],
            Some((p, ci)) => seq![(p, rem[ci as int])] + establish_plan(
                mgr,
                refill,
                without_endpoint(rem, rem[ci as int].host@, rem[ci as int].port),
                prefer,
                exclude,
                operator,
                (n - 1) as nat,
            ),
        }
    }
}

/// The sessions after recording each of `conns` in turn.
pub open spec fn inserted_all(s: Seq<SessionHandle>, conns: Seq<ActiveConnection>) -> Seq<SessionHandle>
    decreases conns.len(),
{
    if conns.len() == 0 {
        s
    } else {
        inserted(inserted_all(s, conns.drop_last()), handle_of(conns.last()))
    }
}

fn copy_configs(cs: &Vec<ServerConfig>) -> (r: Vec<ServerConfig>)
    ensures
        r@ == cs@,
{
    let mut out: Vec<ServerConfig> = Vec::new();
    let mut k: usize = 0;
    while k < cs.len()
        invariant
            0 <= k <= cs@.len(),
            out@ == cs@.take(k as int),
        decreases cs.len() - k,
    {
        let ghost before = out@;
        out.push(cs[k].duplicate());
        assert(cs@.take(k + 1) =~= before.push(cs@[k as int]));
        k += 1;
    }
    assert(cs@.take(cs@.len() as int) =~= cs@);
    out
}

/// Opens up to `target` tunnels, one after another, from `refill`: each
/// is chosen by `try_connect` among the configurations not yet used (all
/// of `refill` again once none is left), and the endpoint of each opened
/// tunnel is not used again. Stops at the first choice that fails.
pub fn establish(
    mgr: &mut ProtocolManager,
    refill: &Vec<ServerConfig>,
    prefer: &[String],
    exclude: &[String],
    operator: bool,
    target: usize,
) -> (conns: Vec<ActiveConnection>)
    requires
        old(mgr).wf(),
    ensures
        final(mgr).wf(),
        final(mgr).spec_config() == old(mgr).spec_config(),
        conns@.len() == establish_plan(
            old(mgr).spec_config(),
            refill@,
            refill@,
            views(prefer@),
            views(exclude@),
            operator,
            target as nat,
        ).len(),
        forall|k: int|
            0 <= k < conns@.len() ==> {
                let pick = establish_plan(
                    old(mgr).spec_config(),
                    refill@,
                    refill@,
                    views(prefer@),
                    views(exclude@),
                    operator,
                    target as nat,
                )[k];
                connection_to(
                    #[trigger] conns@[k],
                    old(mgr).spec_config().preferred@[pick.0]@,
                    pick.1,
                )
            },
        final(mgr).spec_sessions() == inserted_all(old(mgr).spec_sessions(), conns@),
{
    let ghost cfg = mgr.spec_config();
    let ghost pv = views(prefer@);
    let ghost ev = views(exclude@);
    let ghost total = establish_plan(cfg, refill@, refill@, pv, ev, operator, target as nat);
    let ghost s0 = mgr.spec_sessions();
    let mut remaining = copy_configs(refill);
    let mut conns: Vec<ActiveConnection> = Vec::new();
    let ghost mut done: Seq<(int, ServerConfig)> = seq![];
    let mut i: usize = 0;
    assert(done + total =~= total);
    while i < target
        invariant
            0 <= i <= target,
            mgr.wf(),
            mgr.spec_config() == cfg,
            cfg == old(mgr).spec_config(),
            s0 == old(mgr).spec_sessions(),
            pv == views(prefer@),
            ev == views(exclude@),
            total == establish_plan(cfg, refill@, refill@, pv, ev, operator, target as nat),
            done.len() == conns@.len(),
            done + establish_plan(cfg, refill@, remaining@, pv, ev, operator, (target - i) as nat)
                == total,
            forall|k: int|
                0 <= k < conns@.len() ==> connection_to(
                    #[trigger] conns@[k],
                    cfg.preferred@[done[k].0]@,
                    done[k].1,
                ),
            mgr.spec_sessions() == inserted_all(s0, conns@),
        ensures
            done == total,
        decreases target - i,
    {
        if remaining.len() == 0 {
            remaining = copy_configs(refill);
        }
        let ghost rem = remaining@;
        let r = mgr.try_connect(prefer, exclude, operator, &remaining);
        match r {
            Ok(Some(conn)) => {
                let ghost choice = connect_choice(cfg, rem, pv, ev, operator, 0);
                let ghost p = choice->Some_0.0;
                let ghost ci = choice->Some_0.1;
                let ghost before = conns@;
                let next = drop_endpoint(&remaining, conn.host.as_str(), conn.port);
                proof {
                    let rest = establish_plan(cfg, refill@, without_endpoint(rem, rem[ci as int].host@, rem[ci as int].port), pv, ev, operator, (target - i - 1) as nat);
                    assert(establish_plan(cfg, refill@, remaining@, pv, ev, operator, (target - i) as nat) == seq![(p, rem[ci as int])] + rest);
                    assert(done.push((p, rem[ci as int])) + rest =~= done + (seq![(p, rem[ci as int])] + rest));
                    done = done.push((p, rem[ci as int]));
                }
                conns.push(conn);
                proof {
                    assert(conns@.drop_last() =~= before);
                    assert forall|k: int| 0 <= k < conns@.len() implies connection_to(#[trigger] conns@[k], cfg.preferred@[done[k].0]@, done[k].1) by {
                        if k < before.len() {
                            assert(conns@[k] == before[k]);
                        }
                    }
                }
                remaining = next;
            },
            _ => {
                proof {
                    assert(establish_plan(cfg, refill@, remaining@, pv, ev, operator, (target - i) as nat) =~= Seq::<(int, ServerConfig)>::empty());
                    assert(done =~= total);
                }
                break;
            },
        }
        i += 1;
    }
    conns
}

/// The outcome of the self-test's four stages.
#[derive(Debug, Clone)]
pub struct SelfTestReport {
    pub ternary_ok: bool,
    pub decision_ranking: Vec<String>,
    pub opsec_persist: bool,
    pub tunnel_proof: Option<(u64, u64, u64, u64)>,
    pub service_ok: bool,
}

impl SelfTestReport {
    /// The report of the four stages: the service is fine when reasoning
    /// worked, the ranking is not empty, persistence held and the tunnel
    /// proof went through.
    pub fn from_stages(
        ternary_ok: bool,
        decision_ranking: Vec<String>,
        opsec_persist: bool,
        tunnel_proof: Option<(u64, u64, u64, u64)>,
    ) -> (r: SelfTestReport)
        ensures
            r.ternary_ok == ternary_ok,
            r.decision_ranking == decision_ranking,
            r.opsec_persist == opsec_persist,
            r.tunnel_proof == tunnel_proof,
            r.service_ok == (ternary_ok && decision_ranking@.len() > 0 && opsec_persist
                && tunnel_proof is Some),
    {
        let service_ok = ternary_ok && decision_ranking.len() > 0 && opsec_persist
            && tunnel_proof.is_some();
        SelfTestReport { ternary_ok, decision_ranking, opsec_persist, tunnel_proof, service_ok }
    }
}

/// The active connections split for a rotation: the first half (rounded
/// down) is kept and the rest is rotated.
pub fn split_for_rotation(current: Vec<ActiveConnection>) -> (r: (Vec<ActiveConnection>, Vec<ActiveConnection>))
    ensures
        r.0@ == current@.take(spec_partial_split(current@.len() as int).0),
        r.1@ == current@.skip(spec_partial_split(current@.len() as int).0),
        r.0@ + r.1@ == current@,
{
    let (keep, _) = partial_split(current.len());
    let ghost whole = current@;
    let mut current = current;
    let rotated = current.split_off(keep);
    assert(current@ + rotated@ =~= whole);
    (current, rotated)
}

/// The configurations of `cs` that are marked alive, in order.
pub open spec fn alive_only(cs: Seq<ServerConfig>) -> Seq<ServerConfig> {
    cs.filter(|c: ServerConfig| c.is_alive)
}

/// The configurations of `cs` that are marked alive, in order.
pub fn alive_configs(cs: &Vec<ServerConfig>) -> (r: Vec<ServerConfig>)
    ensures
        r@ == alive_only(cs@),
{
    let ghost pred = |c: ServerConfig| c.is_alive;
    let mut out: Vec<ServerConfig> = Vec::new();
    let mut i: usize = 0;
    while i < cs.len()
        invariant
            0 <= i <= cs@.len(),
            pred == (|c: ServerConfig| c.is_alive),
            out@ == cs@.take(i as int).filter(pred),
        decreases cs.len() - i,
    {
        proof {
            assert(cs@.take(i + 1) =~= cs@.take(i as int).push(cs@[i as int]));
            cs@.take(i as int).lemma_filter_push(cs@[i as int], pred);
        }
        if cs[i].is_alive {
            out.push(cs[i].duplicate());
        }
        i += 1;
    }
    assert(cs@.take(cs@.len() as int) =~= cs@);
    out
}

/// The candidates of a connect: the alive configurations, or
/// `NoConfigsAvailable` when none is alive.
pub fn connect_candidates(configs: &Vec<ServerConfig>) -> (r: Result<Vec<ServerConfig>, WardenError>)
    ensures
        r is Err <==> alive_only(configs@).len() == 0,
        r matches Err(e) ==> e is NoConfigsAvailable,
        r matches Ok(v) ==> v@ == alive_only(configs@),
{
    let alive = alive_configs(configs);
    if alive.len() == 0 {
        Err(WardenError::NoConfigsAvailable)
    } else {
        Ok(alive)
    }
}

/// How many tunnels a connect opens side by side.
pub const PARALLEL_TUNNELS: usize = 4;

/// How many rounds of opening tunnels a connect makes before it gives up.
pub const CONNECT_ROUNDS: u32 = 3;

/// The wait before the second round, in milliseconds; it doubles for each
/// later round.
pub const CONNECT_BACKOFF_BASE_MS: u64 = 250;

/// The longest wait between two rounds, in milliseconds.
pub const CONNECT_BACKOFF_MAX_MS: u64 = 2000;

/// What a connect does after a round of opening tunnels.
#[derive(Debug)]
pub enum ConnectStep {
    /// Some tunnel opened: the connect succeeds with the first one.
    Connected(ActiveConnection),
    /// None opened: wait this many milliseconds and try another round.
    RetryAfterMs(u64),
    /// None opened in the last round: the connect fails with this error.
    GiveUp(WardenError),
}

/// The decision after round `attempt` (counted from 1) of a connect opened
/// the tunnels `conns`: the first tunnel is the result when there is any;
/// otherwise another round after the back-off wait, until the last round,
/// after which the connect fails with `AllConnectionsFailed`.
pub fn after_connect_round(attempt: u32, conns: &Vec<ActiveConnection>) -> (s: ConnectStep)
    requires
        1 <= attempt <= CONNECT_ROUNDS,
    ensures
        conns@.len() > 0 ==> s == ConnectStep::Connected(conns@[0]),
        conns@.len() == 0 && attempt < CONNECT_ROUNDS ==> (s matches ConnectStep::RetryAfterMs(ms)
            && ms == spec_backoff(CONNECT_BACKOFF_BASE_MS as nat, attempt as nat, CONNECT_BACKOFF_MAX_MS as nat)),
        conns@.len() == 0 && attempt == CONNECT_ROUNDS ==> (s matches ConnectStep::GiveUp(e)
            && e is AllConnectionsFailed),
{
    if conns.len() > 0 {
        ConnectStep::Connected(conns[0].duplicate())
    } else if attempt < CONNECT_ROUNDS {
        ConnectStep::RetryAfterMs(backoff_delay_ms(CONNECT_BACKOFF_BASE_MS, attempt, CONNECT_BACKOFF_MAX_MS))
    } else {
        ConnectStep::GiveUp(WardenError::AllConnectionsFailed)
    }
}

/// How long a connected client waits after a failed reconnect before its
/// next supervision tick, in milliseconds.
pub const RECONNECT_WAIT_MS: u64 = 5000;

/// Whether a supervision tick rotates: when some connection is active and
/// rotation is on.
pub fn rotation_due(active: usize, rotation_enabled: bool) -> (b: bool)
    ensures
        b == (active > 0 && rotation_enabled),
{
    active > 0 && rotation_enabled
}

/// How many times a connect is tried before its last error is returned.
pub const CONNECT_ATTEMPTS: u32 = 3;

/// What follows attempt `attempt` of a connect with retries.
#[derive(Debug)]
pub enum RetryStep {
    /// The connect is over, with this outcome.
    Done(Result<ActiveConnection, WardenError>),
    /// Wait this many milliseconds and try again.
    RetryAfterMs(u64),
}

/// The decision after attempt `attempt` (counted from 1) of a connect
/// ended with `outcome`: a connection ends it; a failure is retried after
/// the back-off wait until the last attempt, whose error is returned.
pub fn after_connect_attempt(attempt: u32, outcome: Result<ActiveConnection, WardenError>) -> (s: RetryStep)
    requires
        1 <= attempt <= CONNECT_ATTEMPTS,
    ensures
        outcome is Ok ==> s == RetryStep::Done(outcome),
        outcome is Err && attempt < CONNECT_ATTEMPTS ==> (s matches RetryStep::RetryAfterMs(ms) && ms
            == spec_backoff(CONNECT_BACKOFF_BASE_MS as nat, attempt as nat, CONNECT_BACKOFF_MAX_MS as nat)),
        outcome is Err && attempt == CONNECT_ATTEMPTS ==> s == RetryStep::Done(outcome),
{
    match outcome {
        Ok(c) => RetryStep::Done(Ok(c)),
        Err(e) => {
            if attempt < CONNECT_ATTEMPTS {
                RetryStep::RetryAfterMs(backoff_delay_ms(CONNECT_BACKOFF_BASE_MS, attempt, CONNECT_BACKOFF_MAX_MS))
            } else {
                RetryStep::Done(Err(e))
            }
        },
    }
}

/// The sessions after dropping the session of each of `conns` in turn.
pub open spec fn removed_all(s: Seq<SessionHandle>, conns: Seq<ActiveConnection>) -> Seq<SessionHandle>
    decreases conns.len(),
{
    if conns.len() == 0 {
        s
    } else {
        removed(removed_all(s, conns.drop_last()), conns.last().session_id@)
    }
}

/// Closes the session of each of `conns`, in order, and says whether the
/// kill switch engages: it does when something was active and the kill
/// switch is on. Closing a session never fails.
pub fn disconnect_all(mgr: &mut ProtocolManager, opsec: &OpsecManager, conns: &Vec<ActiveConnection>) -> (engaged: bool)
    requires
        old(mgr).wf(),
    ensures
        final(mgr).wf(),
        final(mgr).spec_config() == old(mgr).spec_config(),
        final(mgr).spec_sessions() == removed_all(old(mgr).spec_sessions(), conns@),
        engaged == (conns@.len() > 0 && opsec.spec_config().kill_switch),
{
    let ghost s0 = mgr.spec_sessions();
    let mut i: usize = 0;
    while i < conns.len()
        invariant
            0 <= i <= conns@.len(),
            mgr.wf(),
            mgr.spec_config() == old(mgr).spec_config(),
            s0 == old(mgr).spec_sessions(),
            mgr.spec_sessions() == removed_all(s0, conns@.take(i as int)),
        decreases conns.len() - i,
    {
        assert(conns@.take(i + 1).drop_last() =~= conns@.take(i as int));
        let _ = mgr.disconnect(conns[i].session_id.as_str());
        i += 1;
    }
    assert(conns@.take(conns@.len() as int) =~= conns@);
    conns.len() > 0 && opsec.on_kill_switch()
}

/// How a rotation begins.
#[derive(Debug)]
pub enum RotationStart {
    /// Rotation is off: the active connections stay as they are.
    Unchanged(Vec<ActiveConnection>),
    /// Nothing is active: a fresh connect takes the rotation's place.
    ConnectAfresh,
    /// The kept connections, and how many were closed to be replaced.
    Rotating(Vec<ActiveConnection>, usize),
}

/// Begins a rotation of the active connections `current`: with rotation
/// off nothing changes; with nothing active a fresh connect is called for;
/// otherwise the first half is kept and the sessions of the rest are
/// closed.
pub fn begin_rotation(mgr: &mut ProtocolManager, enabled: bool, current: Vec<ActiveConnection>) -> (r: RotationStart)
    requires
        old(mgr).wf(),
    ensures
        final(mgr).wf(),
        final(mgr).spec_config() == old(mgr).spec_config(),
        !enabled ==> (r matches RotationStart::Unchanged(v) && v@ == current@),
        enabled && current@.len() == 0 ==> r is ConnectAfresh,
        !enabled || current@.len() == 0 ==> final(mgr).spec_sessions() == old(mgr).spec_sessions(),
        enabled && current@.len() > 0 ==> (r matches RotationStart::Rotating(keep, n)
            && keep@ == current@.take(spec_partial_split(current@.len() as int).0)
            && n == spec_partial_split(current@.len() as int).1),
        enabled && current@.len() > 0 ==> final(mgr).spec_sessions() == removed_all(
            old(mgr).spec_sessions(),
            current@.skip(spec_partial_split(current@.len() as int).0),
        ),
{
    if !enabled {
        return RotationStart::Unchanged(current);
    }
    if current.len() == 0 {
        return RotationStart::ConnectAfresh;
    }
    let ghost whole = current@;
    let (keep, out) = split_for_rotation(current);
    let ghost s0 = mgr.spec_sessions();
    let mut i: usize = 0;
    while i < out.len()
        invariant
            0 <= i <= out@.len(),
            mgr.wf(),
            mgr.spec_config() == old(mgr).spec_config(),
            s0 == old(mgr).spec_sessions(),
            mgr.spec_sessions() == removed_all(s0, out@.take(i as int)),
        decreases out.len() - i,
    {
        assert(out@.take(i + 1).drop_last() =~= out@.take(i as int));
        let _ = mgr.disconnect(out[i].session_id.as_str());
        i += 1;
    }
    assert(out@.take(out@.len() as int) =~= out@);
    proof {
        assert(keep@.len() + out@.len() == whole.len());
    }
    RotationStart::Rotating(keep, out.len())
}

/// `conns` are the tunnels that opening up to `target` of them from
/// `refill` gives (see [`establish_plan`]), in that order.
pub open spec fn opened_as_planned(
    cfg: crate::config::ProtocolsConfig,
    refill: Seq<ServerConfig>,
    prefer: Seq<Seq<char>>,
    exclude: Seq<Seq<char>>,
    operator: bool,
    target: nat,
    conns: Seq<ActiveConnection>,
) -> bool {
    let plan = establish_plan(cfg, refill, refill, prefer, exclude, operator, target);
    &&& conns.len() == plan.len()
    &&& forall|k: int|
        0 <= k < conns.len() ==> connection_to(#[trigger] conns[k], cfg.preferred@[plan[k].0]@, plan[k].1)
}

/// Finishes a rotation from fresh configurations: with none alive, the
/// kept connections are all there is; otherwise up to `rotated` tunnels are
/// opened (see [`establish`]) from the alive configurations whose endpoints
/// no kept connection uses, and joined after the kept ones.
pub fn finish_rotation(
    mgr: &mut ProtocolManager,
    keep: Vec<ActiveConnection>,
    rotated: usize,
    configs: &Vec<ServerConfig>,
    prefer: &[String],
    exclude: &[String],
    operator: bool,
) -> (r: Vec<ActiveConnection>)
    requires
        old(mgr).wf(),
    ensures
        final(mgr).wf(),
        final(mgr).spec_config() == old(mgr).spec_config(),
        alive_only(configs@).len() == 0 ==> r@ == keep@ && final(mgr).spec_sessions()
            == old(mgr).spec_sessions(),
        alive_only(configs@).len() > 0 ==> {
            &&& r@.len() >= keep@.len()
            &&& r@.take(keep@.len() as int) == keep@
            &&& opened_as_planned(
                old(mgr).spec_config(),
                without_connections(alive_only(configs@), keep@),
                views(prefer@),
                views(exclude@),
                operator,
                rotated as nat,
                r@.skip(keep@.len() as int),
            )
            &&& final(mgr).spec_sessions() == inserted_all(
                old(mgr).spec_sessions(),
                r@.skip(keep@.len() as int),
            )
        },
{
    let alive = alive_configs(configs);
    if alive.len() == 0 {
        return keep;
    }
    let refill = drop_connections(&alive, keep.as_slice());
    let mut fresh = establish(mgr, &refill, prefer, exclude, operator, rotated);
    let ghost kept = keep@;
    let ghost opened = fresh@;
    let mut result = keep;
    result.append(&mut fresh);
    assert(result@.take(kept.len() as int) =~= kept);
    assert(result@.skip(kept.len() as int) =~= opened);
    result
}

/// `2^e`.
pub open spec fn pow2(e: nat) -> nat
    decreases e,
{
    if e == 0 {
        1
    } else {
        2 * pow2((e - 1) as nat)
    }
}

/// The wait before retry `attempt` (counted from 1): `base_ms` doubled for
/// each earlier attempt, at most `max_ms`.
pub open spec fn spec_backoff(base_ms: nat, attempt: nat, max_ms: nat) -> nat {
    let d = base_ms * pow2((attempt - 1) as nat);
    if d < max_ms {
        d
    } else {
        max_ms
    }
}

/// The wait, in milliseconds, before retry `attempt` (see [`spec_backoff`]).
pub fn backoff_delay_ms(base_ms: u64, attempt: u32, max_ms: u64) -> (d: u64)
    requires
        attempt >= 1,
    ensures
        d == spec_backoff(base_ms as nat, attempt as nat, max_ms as nat),
{
    let mut d: u128 = base_ms as u128;
    let mut k: u32 = 1;
    assert(pow2(0) == 1);
    assert(base_ms * pow2(0) == base_ms);
    assert(((k - 1) as nat) == 0);
    while k < attempt && d < max_ms as u128
        invariant
            1 <= k <= attempt,
            d == base_ms * pow2((k - 1) as nat),
            d <= u64::MAX,
        decreases attempt - k,
    {
        assert(pow2(k as nat) == 2 * pow2((k - 1) as nat));
        assert(base_ms * pow2(k as nat) == 2 * (base_ms * pow2((k - 1) as nat))) by (nonlinear_arith)
            requires
                pow2(k as nat) == 2 * pow2((k - 1) as nat),
        ;
        d = d * 2;
        k = k + 1;
        if d > u64::MAX as u128 {
            proof {
                lemma_backoff_grows(base_ms as nat, (k - 1) as nat, (attempt - 1) as nat);
            }
            return max_ms;
        }
    }
    if d < max_ms as u128 {
        d as u64
    } else {
        proof {
            lemma_backoff_grows(base_ms as nat, (k - 1) as nat, (attempt - 1) as nat);
        }
        max_ms
    }
}

proof fn lemma_backoff_grows(base: nat, a: nat, b: nat)
    requires
        a <= b,
    ensures
        base * pow2(a) <= base * pow2(b),
    decreases b - a,
{
    if a < b {
        lemma_backoff_grows(base, a, (b - 1) as nat);
        assert(pow2(b) == 2 * pow2((b - 1) as nat));
        assert(base * pow2((b - 1) as nat) <= base * pow2(b)) by (nonlinear_arith)
            requires
                pow2(b) == 2 * pow2((b - 1) as nat),
        ;
    }
}

/// Later retries never wait less, and no wait exceeds the cap.
pub proof fn law_backoff_monotone(base: nat, a: nat, b: nat, max: nat)
    requires
        1 <= a <= b,
    ensures
        spec_backoff(base, a, max) <= spec_backoff(base, b, max),
        spec_backoff(base, b, max) <= max,
{
    lemma_backoff_grows(base, (a - 1) as nat, (b - 1) as nat);
}

} // verus!
