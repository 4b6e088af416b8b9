//! Probing a server through its own protocol: the requests sent and how
//! the replies are read.
use vstd::prelude::*;
use crate::bridge::{utf8_lossy, utf8_lossy_text, uuid_bytes, uuid_parse};
use crate::api::{spec_endpoint, ServerConfig};
use crate::error::WardenError;
use crate::protocol_helpers::{TrojanParams, VlessParams};
use crate::text::{append_str, contains_seq, occurs_at, starts_with_seq, str_contains, str_eq, string_from};
use crate::trojan::{auth_line, auth_prefix};
use crate::vless::{build_header, vless_header};
use vstd::utf8::encode_utf8;

verus! {

/// What a probe concluded.
#[derive(Debug, Clone, Copy, PartialEq, Eq, Structural)]
pub enum ProbeVerdict {
    Alive,
    Dead,
    Uncertain,
}

/// The protocols a configuration can be probed through, each read by its
/// own share-link parser.
#[derive(Debug, Clone, Copy, PartialEq, Eq, Structural)]
pub enum ProbeKind {
    Vless,
    Trojan,
    Shadowsocks,
    Vmess,
    Hysteria2,
}

/// The probe a protocol name calls for: `vless`, `trojan`, `ss` or
/// `shadowsocks`, `vmess`, and `hysteria2` or `hy2`; no other name has one.
pub open spec fn probe_kind_of(protocol: Seq<char>) -> Option<ProbeKind> {
    if protocol == "vless"@ {
        Some(ProbeKind::Vless)
    } else if protocol == "trojan"@ {
        Some(ProbeKind::Trojan)
    } else if protocol == "ss"@ || protocol == "shadowsocks"@ {
        Some(ProbeKind::Shadowsocks)
    } else if protocol == "vmess"@ {
        Some(ProbeKind::Vmess)
    } else if protocol == "hysteria2"@ || protocol == "hy2"@ {
        Some(ProbeKind::Hysteria2)
    } else {
        None
    }
}

/// Which probe (and so which share-link parser) a configuration of
/// `protocol` takes (see [`probe_kind_of`]); `ProtocolNotSupported` with
/// the name for any other protocol.
pub fn probe_kind(protocol: &str) -> (r: Result<ProbeKind, WardenError>)
    ensures
        match probe_kind_of(protocol@) {
            Some(k) => r == Ok::<ProbeKind, WardenError>(k),
            None => r matches Err(WardenError::ProtocolNotSupported(m)) && m@ == protocol@,
        },
{
    if str_eq(protocol, "vless") {
        Ok(ProbeKind::Vless)
    } else if str_eq(protocol, "trojan") {
        Ok(ProbeKind::Trojan)
    } else if str_eq(protocol, "ss") || str_eq(protocol, "shadowsocks") {
        Ok(ProbeKind::Shadowsocks)
    } else if str_eq(protocol, "vmess") {
        Ok(ProbeKind::Vmess)
    } else if str_eq(protocol, "hysteria2") || str_eq(protocol, "hy2") {
        Ok(ProbeKind::Hysteria2)
    } else {
        Err(WardenError::ProtocolNotSupported(string_from(protocol)))
    }
}

/// Running totals of a probing pass. `started_at_ms` is the wall-clock
/// time it began, in milliseconds.
#[derive(Debug, Clone)]
pub struct LiveProbeStats {
    pub total: usize,
    pub tested: usize,
    pub alive: usize,
    pub dead: usize,
    pub current_target: Option<String>,
    pub started_at_ms: u64,
    pub last_latency_ms: Option<u64>,
}

/// What a probe of one configuration found. `checked_at_ms` is when it
/// was made, in milliseconds since the Unix epoch.
#[derive(Debug, Clone)]
pub struct ProbeReport {
    pub config: ServerConfig,
    pub verdict: ProbeVerdict,
    pub latency_ms: Option<u64>,
    pub target: String,
    pub status: Option<u16>,
    pub error: Option<String>,
    pub checked_at_ms: u64,
}

impl ProbeReport {
    /// The report of probing `cfg` against `target`: a measured latency
    /// makes it alive with status 204; an error makes it dead, with the time
    /// spent as its latency and the error's text.
    pub fn from_outcome(
        cfg: &ServerConfig,
        target: &str,
        outcome: Result<u64, String>,
        elapsed_ms: u64,
        checked_at_ms: u64,
    ) -> (r: ProbeReport)
        ensures
            r.config == *cfg,
            r.target@ == target@,
            r.checked_at_ms == checked_at_ms,
            match outcome {
                Ok(latency) => r.verdict == ProbeVerdict::Alive && r.latency_ms == Some(latency) && r.status
                    == Some(204u16) && r.error is None,
                Err(text) => r.verdict == ProbeVerdict::Dead && r.latency_ms == Some(elapsed_ms)
                    && r.status is None && r.error == Some(text),
            },
    {
        match outcome {
            Ok(latency) => ProbeReport {
                config: cfg.duplicate(),
                verdict: ProbeVerdict::Alive,
                latency_ms: Some(latency),
                target: string_from(target),
                status: Some(204),
                error: None,
                checked_at_ms,
            },
            Err(text) => ProbeReport {
                config: cfg.duplicate(),
                verdict: ProbeVerdict::Dead,
                latency_ms: Some(elapsed_ms),
                target: string_from(target),
                status: None,
                error: Some(text),
                checked_at_ms,
            },
        }
    }
}

/// A plain HTTP/1.1 GET of `path` on `host` that closes the connection.
pub open spec fn http_get(host: Seq<char>, path: Seq<char>) -> Seq<char> {
    "GET "@ + path + " HTTP/1.1\r\nHost: "@ + host + "\r\nConnection: close\r\n\r\n"@
}

fn http_get_text(host: &str, path: &str) -> (s: String)
    ensures
        s@ == http_get(host@, path@),
{
    let mut s = string_from("GET ");
    s = append_str(s, path);
    s = append_str(s, " HTTP/1.1\r\nHost: ");
    s = append_str(s, host);
    s = append_str(s, "\r\nConnection: close\r\n\r\n");
    s
}

/// The request a VLESS probe sends: a header for port 80 of the target
/// host, then the GET request.
pub fn vless_probe_request(params: &VlessParams, target_host: &str, target_path: &str) -> (r: Result<Vec<u8>, WardenError>)
    ensures
        match uuid_parse(params.uuid@) {
            None => r matches Err(WardenError::TunnelError(m)) && starts_with_seq(m@, "vless uuid: "@),
            Some(u) => r matches Ok(req) && req@ == vless_header(u, 80, encode_utf8(target_host@))
                + encode_utf8(http_get(target_host@, target_path@)),
        },
{
    let uuid = match uuid_bytes(params.uuid.as_str()) {
        Ok(u) => u,
        Err(e) => {
            let m = append_str(string_from("vless uuid: "), e.as_str());
            proof {
                reveal_strlit("vless uuid: ");
                assert(m@.subrange(0, 12) =~= "vless uuid: "@);
            }
            return Err(WardenError::TunnelError(m));
        },
    };
    let mut req = build_header(&uuid, 80, target_host);
    let http = http_get_text(target_host, target_path);
    let bytes = http.as_str().as_bytes();
    let ghost start = req@;
    let mut i: usize = 0;
    while i < bytes.len()
        invariant
            0 <= i <= bytes@.len(),
            req@ == start + bytes@.take(i as int),
        decreases bytes.len() - i,
    {
        req.push(bytes[i]);
        assert(bytes@.take(i + 1) =~= bytes@.take(i as int).push(bytes@[i as int]));
        i += 1;
    }
    assert(bytes@.take(bytes@.len() as int) =~= bytes@);
    Ok(req)
}

/// The request a Trojan probe sends: the authentication line, then the GET
/// request.
pub fn trojan_probe_request(params: &TrojanParams, target_host: &str, target_path: &str) -> (s: String)
    ensures
        s@ == auth_line(params.password@) + http_get(target_host@, target_path@),
{
    let a = auth_prefix(params.password.as_str());
    let g = http_get_text(target_host, target_path);
    append_str(a, g.as_str())
}

/// A VLESS probe succeeded when the reply (read leniently as UTF-8) holds a
/// 2xx HTTP status line or the text `204`.
pub open spec fn vless_reply_ok_spec(reply: Seq<u8>) -> bool {
    let t = utf8_lossy_text(reply);
    contains_seq(t, "HTTP/1.1 2"@) || contains_seq(t, "HTTP/1.0 2"@) || contains_seq(t, "204"@)
}

/// Any reply whose text holds a 2xx status line of HTTP/1.1 or HTTP/1.0,
/// or the text `204`, anywhere, is an ok VLESS probe reply; and any reply
/// whose text holds an HTTP/1.x status line is an ok Trojan probe reply.
pub proof fn law_probe_replies_with_status_are_ok(reply: Seq<u8>, i: int)
    ensures
        ({
            let t = utf8_lossy_text(reply);
            0 <= i && i + 10 <= t.len() && (t.subrange(i, i + 10) == "HTTP/1.1 2"@ || t.subrange(i, i + 10)
                == "HTTP/1.0 2"@)
        }) ==> vless_reply_ok_spec(reply) && trojan_reply_ok_spec(reply),
        ({
            let t = utf8_lossy_text(reply);
            0 <= i && i + 3 <= t.len() && t.subrange(i, i + 3) == "204"@
        }) ==> vless_reply_ok_spec(reply),
        ({
            let t = utf8_lossy_text(reply);
            0 <= i && i + 7 <= t.len() && t.subrange(i, i + 7) == "HTTP/1."@
        }) ==> trojan_reply_ok_spec(reply),
{
    let t = utf8_lossy_text(reply);
    reveal_strlit("HTTP/1.1 2");
    reveal_strlit("HTTP/1.0 2");
    reveal_strlit("HTTP/1.");
    reveal_strlit("204");
    if 0 <= i && i + 10 <= t.len() && (t.subrange(i, i + 10) == "HTTP/1.1 2"@ || t.subrange(i, i + 10)
        == "HTTP/1.0 2"@) {
        if t.subrange(i, i + 10) == "HTTP/1.1 2"@ {
            assert(occurs_at(t, "HTTP/1.1 2"@, i));
        } else {
            assert(occurs_at(t, "HTTP/1.0 2"@, i));
        }
        assert(t.subrange(i, i + 7) =~= t.subrange(i, i + 10).subrange(0, 7));
        assert(t.subrange(i, i + 7) =~= "HTTP/1."@);
        assert(occurs_at(t, "HTTP/1."@, i));
    }
    if 0 <= i && i + 3 <= t.len() && t.subrange(i, i + 3) == "204"@ {
        assert(occurs_at(t, "204"@, i));
    }
    if 0 <= i && i + 7 <= t.len() && t.subrange(i, i + 7) == "HTTP/1."@ {
        assert(occurs_at(t, "HTTP/1."@, i));
    }
}

pub fn vless_reply_ok(reply: &[u8]) -> (b: bool)
    ensures
        b == vless_reply_ok_spec(reply@),
{
    let t = utf8_lossy(reply);
    str_contains(t.as_str(), "HTTP/1.1 2") || str_contains(t.as_str(), "HTTP/1.0 2")
        || str_contains(t.as_str(), "204")
}

/// A Trojan probe succeeded when the reply holds an HTTP/1.x status line.
pub open spec fn trojan_reply_ok_spec(reply: Seq<u8>) -> bool {
    contains_seq(utf8_lossy_text(reply), "HTTP/1."@)
}

pub fn trojan_reply_ok(reply: &[u8]) -> (b: bool)
    ensures
        b == trojan_reply_ok_spec(reply@),
{
    let t = utf8_lossy(reply);
    str_contains(t.as_str(), "HTTP/1.")
}

/// A search for the first live configuration among the first `total` of a
/// list: the caller probes the configuration that `next` names and reports
/// the verdict to `observe`, until `next` says the search is over.
#[derive(Debug, Clone)]
pub struct AliveSearch {
    pub total: usize,
    pub tested: usize,
    pub alive: usize,
    pub dead: usize,
    pub last_latency_ms: Option<u64>,
    /// The position of the live configuration, once one is found.
    pub found: Option<usize>,
}

impl AliveSearch {
    /// The counts add up: every tested configuration was alive or dead, no
    /// more than `total` were tested, and the search stops at the first live
    /// one.
    pub open spec fn wf(&self) -> bool {
        &&& self.tested <= self.total
        &&& self.alive + self.dead == self.tested
        &&& match self.found {
            Some(i) => self.alive == 1 && i + 1 == self.tested,
            None => self.alive == 0,
        }
    }

    /// A search over `n_configs` configurations that gives up after
    /// `max_attempts` probes.
    pub fn start(n_configs: usize, max_attempts: usize) -> (s: AliveSearch)
        ensures
            s.wf(),
            s.total == if max_attempts < n_configs { max_attempts } else { n_configs },
            s.tested == 0,
            s.last_latency_ms is None,
            s.found is None,
    {
        let total = if max_attempts < n_configs {
            max_attempts
        } else {
            n_configs
        };
        AliveSearch { total, tested: 0, alive: 0, dead: 0, last_latency_ms: None, found: None }
    }

    /// The position of the configuration to probe next, or `None` when the
    /// search is over.
    pub fn next(&self) -> (r: Option<usize>)
        ensures
            r == if self.found is None && self.tested < self.total {
                Some(self.tested)
            } else {
                None::<usize>
            },
    {
        if self.found.is_none() && self.tested < self.total {
            Some(self.tested)
        } else {
            None
        }
    }

    /// Records the verdict (and latency) of probing the configuration that
    /// `next` named: a live one ends the search, anything else counts as
    /// dead.
    pub fn observe(&mut self, verdict: ProbeVerdict, latency_ms: Option<u64>)
        requires
            old(self).wf(),
            old(self).found is None,
            old(self).tested < old(self).total,
        ensures
            final(self).wf(),
            final(self).total == old(self).total,
            final(self).tested == old(self).tested + 1,
            final(self).last_latency_ms == latency_ms,
            final(self).found == if verdict == ProbeVerdict::Alive {
                Some(old(self).tested)
            } else {
                None::<usize>
            },
    {
        let index = self.tested;
        self.tested = self.tested + 1;
        self.last_latency_ms = latency_ms;
        match verdict {
            ProbeVerdict::Alive => {
                self.alive = self.alive + 1;
                self.found = Some(index);
            },
            _ => {
                self.dead = self.dead + 1;
            },
        }
    }

    /// How a finished search ends: the live configuration it found, if
    /// any, and the statistics, whose current target is the `host:port` of
    /// that configuration (none when nothing was found).
    pub fn finish(&self, configs: &Vec<ServerConfig>, started_at_ms: u64) -> (r: (
        Option<ServerConfig>,
        LiveProbeStats,
    ))
        requires
            self.wf(),
            self.total <= configs@.len(),
        ensures
            r.1.total == self.total,
            r.1.tested == self.tested,
            r.1.alive == self.alive,
            r.1.dead == self.dead,
            r.1.started_at_ms == started_at_ms,
            r.1.last_latency_ms == self.last_latency_ms,
            match self.found {
                Some(i) => r.0 == Some(configs@[i as int]) && (r.1.current_target matches Some(t)
                    && t@ == spec_endpoint(configs@[i as int])),
                None => r.0 is None && r.1.current_target is None,
            },
    {
        match self.found {
            Some(i) => {
                let cfg = &configs[i];
                let target = cfg.endpoint();
                (Some(cfg.duplicate()), self.stats(started_at_ms, Some(target)))
            },
            None => (None, self.stats(started_at_ms, None)),
        }
    }

    /// The statistics of the search so far.
    pub fn stats(&self, started_at_ms: u64, current_target: Option<String>) -> (s: LiveProbeStats)
        ensures
            s.total == self.total,
            s.tested == self.tested,
            s.alive == self.alive,
            s.dead == self.dead,
            s.current_target == current_target,
            s.started_at_ms == started_at_ms,
            s.last_latency_ms == self.last_latency_ms,
    {
        LiveProbeStats {
            total: self.total,
            tested: self.tested,
            alive: self.alive,
            dead: self.dead,
            current_target,
            started_at_ms,
            last_latency_ms: self.last_latency_ms,
        }
    }
}

} // verus!
