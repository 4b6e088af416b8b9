//! Probe targets and probe results, and how a result becomes a geo-block
//! signal.
use vstd::prelude::*;
use crate::bridge::unicode_lowercase;
use crate::mind::{classify_lower, BlockReason, GeoBlockSignal};
use crate::bridge::{parse_url, url_parse};
use crate::text::{append_str, chars_of, string_from, string_of};

verus! {

/// What the traffic monitor fetches.
#[derive(Debug, Clone)]
pub enum ProbeTarget {
    HttpGet { url: String },
    Head { url: String },
    Custom { host: String, port: u16, path: String },
}

/// The outcome of one probe. `elapsed_ms` is how long it took and `at_ms`
/// the wall-clock time at which it started, both in milliseconds.
#[derive(Debug, Clone)]
pub struct ProbeResult {
    pub target: ProbeTarget,
    pub host: String,
    pub status: u16,
    pub body: String,
    pub elapsed_ms: u64,
    pub at_ms: u64,
}

/// The longest body excerpt a signal keeps, in characters.
pub open spec fn excerpt_len() -> nat {
    200
}

/// The first (at most) 200 characters of `body`.
pub open spec fn excerpt(body: Seq<char>) -> Seq<char> {
    if body.len() <= excerpt_len() {
        body
    } else {
        body.take(excerpt_len() as int)
    }
}

impl ProbeResult {
    /// The signal this result gives: the host, status and start time, the
    /// first 200 characters of the body, and the classified reason.
    pub fn to_signal(&self) -> (s: GeoBlockSignal)
        ensures
            s.host@ == self.host@,
            s.status == self.status,
            s.body_excerpt@ == excerpt(self.body@),
            s.detected_at == self.at_ms,
            s.reason == classify_lower(self.status, unicode_lowercase(self.body@)),
    {
        let chars = chars_of(self.body.as_str());
        let n = if chars.len() <= 200 {
            chars.len()
        } else {
            200
        };
        let body_excerpt = string_of(&chars, 0, n);
        assert(chars@.subrange(0, chars@.len() as int) =~= chars@);
        GeoBlockSignal {
            host: self.host.clone(),
            status: self.status,
            body_excerpt,
            detected_at: self.at_ms,
            reason: BlockReason::classify(self.status, self.body.as_str()),
        }
    }
}

/// What a probe of `target` fetches and the host it reports: the URL
/// itself and its host (`unknown` when it has none) for a GET or HEAD, and
/// `http://HOST:80/` for a custom target.
pub open spec fn probe_plan(t: ProbeTarget) -> (Seq<char>, Seq<char>) {
    match t {
        ProbeTarget::HttpGet { url } => (url@, url_host(url@)),
        ProbeTarget::Head { url } => (url@, url_host(url@)),
        ProbeTarget::Custom { host, .. } => ("http://"@ + host@ + ":80/"@, host@),
    }
}

pub open spec fn url_host(url: Seq<char>) -> Seq<char> {
    match url_parse(url) {
        Some(u) => match u.host {
            Some(h) => h,
            None => "unknown"@,
        },
        None => "unknown"@,
    }
}

/// The address a probe of `target` fetches, and the host it reports.
pub fn probe_request(target: &ProbeTarget) -> (r: (String, String))
    ensures
        r.0@ == probe_plan(*target).0,
        r.1@ == probe_plan(*target).1,
{
    match target {
        ProbeTarget::HttpGet { url } | ProbeTarget::Head { url } => {
            let host = match parse_url(url.as_str()) {
                Ok(u) => match u.host {
                    Some(h) => h,
                    None => string_from("unknown"),
                },
                Err(_) => string_from("unknown"),
            };
            (url.clone(), host)
        },
        ProbeTarget::Custom { host, .. } => {
            let u = append_str(append_str(string_from("http://"), host.as_str()), ":80/");
            (u, host.clone())
        },
    }
}

/// Keeps the last `max` results: when `log` is full the oldest is dropped
/// before `r` joins the end.
pub fn push_bounded(log: &mut Vec<ProbeResult>, r: ProbeResult, max: usize)
    requires
        max > 0,
        old(log)@.len() <= max,
    ensures
        final(log)@ == if old(log)@.len() >= max {
            old(log)@.drop_first().push(r)
        } else {
            old(log)@.push(r)
        },
        final(log)@.len() <= max,
{
    if log.len() >= max {
        log.remove(0);
    }
    log.push(r);
}

} // verus!
