//! Open feeds of server configurations: where they are, how their text is
//! decoded and parsed, and how the gathered configurations are filtered and
//! deduplicated.
use vstd::prelude::*;
use crate::api::{
    default_port, hash_id, is_two_bytes, spec_default_port, spec_hash_id, utf8_len, ServerConfig,
};
use crate::bridge::{
    b64_std_decode, base64_decode, parse_url, to_lowercase, to_uppercase, unicode_lowercase,
    unicode_uppercase, url_parse, utf8_string,
};
use crate::error::WardenError;
use crate::text::{
    append_str, chars_of, find_char, first_index, lines, matches_at, parse_i32, spec_lines,
    spec_parse_i32, spec_split, spec_trim, split_chars, starts_with_seq, str_eq,
    str_starts_with, string_from, string_of, trim, views,
};
use crate::urls::{opt_str, UrlModel, UrlParts};

verus! {

/// One feed of server configurations.
#[derive(Debug, Clone)]
pub struct DiscoverySource {
    pub name: String,
    pub url: String,
    pub format: SourceFormat,
}

/// How a feed encodes its lines.
#[derive(Debug, Clone, Copy, PartialEq, Eq, Structural)]
pub enum SourceFormat {
    /// The whole text is one base64 blob.
    Base64,
    /// Plain lines.
    Plain,
    /// Each line is a base64 blob of its own.
    MultiBase64,
}

fn source(name: &str, url: &str) -> (s: DiscoverySource)
    ensures
        s.name@ == name@,
        s.url@ == url@,
        s.format == SourceFormat::Base64,
{
    DiscoverySource { name: string_from(name), url: string_from(url), format: SourceFormat::Base64 }
}

/// The built-in feeds: every protocol, then vless, trojan and shadowsocks
/// alone, all base64-encoded.
pub fn default_sources() -> (v: Vec<DiscoverySource>)
    ensures
        v@.len() == 4,
        v@[0].name@ == "all"@,
        v@[0].url@
            == "https://cdn.jsdelivr.net/gh/0xRadikal/Free-v2ray-Configs@main/all/configs_base64.txt"@,
        v@[1].name@ == "vless"@,
        v@[1].url@
            == "https://cdn.jsdelivr.net/gh/0xRadikal/Free-v2ray-Configs@main/protocols/vless_base64.txt"@,
        v@[2].name@ == "trojan"@,
        v@[2].url@
            == "https://cdn.jsdelivr.net/gh/0xRadikal/Free-v2ray-Configs@main/protocols/trojan_base64.txt"@,
        v@[3].name@ == "ss"@,
        v@[3].url@
            == "https://cdn.jsdelivr.net/gh/0xRadikal/Free-v2ray-Configs@main/protocols/shadowsocks_base64.txt"@,
        forall|i: int| 0 <= i < 4 ==> #[trigger] v@[i].format == SourceFormat::Base64,
{
    vec![
        source("all", "https://cdn.jsdelivr.net/gh/0xRadikal/Free-v2ray-Configs@main/all/configs_base64.txt"),
        source("vless", "https://cdn.jsdelivr.net/gh/0xRadikal/Free-v2ray-Configs@main/protocols/vless_base64.txt"),
        source("trojan", "https://cdn.jsdelivr.net/gh/0xRadikal/Free-v2ray-Configs@main/protocols/trojan_base64.txt"),
        source("ss", "https://cdn.jsdelivr.net/gh/0xRadikal/Free-v2ray-Configs@main/protocols/shadowsocks_base64.txt"),
    ]
}

/// Fetches feeds; `timeout_ms` is the per-request timeout in milliseconds.
#[derive(Debug, Clone)]
pub struct DiscoveryEngine {
    pub sources: Vec<DiscoverySource>,
    pub timeout_ms: u64,
}

/// The protocols a discovered configuration may use.
pub open spec fn allowed_protocol(p: Seq<char>) -> bool {
    p == "vless"@ || p == "trojan"@ || p == "ss"@ || p == "vmess"@ || p == "hysteria2"@
        || p == "wireguard"@
}

pub open spec fn keeps_protocol(c: ServerConfig) -> bool {
    allowed_protocol(c.protocol@) && c.is_alive
}

/// What `deduplicate` keeps of `cs`, given the lines and the
/// (host, port, protocol) keys already seen: a configuration with an empty
/// or already seen line is dropped; otherwise its line is marked seen, and
/// it is kept unless its key was seen.
pub open spec fn dedup_from(
    cs: Seq<ServerConfig>,
    lines: Set<Seq<char>>,
    keys: Set<(Seq<char>, i32, Seq<char>)>,
) -> Seq<ServerConfig>
    decreases cs.len(),
{
    if cs.len() == 0 {
        seq![]
    } else {
        let c = cs[0];
        let rest = cs.drop_first();
        let line = c.config_line@;
        let key = (c.host@, c.port, c.protocol@);
        if line.len() > 0 && !lines.contains(line) {
            if !keys.contains(key) {
                seq![c] + dedup_from(rest, lines.insert(line), keys.insert(key))
            } else {
                dedup_from(rest, lines.insert(line), keys)
            }
        } else {
            dedup_from(rest, lines, keys)
        }
    }
}

pub open spec fn spec_dedup(cs: Seq<ServerConfig>) -> Seq<ServerConfig> {
    dedup_from(cs, Set::empty(), Set::empty())
}

pub open spec fn config_key(c: ServerConfig) -> (Seq<char>, i32, Seq<char>) {
    (c.host@, c.port, c.protocol@)
}

pub open spec fn line_set(v: Seq<String>) -> Set<Seq<char>> {
    Set::new(|x: Seq<char>| exists|k: int| 0 <= k < v.len() && #[trigger] v[k]@ == x)
}

pub open spec fn key_set(v: Seq<(String, i32, String)>) -> Set<(Seq<char>, i32, Seq<char>)> {
    Set::new(
        |x: (Seq<char>, i32, Seq<char>)|
            exists|k: int| 0 <= k < v.len() && (#[trigger] v[k]).0@ == x.0 && v[k].1 == x.1 && v[k].2@ == x.2,
    )
}

fn seen_line(seen: &Vec<String>, s: &str) -> (b: bool)
    ensures
        b == line_set(seen@).contains(s@),
{
    let mut i: usize = 0;
    while i < seen.len()
        invariant
            0 <= i <= seen@.len(),
            forall|k: int| 0 <= k < i ==> seen@[k]@ != s@,
        decreases seen.len() - i,
    {
        if str_eq(seen[i].as_str(), s) {
            assert(line_set(seen@).contains(s@));
            return true;
        }
        i += 1;
    }
    false
}

fn seen_key(seen: &Vec<(String, i32, String)>, host: &str, port: i32, proto: &str) -> (b: bool)
    ensures
        b == key_set(seen@).contains((host@, port, proto@)),
{
    let mut i: usize = 0;
    while i < seen.len()
        invariant
            0 <= i <= seen@.len(),
            forall|k: int|
                0 <= k < i ==> !((#[trigger] seen@[k]).0@ == host@ && seen@[k].1 == port
                    && seen@[k].2@ == proto@),
        decreases seen.len() - i,
    {
        if str_eq(seen[i].0.as_str(), host) && seen[i].1 == port && str_eq(seen[i].2.as_str(), proto) {
            assert(key_set(seen@).contains((host@, port, proto@)));
            return true;
        }
        i += 1;
    }
    false
}

impl DiscoveryEngine {
    /// An engine over `sources` with a 30-second timeout.
    pub fn new(sources: Vec<DiscoverySource>) -> (e: DiscoveryEngine)
        ensures
            e.sources == sources,
            e.timeout_ms == 30_000,
    {
        DiscoveryEngine { sources, timeout_ms: 30_000 }
    }

    /// The alive configurations of an allowed protocol, in order.
    pub fn filter_protocols(&self, configs: Vec<ServerConfig>) -> (out: Vec<ServerConfig>)
        ensures
            out@ == configs@.filter(|c: ServerConfig| keeps_protocol(c)),
    {
        let ghost pred = |c: ServerConfig| keeps_protocol(c);
        let mut out: Vec<ServerConfig> = Vec::new();
        let mut i: usize = 0;
        while i < configs.len()
            invariant
                0 <= i <= configs@.len(),
                pred == (|c: ServerConfig| keeps_protocol(c)),
                out@ == configs@.take(i as int).filter(pred),
            decreases configs.len() - i,
        {
            proof {
                assert(configs@.take(i + 1) =~= configs@.take(i as int).push(configs@[i as int]));
                configs@.take(i as int).lemma_filter_push(configs@[i as int], pred);
                reveal_strlit("vless");
                reveal_strlit("trojan");
                reveal_strlit("ss");
                reveal_strlit("vmess");
                reveal_strlit("hysteria2");
                reveal_strlit("wireguard");
            }
            let c = &configs[i];
            let p = c.protocol.as_str();
            let allowed = str_eq(p, "vless") || str_eq(p, "trojan") || str_eq(p, "ss") || str_eq(
                p,
                "vmess",
            ) || str_eq(p, "hysteria2") || str_eq(p, "wireguard");
            if allowed && c.is_alive {
                out.push(c.duplicate());
            }
            i += 1;
        }
        assert(configs@.take(configs@.len() as int) =~= configs@);
        out
    }

    /// Drops configurations whose line is empty or already seen, and those
    /// whose host, port and protocol match an earlier kept one.
    pub fn deduplicate(&self, configs: Vec<ServerConfig>) -> (out: Vec<ServerConfig>)
        ensures
            out@ == spec_dedup(configs@),
    {
        let mut lines: Vec<String> = Vec::new();
        let mut keys: Vec<(String, i32, String)> = Vec::new();
        let mut out: Vec<ServerConfig> = Vec::new();
        let mut i: usize = 0;
        assert(line_set(lines@) =~= Set::<Seq<char>>::empty());
        assert(key_set(keys@) =~= Set::<(Seq<char>, i32, Seq<char>)>::empty());
        assert(configs@.skip(0) =~= configs@);
        while i < configs.len()
            invariant
                0 <= i <= configs@.len(),
                out@ + dedup_from(configs@.skip(i as int), line_set(lines@), key_set(keys@))
                    == spec_dedup(configs@),
            decreases configs.len() - i,
        {
            let ghost rest = configs@.skip(i as int);
            let ghost l0 = line_set(lines@);
            let ghost k0 = key_set(keys@);
            assert(rest.drop_first() =~= configs@.skip(i + 1));
            let c = &configs[i];
            let line = c.config_line.as_str();
            if !line.is_empty() && !seen_line(&lines, line) {
                let ghost lv = lines@;
                lines.push(string_from(line));
                assert(line_set(lines@) =~= l0.insert(c.config_line@)) by {
                    assert(lines@ == lv.push(lines@.last()));
                    assert forall|x: Seq<char>| l0.insert(c.config_line@).contains(x) implies line_set(lines@).contains(x) by {
                        if x == c.config_line@ {
                            assert(lines@[lv.len() as int]@ == x);
                        } else {
                            let k = choose|k: int| 0 <= k < lv.len() && #[trigger] lv[k]@ == x;
                            assert(lines@[k]@ == x);
                        }
                    }
                }
                if !seen_key(&keys, c.host.as_str(), c.port, c.protocol.as_str()) {
                    let ghost kv = keys@;
                    keys.push((string_from(c.host.as_str()), c.port, string_from(c.protocol.as_str())));
                    assert(key_set(keys@) =~= k0.insert(config_key(*c))) by {
                        assert forall|x: (Seq<char>, i32, Seq<char>)| k0.insert(config_key(*c)).contains(x) implies key_set(keys@).contains(x) by {
                            if x == config_key(*c) {
                                assert(keys@[kv.len() as int].0@ == x.0);
                            } else {
                                let k = choose|k: int| 0 <= k < kv.len() && (#[trigger] kv[k]).0@ == x.0 && kv[k].1 == x.1 && kv[k].2@ == x.2;
                                assert(keys@[k] == kv[k]);
                            }
                        }
                    }
                    let ghost before = out@;
                    out.push(c.duplicate());
                    assert(out@ + dedup_from(configs@.skip(i + 1), line_set(lines@), key_set(keys@))
                        =~= before + dedup_from(rest, l0, k0));
                } else {
                    assert(dedup_from(rest, l0, k0) == dedup_from(
                        configs@.skip(i + 1),
                        line_set(lines@),
                        key_set(keys@),
                    ));
                }
            } else {
                assert(dedup_from(rest, l0, k0) == dedup_from(
                    configs@.skip(i + 1),
                    line_set(lines@),
                    key_set(keys@),
                ));
            }
            i += 1;
        }
        assert(configs@.skip(configs@.len() as int) =~= Seq::<ServerConfig>::empty());
        assert(out@ + Seq::<ServerConfig>::empty() =~= out@);
        out
    }
}

/// Two kept configurations never share a line, nor a host, port and
/// protocol.
pub proof fn law_dedup_distinct(cs: Seq<ServerConfig>)
    ensures
        forall|i: int, j: int|
            0 <= i < j < spec_dedup(cs).len() ==> (#[trigger] spec_dedup(cs)[i]).config_line@
                != (#[trigger] spec_dedup(cs)[j]).config_line@ && config_key(spec_dedup(cs)[i])
                != config_key(spec_dedup(cs)[j]),
{
    lemma_dedup_distinct(cs, Set::empty(), Set::empty());
}

proof fn lemma_dedup_fresh(
    cs: Seq<ServerConfig>,
    lines: Set<Seq<char>>,
    keys: Set<(Seq<char>, i32, Seq<char>)>,
)
    ensures
        forall|i: int|
            0 <= i < dedup_from(cs, lines, keys).len() ==> !lines.contains(
                (#[trigger] dedup_from(cs, lines, keys)[i]).config_line@,
            ) && !keys.contains(config_key(dedup_from(cs, lines, keys)[i])),
    decreases cs.len(),
{
    if cs.len() > 0 {
        let c = cs[0];
        let rest = cs.drop_first();
        let line = c.config_line@;
        let key = config_key(c);
        lemma_dedup_fresh(rest, lines.insert(line), keys.insert(key));
        lemma_dedup_fresh(rest, lines.insert(line), keys);
        lemma_dedup_fresh(rest, lines, keys);
    }
}

proof fn lemma_dedup_distinct(
    cs: Seq<ServerConfig>,
    lines: Set<Seq<char>>,
    keys: Set<(Seq<char>, i32, Seq<char>)>,
)
    ensures
        forall|i: int, j: int|
            0 <= i < j < dedup_from(cs, lines, keys).len() ==> (#[trigger] dedup_from(
                cs,
                lines,
                keys,
            )[i]).config_line@ != (#[trigger] dedup_from(cs, lines, keys)[j]).config_line@
                && config_key(dedup_from(cs, lines, keys)[i]) != config_key(
                dedup_from(cs, lines, keys)[j],
            ),
    decreases cs.len(),
{
    if cs.len() > 0 {
        let c = cs[0];
        let rest = cs.drop_first();
        let line = c.config_line@;
        let key = config_key(c);
        lemma_dedup_distinct(rest, lines.insert(line), keys.insert(key));
        lemma_dedup_distinct(rest, lines.insert(line), keys);
        lemma_dedup_distinct(rest, lines, keys);
        lemma_dedup_fresh(rest, lines.insert(line), keys.insert(key));
        let out = dedup_from(cs, lines, keys);
        if line.len() > 0 && !lines.contains(line) && !keys.contains(key) {
            let tail = dedup_from(rest, lines.insert(line), keys.insert(key));
            assert(out == seq![c] + tail);
            assert forall|i: int, j: int| 0 <= i < j < out.len() implies (#[trigger] out[i]).config_line@
                != (#[trigger] out[j]).config_line@ && config_key(out[i]) != config_key(out[j]) by {
                if i == 0 {
                    assert(out[j] == tail[j - 1]);
                } else {
                    assert(out[i] == tail[i - 1]);
                    assert(out[j] == tail[j - 1]);
                }
            }
        }
    }
}

/// The alive configurations whose health score is not negative (a missing
/// score counts as 0).
pub open spec fn healthy(c: ServerConfig) -> bool {
    c.is_alive && match c.health_score_milli {
        Some(h) => h >= 0,
        None => true,
    }
}

pub fn health_filter(_engine: DiscoveryEngine, configs: Vec<ServerConfig>) -> (out: Vec<ServerConfig>)
    ensures
        out@ == configs@.filter(|c: ServerConfig| healthy(c)),
{
    let ghost pred = |c: ServerConfig| healthy(c);
    let mut out: Vec<ServerConfig> = Vec::new();
    let mut i: usize = 0;
    while i < configs.len()
        invariant
            0 <= i <= configs@.len(),
            pred == (|c: ServerConfig| healthy(c)),
            out@ == configs@.take(i as int).filter(pred),
        decreases configs.len() - i,
    {
        proof {
            assert(configs@.take(i + 1) =~= configs@.take(i as int).push(configs@[i as int]));
            configs@.take(i as int).lemma_filter_push(configs@[i as int], pred);
        }
        let c = &configs[i];
        let score = match c.health_score_milli {
            Some(h) => h,
            None => 0,
        };
        if c.is_alive && score >= 0 {
            out.push(c.duplicate());
        }
        i += 1;
    }
    assert(configs@.take(configs@.len() as int) =~= configs@);
    out
}

} // verus!

verus! {

/// The text that base64 `s` stands for, when it decodes to valid UTF-8.
pub open spec fn b64_text(s: Seq<char>) -> Option<Seq<char>> {
    match b64_std_decode(s) {
        Some(b) => if vstd::utf8::valid_utf8(b) {
            Some(vstd::utf8::decode_utf8(b))
        } else {
            None
        },
        None => None,
    }
}

/// The lines one line of a multi-base64 feed gives: none when it is blank,
/// else the lines of what it decodes to, or the trimmed line itself when it
/// does not decode.
pub open spec fn multi_piece(line: Seq<char>) -> Seq<Seq<char>> {
    let t = spec_trim(line);
    if t.len() == 0 {
        seq![]
    } else {
        match b64_text(t) {
            Some(d) => spec_lines(d),
            None => spec_lines(t),
        }
    }
}

pub open spec fn multi_lines(ls: Seq<Seq<char>>) -> Seq<Seq<char>>
    decreases ls.len(),
{
    if ls.len() == 0 {
        seq![]
    } else {
        multi_lines(ls.drop_last()) + multi_piece(ls.last())
    }
}

/// The lines a feed's text holds in the given format.
pub open spec fn spec_decode_source(text: Seq<char>, fmt: SourceFormat) -> Seq<Seq<char>> {
    match fmt {
        SourceFormat::Base64 => match b64_text(spec_trim(text)) {
            Some(d) => spec_lines(d),
            None => spec_lines(text),
        },
        SourceFormat::MultiBase64 => multi_lines(spec_lines(text)),
        SourceFormat::Plain => spec_lines(text),
    }
}

fn decode_text(s: &str) -> (r: Option<String>)
    ensures
        opt_str(r) == b64_text(s@),
{
    match base64_decode(s) {
        Ok(bytes) => utf8_string(bytes),
        Err(_) => None,
    }
}

fn append_all(out: &mut Vec<String>, more: Vec<String>)
    ensures
        views(final(out)@) == views(old(out)@) + views(more@),
{
    let mut i: usize = 0;
    let ghost start = views(out@);
    while i < more.len()
        invariant
            0 <= i <= more@.len(),
            views(out@) == start + views(more@).take(i as int),
        decreases more.len() - i,
    {
        let ghost before = out@;
        out.push(more[i].clone());
        assert(views(out@) =~= views(before).push(more@[i as int]@));
        assert(views(more@).take(i + 1) =~= views(more@).take(i as int).push(more@[i as int]@));
        i += 1;
    }
    assert(views(more@).take(more@.len() as int) =~= views(more@));
}

/// The lines of a feed's text, decoded as its format says.
pub fn decode_source(text: &str, fmt: &SourceFormat) -> (r: Vec<String>)
    ensures
        views(r@) == spec_decode_source(text@, *fmt),
{
    match fmt {
        SourceFormat::Base64 => {
            let t = trim(text);
            match decode_text(t.as_str()) {
                Some(d) => lines(d.as_str()),
                None => lines(text),
            }
        },
        SourceFormat::Plain => lines(text),
        SourceFormat::MultiBase64 => {
            let ls = lines(text);
            let mut out: Vec<String> = Vec::new();
            let mut i: usize = 0;
            while i < ls.len()
                invariant
                    0 <= i <= ls@.len(),
                    views(ls@) == spec_lines(text@),
                    views(out@) == multi_lines(views(ls@).take(i as int)),
                decreases ls.len() - i,
            {
                proof {
                    assert(views(ls@).take(i + 1).drop_last() =~= views(ls@).take(i as int));
                    assert(views(ls@)[i as int] == ls@[i as int]@);
                }
                let t = trim(ls[i].as_str());
                if !t.as_str().is_empty() {
                    let piece = match decode_text(t.as_str()) {
                        Some(d) => lines(d.as_str()),
                        None => lines(t.as_str()),
                    };
                    append_all(&mut out, piece);
                }
                i += 1;
            }
            assert(views(ls@).take(ls@.len() as int) =~= views(ls@));
            out
        },
    }
}

/// The schemes a feed line may use.
pub open spec fn known_scheme(p: Seq<char>) -> bool {
    p == "vless"@ || p == "trojan"@ || p == "ss"@ || p == "vmess"@ || p == "hysteria2"@
        || p == "wireguard"@ || p == "https"@ || p == "http"@
}

/// The scheme a line that is no URL still starts with, if any.
pub open spec fn rough_scheme(line: Seq<char>) -> Option<Seq<char>> {
    if starts_with_seq(line, "vmess://"@) {
        Some("vmess"@)
    } else if starts_with_seq(line, "vless://"@) {
        Some("vless"@)
    } else if starts_with_seq(line, "ss://"@) {
        Some("ss"@)
    } else if starts_with_seq(line, "trojan://"@) {
        Some("trojan"@)
    } else if starts_with_seq(line, "hysteria2://"@) {
        Some("hysteria2"@)
    } else {
        None
    }
}

/// The host and port of a line that is no URL: what follows the first `@`
/// up to the next `:`, and the number after it (443 when there is none or
/// it is not an `i32`); "unknown" and 443 without an `@`.
pub open spec fn spec_rough_host_port(line: Seq<char>) -> (Seq<char>, int) {
    match first_index(line, '@') {
        None => ("unknown"@, 443),
        Some(at) => {
            let after = line.subrange(at + 1, line.len() as int);
            match first_index(after, ':') {
                Some(c) => (
                    after.subrange(0, c),
                    match spec_parse_i32(after.subrange(c + 1, after.len() as int)) {
                        Some(p) => p,
                        None => 443,
                    },
                ),
                None => (after, 443),
            }
        },
    }
}

pub fn extract_host_port_rough(line: &str) -> (r: (String, i32))
    ensures
        r.0@ == spec_rough_host_port(line@).0,
        r.1 as int == spec_rough_host_port(line@).1,
{
    proof {
        reveal_strlit("unknown");
    }
    let v = chars_of(line);
    assert(v@.subrange(0, v@.len() as int) =~= v@);
    match find_char(&v, 0, v.len(), '@') {
        None => (string_from("unknown"), 443),
        Some(at) => {
            let ghost after = v@.subrange(at + 1, v@.len() as int);
            match find_char(&v, at + 1, v.len(), ':') {
                Some(c) => {
                    let host = string_of(&v, at + 1, c);
                    assert(after.subrange(0, c - at - 1) =~= v@.subrange(at + 1, c as int));
                    assert(after.subrange(c - at, after.len() as int) =~= v@.subrange(
                        c + 1,
                        v@.len() as int,
                    ));
                    let port = match parse_i32(&v, c + 1, v.len()) {
                        Some(p) => p,
                        None => 443,
                    };
                    (host, port)
                },
                None => {
                    let host = string_of(&v, at + 1, v.len());
                    (host, 443)
                },
            }
        },
    }
}

/// Two ASCII letters.
pub open spec fn two_ascii_letters(s: Seq<char>) -> bool {
    utf8_len(s) == 2 && forall|i: int|
        0 <= i < s.len() ==> ('a' <= #[trigger] s[i] <= 'z' || 'A' <= s[i] <= 'Z')
}

/// The first `region=` pair whose value, trimmed, cut to two characters
/// and upper-cased, is two ASCII letters; that value.
pub open spec fn region_from_pairs(pairs: Seq<Seq<char>>) -> Option<Seq<char>>
    decreases pairs.len(),
{
    if pairs.len() == 0 {
        None
    } else {
        let p = pairs[0];
        let rest = region_from_pairs(pairs.drop_first());
        if starts_with_seq(p, "region="@) {
            let t = spec_trim(p.subrange(7, p.len() as int));
            let val = unicode_uppercase(if t.len() <= 2 { t } else { t.take(2) });
            if two_ascii_letters(val) {
                Some(val)
            } else {
                rest
            }
        } else {
            rest
        }
    }
}

/// The first path segment made of two ASCII letters, upper-cased.
pub open spec fn region_from_segments(segs: Seq<Seq<char>>) -> Option<Seq<char>>
    decreases segs.len(),
{
    if segs.len() == 0 {
        None
    } else if two_ascii_letters(segs[0]) {
        Some(unicode_uppercase(segs[0]))
    } else {
        region_from_segments(segs.drop_first())
    }
}

/// The region a feed URL names: a `region=` pair of its fragment first,
/// else a two-letter segment of its path.
pub open spec fn spec_region_from_url(u: UrlModel) -> Option<Seq<char>> {
    let from_fragment = match u.fragment {
        Some(f) => region_from_pairs(spec_split(f, '&')),
        None => None,
    };
    match from_fragment {
        Some(r) => Some(r),
        None => region_from_segments(spec_split(u.path, '/')),
    }
}

fn is_two_ascii_letters(s: &str) -> (b: bool)
    ensures
        b == two_ascii_letters(s@),
{
    if !is_two_bytes(s) {
        return false;
    }
    let v = chars_of(s);
    let mut i: usize = 0;
    while i < v.len()
        invariant
            0 <= i <= v@.len(),
            v@ == s@,
            forall|k: int| 0 <= k < i ==> ('a' <= #[trigger] v@[k] <= 'z' || 'A' <= v@[k] <= 'Z'),
        decreases v.len() - i,
    {
        let c = v[i];
        if !(('a' <= c && c <= 'z') || ('A' <= c && c <= 'Z')) {
            return false;
        }
        i += 1;
    }
    true
}

fn region_from_pair(p: &str) -> (r: Option<String>)
    ensures
        starts_with_seq(p@, "region="@) ==> ({
            let t = spec_trim(p@.subrange(7, p@.len() as int));
            let val = unicode_uppercase(if t.len() <= 2 { t } else { t.take(2) });
            if two_ascii_letters(val) {
                opt_str(r) == Some(val)
            } else {
                r is None
            }
        }),
        !starts_with_seq(p@, "region="@) ==> r is None,
{
    let v = chars_of(p);
    let key = chars_of("region=");
    proof {
        reveal_strlit("region=");
    }
    if !matches_at(&v, 0, &key) {
        return None;
    }
    let rest = string_of(&v, 7, v.len());
    let t = trim(rest.as_str());
    let tv = chars_of(t.as_str());
    let n = if tv.len() <= 2 {
        tv.len()
    } else {
        2
    };
    let cut = string_of(&tv, 0, n);
    assert(tv@.subrange(0, tv@.len() as int) =~= tv@);
    let val = to_uppercase(cut.as_str());
    if is_two_ascii_letters(val.as_str()) {
        Some(val)
    } else {
        None
    }
}

/// The region a feed URL names (see [`spec_region_from_url`]).
pub fn parse_region_from_url(u: &UrlParts) -> (r: Option<String>)
    ensures
        opt_str(r) == spec_region_from_url(u@),
{
    match &u.fragment {
        Some(f) => {
            let fv = chars_of(f.as_str());
            let pairs = split_chars(&fv, 0, fv.len(), '&');
            assert(fv@.subrange(0, fv@.len() as int) =~= fv@);
            let mut i: usize = 0;
            assert(views(pairs@).subrange(0, pairs@.len() as int) =~= views(pairs@));
            while i < pairs.len()
                invariant
                    0 <= i <= pairs@.len(),
                    views(pairs@) == spec_split(f@, '&'),
                    u@.fragment == Some(f@),
                    region_from_pairs(spec_split(f@, '&')) == region_from_pairs(
                        views(pairs@).subrange(i as int, pairs@.len() as int),
                    ),
                decreases pairs.len() - i,
            {
                let ghost sub = views(pairs@).subrange(i as int, pairs@.len() as int);
                assert(sub.drop_first() =~= views(pairs@).subrange(i + 1, pairs@.len() as int));
                assert(sub[0] == pairs@[i as int]@);
                match region_from_pair(pairs[i].as_str()) {
                    Some(val) => {
                        return Some(val);
                    },
                    None => {},
                }
                i += 1;
            }
        },
        None => {},
    }
    let pv = chars_of(u.path.as_str());
    let segs = split_chars(&pv, 0, pv.len(), '/');
    assert(pv@.subrange(0, pv@.len() as int) =~= pv@);
    let mut j: usize = 0;
    assert(views(segs@).subrange(0, segs@.len() as int) =~= views(segs@));
    while j < segs.len()
        invariant
            0 <= j <= segs@.len(),
            views(segs@) == spec_split(u@.path, '/'),
            spec_region_from_url(u@) == region_from_segments(
                views(segs@).subrange(j as int, segs@.len() as int),
            ),
        decreases segs.len() - j,
    {
        let ghost sub = views(segs@).subrange(j as int, segs@.len() as int);
        assert(sub.drop_first() =~= views(segs@).subrange(j + 1, segs@.len() as int));
        assert(sub[0] == segs@[j as int]@);
        if is_two_ascii_letters(segs[j].as_str()) {
            return Some(to_uppercase(segs[j].as_str()));
        }
        j += 1;
    }
    None
}

/// `c` is the configuration a feed line `line` gives when it parses as the
/// URL `u` of a known scheme.
pub open spec fn feed_config_from(c: ServerConfig, line: Seq<char>, u: UrlModel) -> bool {
    let protocol = unicode_lowercase(u.scheme);
    &&& c.id as int == spec_hash_id(line)
    &&& c.config_line@ == line
    &&& c.protocol@ == protocol
    &&& c.host@ == match u.host {
        Some(h) => h,
        None => Seq::<char>::empty(),
    }
    &&& c.port as int == match u.port {
        Some(p) => p as int,
        None => spec_default_port(protocol) as int,
    }
    &&& c.is_alive
    &&& opt_str(c.source) == Some("discovery_feed"@)
    &&& c.health_score_milli == Some(500i64)
    &&& c.response_time_ms is None
    &&& opt_str(c.region) == spec_region_from_url(u)
}

/// `c` is the configuration a feed line `line` gives when it is no URL but
/// starts with the scheme `scheme`.
pub open spec fn rough_config(c: ServerConfig, line: Seq<char>, scheme: Seq<char>) -> bool {
    &&& c.id as int == spec_hash_id(line)
    &&& c.config_line@ == line
    &&& c.protocol@ == scheme
    &&& c.host@ == spec_rough_host_port(line).0
    &&& c.port as int == spec_rough_host_port(line).1
    &&& c.is_alive
    &&& opt_str(c.source) == Some("discovery_feed"@)
    &&& c.health_score_milli == Some(500i64)
    &&& c.response_time_ms is None
    &&& c.region is None
}

/// `r` is what parsing the feed line `line` gives.
pub open spec fn parsed_line(r: Result<ServerConfig, WardenError>, line: Seq<char>) -> bool {
    match url_parse(line) {
        Some(u) => {
            let p = unicode_lowercase(u.scheme);
            if known_scheme(p) {
                r matches Ok(c) && feed_config_from(c, line, u)
            } else {
                r matches Err(WardenError::ConfigParseError(m)) && m@ == "unsupported protocol: "@
                    + p
            }
        },
        None => match rough_scheme(line) {
            Some(s) => r matches Ok(c) && rough_config(c, line, s),
            None => r matches Err(WardenError::ConfigParseError(m)) && m@ == "unknown line: "@
                + line,
        },
    }
}

fn is_known_scheme(p: &str) -> (b: bool)
    ensures
        b == known_scheme(p@),
{
    str_eq(p, "vless") || str_eq(p, "trojan") || str_eq(p, "ss") || str_eq(p, "vmess") || str_eq(
        p,
        "hysteria2",
    ) || str_eq(p, "wireguard") || str_eq(p, "https") || str_eq(p, "http")
}

fn rough_scheme_of(line: &str) -> (r: Option<&'static str>)
    ensures
        match rough_scheme(line@) {
            Some(s) => r matches Some(x) && x@ == s,
            None => r is None,
        },
{
    if str_starts_with(line, "vmess://") {
        Some("vmess")
    } else if str_starts_with(line, "vless://") {
        Some("vless")
    } else if str_starts_with(line, "ss://") {
        Some("ss")
    } else if str_starts_with(line, "trojan://") {
        Some("trojan")
    } else if str_starts_with(line, "hysteria2://") {
        Some("hysteria2")
    } else {
        None
    }
}

/// Parses one line of a feed: a URL of a known scheme, or a line that at
/// least starts like one.
pub fn parse_config_line(line: &str) -> (r: Result<ServerConfig, WardenError>)
    ensures
        parsed_line(r, line@),
{
    match parse_url(line) {
        Ok(u) => {
            let protocol = to_lowercase(u.scheme.as_str());
            if !is_known_scheme(protocol.as_str()) {
                return Err(
                    WardenError::ConfigParseError(
                        append_str(string_from("unsupported protocol: "), protocol.as_str()),
                    ),
                );
            }
            let host = match &u.host {
                Some(h) => h.clone(),
                None => String::new(),
            };
            let port: i32 = match u.port {
                Some(p) => p as i32,
                None => default_port(protocol.as_str()) as i32,
            };
            let region = parse_region_from_url(&u);
            Ok(
                ServerConfig {
                    id: hash_id(line),
                    config_line: string_from(line),
                    protocol,
                    host,
                    port,
                    is_alive: true,
                    source: Some(string_from("discovery_feed")),
                    health_score_milli: Some(500),
                    response_time_ms: None,
                    region,
                },
            )
        },
        Err(_) => match rough_scheme_of(line) {
            Some(scheme) => {
                let (host, port) = extract_host_port_rough(line);
                Ok(
                    ServerConfig {
                        id: hash_id(line),
                        config_line: string_from(line),
                        protocol: string_from(scheme),
                        host,
                        port,
                        is_alive: true,
                        source: Some(string_from("discovery_feed")),
                        health_score_milli: Some(500),
                        response_time_ms: None,
                        region: None,
                    },
                )
            },
            None => Err(
                WardenError::ConfigParseError(append_str(string_from("unknown line: "), line)),
            ),
        },
    }
}

/// A feed line worth parsing: trimmed, neither blank nor a comment.
pub open spec fn feed_line_kept(t: Seq<char>) -> bool {
    t.len() > 0 && t[0] != '#'
}

/// The trimmed feed lines worth parsing, in order.
pub open spec fn feed_lines(text: Seq<char>, fmt: SourceFormat) -> Seq<Seq<char>> {
    spec_decode_source(text, fmt).map_values(|l: Seq<char>| spec_trim(l)).filter(
        |t: Seq<char>| feed_line_kept(t),
    )
}

/// The configurations a feed's text gives: each kept line is parsed, and
/// those that fail to parse are skipped. `taken[k]` is the index, in
/// `feed_lines`, of the line the `k`-th configuration comes from.
pub open spec fn feed_result(out: Seq<ServerConfig>, lines: Seq<Seq<char>>) -> bool
    decreases lines.len(),
{
    if lines.len() == 0 {
        out.len() == 0
    } else {
        let r = lines.last();
        if out.len() > 0 && parsed_line(Ok(out.last()), r) {
            feed_result(out.drop_last(), lines.drop_last())
        } else {
            (forall|c: ServerConfig| !parsed_line(Ok(c), r)) && feed_result(out, lines.drop_last())
        }
    }
}

/// The configurations a feed's text lists, in order: every decoded line
/// that, trimmed, is neither blank nor a comment and parses.
pub fn configs_from_text(text: &str, fmt: &SourceFormat) -> (out: Vec<ServerConfig>)
    ensures
        feed_result(out@, feed_lines(text@, *fmt)),
{
    let ls = decode_source(text, fmt);
    let ghost trimmed = spec_decode_source(text@, *fmt).map_values(|l: Seq<char>| spec_trim(l));
    let ghost pred = |t: Seq<char>| feed_line_kept(t);
    let mut out: Vec<ServerConfig> = Vec::new();
    let mut i: usize = 0;
    while i < ls.len()
        invariant
            0 <= i <= ls@.len(),
            views(ls@) == spec_decode_source(text@, *fmt),
            trimmed == spec_decode_source(text@, *fmt).map_values(|l: Seq<char>| spec_trim(l)),
            pred == (|t: Seq<char>| feed_line_kept(t)),
            feed_result(out@, trimmed.take(i as int).filter(pred)),
        decreases ls.len() - i,
    {
        let t = trim(ls[i].as_str());
        assert(views(ls@)[i as int] == ls@[i as int]@);
        assert(t@ == trimmed[i as int]);
        proof {
            assert(trimmed.take(i + 1) =~= trimmed.take(i as int).push(trimmed[i as int]));
            trimmed.take(i as int).lemma_filter_push(trimmed[i as int], pred);
        }
        let tv = chars_of(t.as_str());
        if tv.len() > 0 && tv[0] != '#' {
            let ghost filtered = trimmed.take(i + 1).filter(pred);
            assert(filtered.drop_last() == trimmed.take(i as int).filter(pred));
            match parse_config_line(t.as_str()) {
                Ok(c) => {
                    let ghost before = out@;
                    out.push(c);
                    assert(out@.drop_last() =~= before);
                },
                Err(_) => {
                    proof {
                        lemma_parse_err_unique(t@);
                    }
                },
            }
        }
        i += 1;
    }
    assert(trimmed.take(ls@.len() as int) =~= trimmed);
    out
}

/// When parsing a line fails, no configuration is what it parses to.
proof fn lemma_parse_err_unique(line: Seq<char>)
    requires
        exists|e: WardenError| parsed_line(Err(e), line),
    ensures
        forall|c: ServerConfig| !parsed_line(Ok(c), line),
{
}

} // verus!
