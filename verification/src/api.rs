//! Server configurations, and how a subscription text becomes a list of
//! them.
use vstd::prelude::*;
use crate::bridge::{
    default_hash, is_alphabetic, parse_url, std_str_hash, to_lowercase, to_uppercase,
    unicode_alphabetic, unicode_lowercase, unicode_uppercase, url_parse,
};
use crate::text::{
    append_str, chars_of, lines, signed_decimal, spec_lines, spec_signed_decimal, spec_trim, str_eq,
    string_from, string_of, trim, views,
};
use crate::urls::{opt_str, UrlModel};

verus! {

/// One server that the client can connect to. `health_score_milli` is the
/// health score in thousandths (500 is a score of 0.5).
#[derive(Debug, Clone)]
pub struct ServerConfig {
    pub id: i64,
    pub config_line: String,
    pub protocol: String,
    pub host: String,
    pub port: i32,
    pub is_alive: bool,
    pub source: Option<String>,
    pub health_score_milli: Option<i64>,
    pub response_time_ms: Option<i32>,
    pub region: Option<String>,
}

/// The `host:port` text of a configuration's endpoint, as `{}:{}` formats
/// them.
pub open spec fn spec_endpoint(c: ServerConfig) -> Seq<char> {
    c.host@ + ":"@ + spec_signed_decimal(c.port as int)
}

impl ServerConfig {
    /// The `host:port` text of the endpoint (see [`spec_endpoint`]).
    pub fn endpoint(&self) -> (s: String)
        ensures
            s@ == spec_endpoint(*self),
    {
        let text = append_str(self.host.clone(), ":");
        append_str(text, signed_decimal(self.port as i64).as_str())
    }

    /// A field-by-field copy.
    pub fn duplicate(&self) -> (r: ServerConfig)
        ensures
            r == *self,
    {
        ServerConfig {
            id: self.id,
            config_line: self.config_line.clone(),
            protocol: self.protocol.clone(),
            host: self.host.clone(),
            port: self.port,
            is_alive: self.is_alive,
            source: match &self.source {
                Some(s) => Some(s.clone()),
                None => None,
            },
            health_score_milli: self.health_score_milli,
            response_time_ms: self.response_time_ms,
            region: match &self.region {
                Some(s) => Some(s.clone()),
                None => None,
            },
        }
    }
}

/// The port a scheme uses when the URL names none.
pub open spec fn spec_default_port(scheme: Seq<char>) -> u16 {
    if scheme == "http"@ {
        80
    } else if scheme == "ss"@ {
        8388
    } else {
        443
    }
}

pub fn default_port(scheme: &str) -> (p: u16)
    ensures
        p == spec_default_port(scheme@),
{
    if str_eq(scheme, "http") {
        80
    } else if str_eq(scheme, "ss") {
        8388
    } else {
        443
    }
}

/// The id of a configuration line: its standard hash with the top bit
/// cleared.
pub open spec fn spec_hash_id(s: Seq<char>) -> int {
    std_str_hash(s) as int % 0x8000_0000_0000_0000
}

pub fn hash_id(s: &str) -> (id: i64)
    ensures
        id as int == spec_hash_id(s@),
        id >= 0,
{
    let h = default_hash(s);
    let m: u64 = h & 0x7FFF_FFFF_FFFF_FFFFu64;
    assert(m == h % 0x8000_0000_0000_0000 && m < 0x8000_0000_0000_0000) by (bit_vector)
        requires
            m == h & 0x7FFF_FFFF_FFFF_FFFFu64,
    ;
    m as i64
}

/// `i` is the first position in `s` of a character that is not alphabetic.
pub open spec fn is_first_sep(s: Seq<char>, i: int) -> bool {
    &&& 0 <= i < s.len()
    &&& !unicode_alphabetic(s[i])
    &&& forall|j: int| 0 <= j < i ==> unicode_alphabetic(#[trigger] s[j])
}

pub open spec fn first_sep(s: Seq<char>) -> Option<int> {
    if exists|i: int| is_first_sep(s, i) {
        Some(choose|i: int| is_first_sep(s, i))
    } else {
        None
    }
}

/// The pieces that splitting `s` at every non-alphabetic character yields.
pub open spec fn alpha_pieces(s: Seq<char>) -> Seq<Seq<char>>
    decreases s.len(),
{
    match first_sep(s) {
        Some(i) => seq![s.subrange(0, i)] + alpha_pieces(s.subrange(i + 1, s.len() as int)),
        None => seq![s],
    }
}

/// How many bytes `c` takes in UTF-8.
pub open spec fn utf8_width(c: char) -> nat {
    if (c as u32) < 0x80 {
        1
    } else if (c as u32) < 0x800 {
        2
    } else if (c as u32) < 0x10000 {
        3
    } else {
        4
    }
}

/// How many bytes `s` takes in UTF-8.
pub open spec fn utf8_len(s: Seq<char>) -> nat
    decreases s.len(),
{
    if s.len() == 0 {
        0
    } else {
        utf8_len(s.drop_last()) + utf8_width(s.last())
    }
}

proof fn lemma_utf8_len_prefix(s: Seq<char>, k: int)
    requires
        0 <= k <= s.len(),
    ensures
        utf8_len(s.take(k)) <= utf8_len(s),
    decreases s.len() - k,
{
    if k < s.len() {
        lemma_utf8_len_prefix(s, k + 1);
        assert(s.take(k + 1).drop_last() =~= s.take(k));
    } else {
        assert(s.take(k) =~= s);
    }
}

/// Does `s` take exactly two bytes in UTF-8?
pub(crate) fn is_two_bytes(s: &str) -> (b: bool)
    ensures
        b == (utf8_len(s@) == 2),
{
    let v = chars_of(s);
    let mut total: u64 = 0;
    let mut i: usize = 0;
    while i < v.len()
        invariant
            0 <= i <= v@.len(),
            total == utf8_len(v@.take(i as int)),
            total <= 2,
            v@ == s@,
        decreases v.len() - i,
    {
        proof {
            assert(v@.take(i + 1).drop_last() =~= v@.take(i as int));
            assert(v@.take(i + 1).last() == v@[i as int]);
        }
        let c = v[i] as u32;
        let w: u64 = if c < 0x80 {
            1
        } else if c < 0x800 {
            2
        } else if c < 0x10000 {
            3
        } else {
            4
        };
        assert(w == utf8_width(v@[i as int]));
        assert(utf8_len(v@.take(i + 1)) == total + w);
        if total + w > 2 {
            proof {
                lemma_utf8_len_prefix(v@, i + 1);
            }

            return false;
        }
        total = total + w;
        i += 1;
    }
    assert(v@.take(v@.len() as int) =~= v@);
    total == 2
}

/// The first of `pieces` that takes two bytes in UTF-8.
pub open spec fn first_two_byte(pieces: Seq<Seq<char>>) -> Option<Seq<char>>
    decreases pieces.len(),
{
    if pieces.len() == 0 {
        None
    } else if utf8_len(pieces[0]) == 2 {
        Some(pieces[0])
    } else {
        first_two_byte(pieces.drop_first())
    }
}

/// The region a subscription line's fragment names: the first two-byte
/// alphabetic piece of it, upper-cased.
pub open spec fn fragment_region(fragment: Option<Seq<char>>) -> Option<Seq<char>> {
    match fragment {
        Some(f) => match first_two_byte(alpha_pieces(f)) {
            Some(p) => Some(unicode_uppercase(p)),
            None => None,
        },
        None => None,
    }
}

fn first_non_alpha(v: &[char], from: usize, to: usize) -> (r: Option<usize>)
    requires
        from <= to <= v@.len(),
    ensures
        match r {
            Some(i) => from <= i < to && first_sep(v@.subrange(from as int, to as int)) == Some(
                i - from,
            ),
            None => first_sep(v@.subrange(from as int, to as int)) is None,
        },
{
    let ghost s = v@.subrange(from as int, to as int);
    let mut i = from;
    while i < to
        invariant
            from <= i <= to <= v@.len(),
            s == v@.subrange(from as int, to as int),
            forall|j: int| from <= j < i ==> unicode_alphabetic(#[trigger] v@[j]),
        decreases to - i,
    {
        if !is_alphabetic(v[i]) {
            assert(is_first_sep(s, i - from));
            proof {
                assert forall|k: int| is_first_sep(s, k) implies k == i - from by {
                    if k < i - from {
                        assert(unicode_alphabetic(v@[from + k]));
                    }
                    if k > i - from {
                        assert(unicode_alphabetic(s[i - from]));
                    }
                }
            }
            return Some(i);
        }
        i += 1;
    }
    assert forall|k: int| !is_first_sep(s, k) by {
        if 0 <= k < s.len() {
            assert(unicode_alphabetic(v@[from + k]));
        }
    }
    None
}

fn split_non_alpha(v: &[char]) -> (r: Vec<String>)
    ensures
        views(r@) == alpha_pieces(v@),
{
    let to = v.len();
    let mut out: Vec<String> = Vec::new();
    let mut start: usize = 0;
    assert(v@.subrange(0, to as int) =~= v@);
    loop
        invariant
            start <= to == v@.len(),
            views(out@) + alpha_pieces(v@.subrange(start as int, to as int)) == alpha_pieces(v@),
        decreases to - start,
    {
        let ghost rest = v@.subrange(start as int, to as int);
        match first_non_alpha(v, start, to) {
            Some(i) => {
                let piece = string_of(v, start, i);
                proof {
                    assert(rest.subrange(0, i - start) =~= v@.subrange(start as int, i as int));
                    assert(rest.subrange(i - start + 1, rest.len() as int) =~= v@.subrange(
                        i + 1,
                        to as int,
                    ));
                    assert(views(out@.push(piece)) =~= views(out@).push(piece@));
                    assert(alpha_pieces(rest) == seq![piece@] + alpha_pieces(
                        v@.subrange(i + 1, to as int),
                    ));
                    assert(views(out@.push(piece)) + alpha_pieces(v@.subrange(i + 1, to as int))
                        =~= views(out@) + alpha_pieces(rest));
                }
                out.push(piece);
                start = i + 1;
            },
            None => {
                let piece = string_of(v, start, to);
                proof {
                    assert(views(out@.push(piece)) =~= views(out@) + alpha_pieces(rest));
                }
                out.push(piece);
                return out;
            },
        }
    }
}

/// The region that a fragment names (see [`fragment_region`]).
pub fn region_of_fragment(fragment: &Option<String>) -> (r: Option<String>)
    ensures
        opt_str(r) == fragment_region(opt_str(*fragment)),
{
    match fragment {
        None => None,
        Some(f) => {
            let v = chars_of(f.as_str());
            let pieces = split_non_alpha(&v);
            let mut i: usize = 0;
            assert(views(pieces@).subrange(0, pieces@.len() as int) =~= views(pieces@));
            while i < pieces.len()
                invariant
                    0 <= i <= pieces@.len(),
                    views(pieces@) == alpha_pieces(f@),
                    opt_str(*fragment) == Some(f@),
                    first_two_byte(alpha_pieces(f@)) == first_two_byte(
                        views(pieces@).subrange(i as int, pieces@.len() as int),
                    ),
                decreases pieces.len() - i,
            {
                proof {
                    assert(views(pieces@).subrange(i as int, pieces@.len() as int).drop_first()
                        =~= views(pieces@).subrange(i + 1, pieces@.len() as int));
                }
                assert(views(pieces@)[i as int] == pieces@[i as int]@);
                let p = pieces[i].as_str();
                if is_two_bytes(p) {
                    let ghost sub = views(pieces@).subrange(i as int, pieces@.len() as int);
                    assert(sub[0] == p@);
                    assert(first_two_byte(sub) == Some(p@));
                    assert(first_two_byte(alpha_pieces(f@)) == Some(p@));
                    let up = to_uppercase(p);

                    return Some(up);
                }
                i += 1;
            }
            None
        },
    }
}

/// A subscription line worth reading: not blank, not a comment, and a URL.
pub open spec fn sub_line_kept(t: Seq<char>) -> bool {
    t.len() > 0 && t[0] != '#' && url_parse(t) is Some
}

/// The trimmed lines of `text` that yield a configuration, in order.
pub open spec fn sub_lines(text: Seq<char>) -> Seq<Seq<char>> {
    spec_lines(text).map_values(|l: Seq<char>| spec_trim(l)).filter(|t: Seq<char>| sub_line_kept(t))
}

/// `c` is the configuration that the subscription line `t` describes, whose
/// parsed form is `u`.
pub open spec fn sub_config_from(c: ServerConfig, t: Seq<char>, u: UrlModel) -> bool {
    let protocol = unicode_lowercase(u.scheme);
    &&& c.id as int == spec_hash_id(t)
    &&& c.config_line@ == t
    &&& c.protocol@ == protocol
    &&& c.host@ == match u.host {
        Some(h) => h,
        None => Seq::<char>::empty(),
    }
    &&& c.port as int == match u.port {
        Some(p) => p as int,
        None => spec_default_port(protocol) as int,
    }
    &&& c.is_alive
    &&& c.source is None
    &&& c.health_score_milli == Some(500i64)
    &&& c.response_time_ms is None
    &&& opt_str(c.region) == fragment_region(u.fragment)
}

pub open spec fn sub_config(c: ServerConfig, t: Seq<char>) -> bool {
    match url_parse(t) {
        Some(u) => sub_config_from(c, t, u),
        None => false,
    }
}

/// The configuration a kept subscription line gives.
fn sub_entry(t: &str) -> (r: Option<ServerConfig>)
    ensures
        match r {
            Some(c) => url_parse(t@) is Some && sub_config(c, t@),
            None => url_parse(t@) is None,
        },
{
    match parse_url(t) {
        Err(_) => None,
        Ok(u) => {
            let protocol = to_lowercase(u.scheme.as_str());
            let host = match &u.host {
                Some(h) => h.clone(),
                None => String::new(),
            };
            let port: i32 = match u.port {
                Some(p) => p as i32,
                None => default_port(protocol.as_str()) as i32,
            };
            let region = region_of_fragment(&u.fragment);
            Some(ServerConfig {
                id: hash_id(t),
                config_line: string_from(t),
                protocol,
                host,
                port,
                is_alive: true,
                source: None,
                health_score_milli: Some(500),
                response_time_ms: None,
                region,
            })
        },
    }
}

/// The configurations a subscription text lists: one for each line that,
/// trimmed, is neither blank nor a comment and parses as a URL, in order.
pub fn parse_subscription(text: &str) -> (out: Vec<ServerConfig>)
    ensures
        out@.len() == sub_lines(text@).len(),
        forall|k: int| 0 <= k < out@.len() ==> sub_config(#[trigger] out@[k], sub_lines(text@)[k]),
{
    let ls = lines(text);
    let ghost trimmed = spec_lines(text@).map_values(|l: Seq<char>| spec_trim(l));
    let ghost pred = |t: Seq<char>| sub_line_kept(t);
    let mut out: Vec<ServerConfig> = Vec::new();
    let mut i: usize = 0;
    while i < ls.len()
        invariant
            0 <= i <= ls@.len(),
            views(ls@) == spec_lines(text@),
            trimmed == spec_lines(text@).map_values(|l: Seq<char>| spec_trim(l)),
            pred == (|t: Seq<char>| sub_line_kept(t)),
            out@.len() == trimmed.take(i as int).filter(pred).len(),
            forall|k: int|
                0 <= k < out@.len() ==> sub_config(
                    #[trigger] out@[k],
                    trimmed.take(i as int).filter(pred)[k],
                ),
        decreases ls.len() - i,
    {
        let t = trim(ls[i].as_str());
        assert(views(ls@)[i as int] == ls@[i as int]@);
        assert(t@ == trimmed[i as int]);
        proof {
            assert(trimmed.take(i + 1) =~= trimmed.take(i as int).push(trimmed[i as int]));
            trimmed.take(i as int).lemma_filter_push(trimmed[i as int], pred);
        }
        let tv = chars_of(t.as_str());
        let blank_or_comment = tv.len() == 0 || tv[0] == '#';
        if !blank_or_comment {
            match sub_entry(t.as_str()) {
                Some(c) => {
                    out.push(c);
                },
                None => {},
            }
        }
        i += 1;
    }
    assert(trimmed.take(ls@.len() as int) =~= trimmed);
    out
}

} // verus!

verus! {

/// `s` with every non-overlapping occurrence of `pat`, from the left,
/// replaced by `rep` (what `str::replace` does for a non-empty pattern).
pub open spec fn replace_all(s: Seq<char>, pat: Seq<char>, rep: Seq<char>) -> Seq<char>
    decreases s.len(),
{
    if pat.len() == 0 || s.len() < pat.len() {
        s
    } else if s.subrange(0, pat.len() as int) == pat {
        rep + replace_all(s.subrange(pat.len() as int, s.len() as int), pat, rep)
    } else {
        seq![s[0]] + replace_all(s.subrange(1, s.len() as int), pat, rep)
    }
}

/// `s` without its trailing `/` characters.
pub open spec fn trim_trailing_slashes(s: Seq<char>) -> Seq<char>
    decreases s.len(),
{
    if s.len() > 0 && s.last() == '/' {
        trim_trailing_slashes(s.drop_last())
    } else {
        s
    }
}

/// The endpoint used when the configuration names none.
pub open spec fn default_endpoint() -> Seq<char> {
    "/sub/{token}/all.txt"@
}

/// The address of the subscription of `token`: the base address without
/// trailing slashes, then the endpoint (the default one when it is empty)
/// with each `{token}` replaced by the token.
pub open spec fn spec_subscription_url(base: Seq<char>, endpoint: Seq<char>, token: Seq<char>) -> Seq<char> {
    let ep = if endpoint.len() == 0 {
        default_endpoint()
    } else {
        endpoint
    };
    trim_trailing_slashes(base) + replace_all(ep, "{token}"@, token)
}

fn replace_token(ep: &[char], token: &str) -> (r: String)
    ensures
        r@ == replace_all(ep@, "{token}"@, token@),
{
    let pat = crate::text::chars_of("{token}");
    proof {
        reveal_strlit("{token}");
    }
    let mut out = String::new();
    let mut i: usize = 0;
    let n = ep.len();
    assert(ep@.subrange(0, n as int) =~= ep@);
    while i < n
        invariant
            0 <= i <= n,
            n == ep@.len(),
            pat@ == "{token}"@,
            pat@.len() == 7,
            out@ + replace_all(ep@.subrange(i as int, n as int), pat@, token@) == replace_all(ep@, pat@, token@),
        decreases n - i,
    {
        let ghost rest = ep@.subrange(i as int, n as int);
        if crate::text::matches_at(ep, i, &pat) {
            assert(rest.subrange(0, 7) =~= ep@.subrange(i as int, i + 7));
            assert(rest.subrange(7, rest.len() as int) =~= ep@.subrange(i + 7, n as int));
            let ghost before = out@;
            out = crate::text::append_str(out, token);
            assert(out@ + replace_all(ep@.subrange(i + 7, n as int), pat@, token@) =~= before + replace_all(rest, pat@, token@));
            i = i + 7;
        } else {
            proof {
                if rest.len() >= 7 {
                    assert(rest.subrange(0, 7) =~= ep@.subrange(i as int, i + 7));
                }
            }
            assert(rest.subrange(1, rest.len() as int) =~= ep@.subrange(i + 1, n as int));
            let ghost before = out@;
            out.push(ep[i]);
            proof {
                if rest.len() >= 7 {
                    assert(out@ + replace_all(ep@.subrange(i + 1, n as int), pat@, token@) =~= before
                        + replace_all(rest, pat@, token@));
                } else {
                    assert(replace_all(rest, pat@, token@) == rest);
                    assert(replace_all(ep@.subrange(i + 1, n as int), pat@, token@) == ep@.subrange(
                        i + 1,
                        n as int,
                    ));
                    assert(out@ + replace_all(ep@.subrange(i + 1, n as int), pat@, token@) =~= before
                        + replace_all(rest, pat@, token@));
                }
            }
            i = i + 1;
        }
    }
    assert(ep@.subrange(n as int, n as int) =~= Seq::<char>::empty());
    assert(out@ + Seq::<char>::empty() =~= out@);
    out
}

/// The address of the subscription of `token` (see
/// [`spec_subscription_url`]).
pub fn subscription_url(base_url: &str, endpoint: &str, token: &str) -> (r: String)
    ensures
        r@ == spec_subscription_url(base_url@, endpoint@, token@),
{
    let b = chars_of(base_url);
    let mut end = b.len();
    assert(b@.subrange(0, end as int) =~= b@);
    while end > 0 && b[end - 1] == '/'
        invariant
            end <= b@.len(),
            b@ == base_url@,
            trim_trailing_slashes(b@) == trim_trailing_slashes(b@.subrange(0, end as int)),
        decreases end,
    {
        assert(b@.subrange(0, end as int).drop_last() =~= b@.subrange(0, end - 1));
        end -= 1;
    }
    let base = string_of(&b, 0, end);
    let ep = if endpoint.is_empty() {
        chars_of("/sub/{token}/all.txt")
    } else {
        chars_of(endpoint)
    };
    let tail = replace_token(&ep, token);
    crate::text::append_str(base, tail.as_str())
}

} // verus!
