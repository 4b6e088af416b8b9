//! The connection parameters that each protocol's share link carries.
use vstd::prelude::*;
use crate::bridge::{
    b64_std_decode, base64_decode, json_members_of, member_views, parse_json_members, parse_url, url_parse, utf8_lossy,
    utf8_lossy_text, JsonScalar, JsonScalarView,
};
use crate::error::WardenError;
use crate::text::{
    append_str, chars_of, find_char, first_index, spec_split, split_chars, starts_with_seq,
    str_eq, str_starts_with, string_from, string_of, views,
};
use crate::urls::{opt_str, pair_views, query_get, query_value, UrlModel};

verus! {

/// The message of a `ConfigParseError`, if `r` is one.
pub open spec fn parse_error_text<T>(r: Result<T, WardenError>) -> Option<Seq<char>> {
    match r {
        Err(WardenError::ConfigParseError(m)) => Some(m@),
        _ => None,
    }
}

/// The 32-byte WireGuard public key of a share link `wg://KEY@...` or
/// `wireguard://KEY@...`: the standard base64 of the user name.
pub open spec fn spec_wg_pubkey(line: Seq<char>) -> Option<Seq<u8>> {
    if !starts_with_seq(line, "wg://"@) && !starts_with_seq(line, "wireguard://"@) {
        None
    } else {
        match url_parse(line) {
            None => None,
            Some(u) => if u.username.len() == 0 {
                None
            } else {
                match b64_std_decode(u.username) {
                    Some(k) => if k.len() == 32 {
                        Some(k)
                    } else {
                        None
                    },
                    None => None,
                }
            },
        }
    }
}

pub fn extract_wg_pubkey(config_line: &str) -> (r: Option<[u8; 32]>)
    ensures
        match spec_wg_pubkey(config_line@) {
            Some(k) => r matches Some(a) && a@ == k,
            None => r is None,
        },
{
    if !str_starts_with(config_line, "wg://") && !str_starts_with(config_line, "wireguard://") {
        return None;
    }
    let u = match parse_url(config_line) {
        Ok(u) => u,
        Err(_) => return None,
    };
    if u.username.as_str().is_empty() {
        return None;
    }
    let decoded = match base64_decode(u.username.as_str()) {
        Ok(d) => d,
        Err(_) => return None,
    };
    if decoded.len() != 32 {
        return None;
    }
    let mut key = [0u8; 32];
    let mut i: usize = 0;
    while i < 32
        invariant
            0 <= i <= 32,
            decoded@.len() == 32,
            forall|j: int| 0 <= j < i ==> key@[j] == decoded@[j],
        decreases 32 - i,
    {
        key[i] = decoded[i];
        i += 1;
    }
    assert(key@ =~= decoded@);
    Some(key)
}

/// The comma-separated list that query value `key` holds, or nothing.
pub open spec fn query_list(u: UrlModel, key: Seq<char>) -> Seq<Seq<char>> {
    match query_value(u.query_pairs, key) {
        Some(v) => spec_split(v, ','),
        None => seq![],
    }
}

fn list_of(v: &Option<String>) -> (r: Vec<String>)
    ensures
        views(r@) == match opt_str(*v) {
            Some(s) => spec_split(s, ','),
            None => Seq::<Seq<char>>::empty(),
        },
{
    match v {
        Some(s) => {
            let cs = chars_of(s.as_str());
            assert(cs@.subrange(0, cs@.len() as int) =~= cs@);
            split_chars(&cs, 0, cs.len(), ',')
        },
        None => {
            let r: Vec<String> = Vec::new();
            assert(views(r@) =~= Seq::<Seq<char>>::empty());
            r
        },
    }
}

/// A query flag that is on when its value is `1` or `true`.
pub open spec fn query_flag(u: UrlModel, key: Seq<char>) -> bool {
    match query_value(u.query_pairs, key) {
        Some(v) => v == "1"@ || v == "true"@,
        None => false,
    }
}

fn flag_of(v: &Option<String>) -> (b: bool)
    ensures
        b == match opt_str(*v) {
            Some(s) => s == "1"@ || s == "true"@,
            None => false,
        },
{
    match v {
        Some(s) => str_eq(s.as_str(), "1") || str_eq(s.as_str(), "true"),
        None => false,
    }
}

/// The first present of two optional values.
pub open spec fn or_else(a: Option<Seq<char>>, b: Option<Seq<char>>) -> Option<Seq<char>> {
    match a {
        Some(x) => Some(x),
        None => b,
    }
}

/// The parameters of a VLESS share link.
#[derive(Debug, Clone)]
pub struct VlessParams {
    pub host: String,
    pub port: u16,
    pub uuid: String,
    pub sni: Option<String>,
    pub flow: Option<String>,
    pub security: Option<String>,
    pub alpn: Vec<String>,
    pub fingerprint: Option<String>,
    pub network: Option<String>,
    pub path: Option<String>,
    pub host_header: Option<String>,
}

impl VlessParams {
    /// Reads a `vless://UUID@...` link; `host` and `port` come from the
    /// configuration it belongs to (the port cut to 16 bits).
    pub fn from_config_line(line: &str, host: &str, port: i32) -> (r: Result<VlessParams, WardenError>)
        ensures
            !starts_with_seq(line@, "vless://"@) ==> parse_error_text(r) == Some("not a vless URL"@),
            starts_with_seq(line@, "vless://"@) ==> match url_parse(line@) {
                None => parse_error_text(r) matches Some(m) && starts_with_seq(m, "vless parse: "@),
                Some(u) => if u.username.len() == 0 {
                    parse_error_text(r) == Some("vless missing uuid"@)
                } else {
                    r matches Ok(p) && {
                        &&& p.host@ == host@
                        &&& p.port == port as u16
                        &&& p.uuid@ == u.username
                        &&& opt_str(p.sni) == or_else(
                            query_value(u.query_pairs, "sni"@),
                            query_value(u.query_pairs, "peer"@),
                        )
                        &&& opt_str(p.flow) == query_value(u.query_pairs, "flow"@)
                        &&& opt_str(p.security) == query_value(u.query_pairs, "security"@)
                        &&& views(p.alpn@) == query_list(u, "alpn"@)
                        &&& opt_str(p.fingerprint) == query_value(u.query_pairs, "fp"@)
                        &&& opt_str(p.network) == query_value(u.query_pairs, "type"@)
                        &&& opt_str(p.path) == query_value(u.query_pairs, "path"@)
                        &&& opt_str(p.host_header) == query_value(u.query_pairs, "host"@)
                    }
                },
            },
    {
        if !str_starts_with(line, "vless://") {
            return Err(WardenError::ConfigParseError(string_from("not a vless URL")));
        }
        let u = match parse_url(line) {
            Ok(u) => u,
            Err(e) => {
                let m = append_str(string_from("vless parse: "), crate::error::url_error_text(&e).as_str());
                proof {
                    reveal_strlit("vless parse: ");
                    assert(m@.subrange(0, 13) =~= "vless parse: "@);
                }
                return Err(WardenError::ConfigParseError(m));
            },
        };
        if u.username.as_str().is_empty() {
            return Err(WardenError::ConfigParseError(string_from("vless missing uuid")));
        }
        let sni = match query_get(&u.query_pairs, "sni") {
            Some(s) => Some(s),
            None => query_get(&u.query_pairs, "peer"),
        };
        let alpn = list_of(&query_get(&u.query_pairs, "alpn"));
        Ok(
            VlessParams {
                host: string_from(host),
                port: port as u16,
                uuid: u.username.clone(),
                sni,
                flow: query_get(&u.query_pairs, "flow"),
                security: query_get(&u.query_pairs, "security"),
                alpn,
                fingerprint: query_get(&u.query_pairs, "fp"),
                network: query_get(&u.query_pairs, "type"),
                path: query_get(&u.query_pairs, "path"),
                host_header: query_get(&u.query_pairs, "host"),
            },
        )
    }
}

/// The parameters of a Trojan share link.
#[derive(Debug, Clone)]
pub struct TrojanParams {
    pub host: String,
    pub port: u16,
    pub password: String,
    pub sni: Option<String>,
    pub alpn: Vec<String>,
    pub skip_verify: bool,
}

impl TrojanParams {
    /// Reads a `trojan://PASSWORD@...` link.
    pub fn from_config_line(line: &str, host: &str, port: i32) -> (r: Result<TrojanParams, WardenError>)
        ensures
            !starts_with_seq(line@, "trojan://"@) ==> parse_error_text(r) == Some("not a trojan URL"@),
            starts_with_seq(line@, "trojan://"@) ==> match url_parse(line@) {
                None => parse_error_text(r) matches Some(m) && starts_with_seq(m, "trojan parse: "@),
                Some(u) => if u.username.len() == 0 {
                    parse_error_text(r) == Some("trojan missing password"@)
                } else {
                    r matches Ok(p) && {
                        &&& p.host@ == host@
                        &&& p.port == port as u16
                        &&& p.password@ == u.username
                        &&& opt_str(p.sni) == or_else(
                            query_value(u.query_pairs, "sni"@),
                            query_value(u.query_pairs, "peer"@),
                        )
                        &&& views(p.alpn@) == query_list(u, "alpn"@)
                        &&& p.skip_verify == query_flag(u, "allowInsecure"@)
                    }
                },
            },
    {
        if !str_starts_with(line, "trojan://") {
            return Err(WardenError::ConfigParseError(string_from("not a trojan URL")));
        }
        let u = match parse_url(line) {
            Ok(u) => u,
            Err(e) => {
                let m = append_str(string_from("trojan parse: "), crate::error::url_error_text(&e).as_str());
                proof {
                    reveal_strlit("trojan parse: ");
                    assert(m@.subrange(0, 14) =~= "trojan parse: "@);
                }
                return Err(WardenError::ConfigParseError(m));
            },
        };
        if u.username.as_str().is_empty() {
            return Err(WardenError::ConfigParseError(string_from("trojan missing password")));
        }
        let sni = match query_get(&u.query_pairs, "sni") {
            Some(s) => Some(s),
            None => query_get(&u.query_pairs, "peer"),
        };
        let alpn = list_of(&query_get(&u.query_pairs, "alpn"));
        let skip_verify = flag_of(&query_get(&u.query_pairs, "allowInsecure"));
        Ok(
            TrojanParams {
                host: string_from(host),
                port: port as u16,
                password: u.username.clone(),
                sni,
                alpn,
                skip_verify,
            },
        )
    }
}

/// The parameters of a Hysteria2 share link.
#[derive(Debug, Clone)]
pub struct Hy2Params {
    pub host: String,
    pub port: u16,
    pub password: String,
    pub sni: Option<String>,
    pub obfs: Option<String>,
    pub alpn: Vec<String>,
    pub insecure: bool,
}

impl Hy2Params {
    /// Reads a `hysteria2://PASSWORD@...` or `hy2://PASSWORD@...` link.
    pub fn from_config_line(line: &str, host: &str, port: i32) -> (r: Result<Hy2Params, WardenError>)
        ensures
            !starts_with_seq(line@, "hysteria2://"@) && !starts_with_seq(line@, "hy2://"@)
                ==> parse_error_text(r) == Some("not a hysteria2 URL"@),
            starts_with_seq(line@, "hysteria2://"@) || starts_with_seq(line@, "hy2://"@) ==> match url_parse(line@) {
                None => parse_error_text(r) matches Some(m) && starts_with_seq(m, "hy2 parse: "@),
                Some(u) => if u.username.len() == 0 {
                    parse_error_text(r) == Some("hy2 missing password"@)
                } else {
                    r matches Ok(p) && {
                        &&& p.host@ == host@
                        &&& p.port == port as u16
                        &&& p.password@ == u.username
                        &&& opt_str(p.sni) == query_value(u.query_pairs, "sni"@)
                        &&& opt_str(p.obfs) == query_value(u.query_pairs, "obfs"@)
                        &&& views(p.alpn@) == query_list(u, "alpn"@)
                        &&& p.insecure == query_flag(u, "insecure"@)
                    }
                },
            },
    {
        if !str_starts_with(line, "hysteria2://") && !str_starts_with(line, "hy2://") {
            return Err(WardenError::ConfigParseError(string_from("not a hysteria2 URL")));
        }
        let u = match parse_url(line) {
            Ok(u) => u,
            Err(e) => {
                let m = append_str(string_from("hy2 parse: "), crate::error::url_error_text(&e).as_str());
                proof {
                    reveal_strlit("hy2 parse: ");
                    assert(m@.subrange(0, 11) =~= "hy2 parse: "@);
                }
                return Err(WardenError::ConfigParseError(m));
            },
        };
        if u.username.as_str().is_empty() {
            return Err(WardenError::ConfigParseError(string_from("hy2 missing password")));
        }
        let alpn = list_of(&query_get(&u.query_pairs, "alpn"));
        let insecure = flag_of(&query_get(&u.query_pairs, "insecure"));
        Ok(
            Hy2Params {
                host: string_from(host),
                port: port as u16,
                password: u.username.clone(),
                sni: query_get(&u.query_pairs, "sni"),
                obfs: query_get(&u.query_pairs, "obfs"),
                alpn,
                insecure,
            },
        )
    }
}

/// The parameters of a Shadowsocks share link.
#[derive(Debug, Clone)]
pub struct SsParams {
    pub host: String,
    pub port: u16,
    pub method: String,
    pub password: String,
}

/// The `method:password` text of a Shadowsocks user name: its base64
/// decoding (invalid UTF-8 replaced), or the user name itself when it is
/// not base64.
pub open spec fn ss_userinfo(username: Seq<char>) -> Seq<char> {
    match b64_std_decode(username) {
        Some(b) => utf8_lossy_text(b),
        None => username,
    }
}

/// The method (before the first `:`) and password (after it, or empty).
pub open spec fn ss_split(info: Seq<char>) -> (Seq<char>, Seq<char>) {
    match first_index(info, ':') {
        Some(i) => (info.subrange(0, i), info.subrange(i + 1, info.len() as int)),
        None => (info, Seq::<char>::empty()),
    }
}

impl SsParams {
    /// Reads an `ss://USERINFO@...` link.
    pub fn from_config_line(line: &str, host: &str, port: i32) -> (r: Result<SsParams, WardenError>)
        ensures
            !starts_with_seq(line@, "ss://"@) ==> parse_error_text(r) == Some("not an ss URL"@),
            starts_with_seq(line@, "ss://"@) ==> match url_parse(line@) {
                None => parse_error_text(r) matches Some(m) && starts_with_seq(m, "ss parse: "@),
                Some(u) => {
                    let (method, password) = ss_split(ss_userinfo(u.username));
                    if method.len() == 0 || password.len() == 0 {
                        parse_error_text(r) == Some("ss missing method/password"@)
                    } else {
                        r matches Ok(p) && p.host@ == host@ && p.port == port as u16 && p.method@
                            == method && p.password@ == password
                    }
                },
            },
    {
        if !str_starts_with(line, "ss://") {
            return Err(WardenError::ConfigParseError(string_from("not an ss URL")));
        }
        let u = match parse_url(line) {
            Ok(u) => u,
            Err(e) => {
                let m = append_str(string_from("ss parse: "), crate::error::url_error_text(&e).as_str());
                proof {
                    reveal_strlit("ss parse: ");
                    assert(m@.subrange(0, 10) =~= "ss parse: "@);
                }
                return Err(WardenError::ConfigParseError(m));
            },
        };
        let info = match base64_decode(u.username.as_str()) {
            Ok(b) => utf8_lossy(b.as_slice()),
            Err(_) => u.username.clone(),
        };
        let v = chars_of(info.as_str());
        assert(v@.subrange(0, v@.len() as int) =~= v@);
        let (method, password) = match find_char(&v, 0, v.len(), ':') {
            Some(i) => (string_of(&v, 0, i), string_of(&v, i + 1, v.len())),
            None => (string_of(&v, 0, v.len()), String::new()),
        };
        if method.as_str().is_empty() || password.as_str().is_empty() {
            return Err(WardenError::ConfigParseError(string_from("ss missing method/password")));
        }
        Ok(SsParams { host: string_from(host), port: port as u16, method, password })
    }
}

} // verus!

verus! {

/// `s` with every leading copy of `prefix` removed (what
/// `str::trim_start_matches` does with a non-empty text pattern).
pub open spec fn strip_all_prefix(s: Seq<char>, prefix: Seq<char>) -> Seq<char>
    decreases s.len(),
{
    if prefix.len() > 0 && starts_with_seq(s, prefix) {
        strip_all_prefix(s.subrange(prefix.len() as int, s.len() as int), prefix)
    } else {
        s
    }
}

/// The members of a JSON document's top-level object that hold a string,
/// and those that hold an integer that fits in an `i64`.
pub struct JsonFields {
    pub strings: Vec<(String, String)>,
    pub integers: Vec<(String, i64)>,
}

/// The view of a [`JsonFields`].
pub struct JsonFieldsModel {
    pub strings: Seq<(Seq<char>, Seq<char>)>,
    pub integers: Seq<(Seq<char>, i64)>,
}

impl View for JsonFields {
    type V = JsonFieldsModel;

    open spec fn view(&self) -> JsonFieldsModel {
        JsonFieldsModel {
            strings: crate::urls::pair_views(self.strings@),
            integers: self.integers@.map_values(|p: (String, i64)| (p.0@, p.1)),
        }
    }
}

/// The text members of `ms`, in order.
pub open spec fn text_members(ms: Seq<(Seq<char>, JsonScalarView)>) -> Seq<(Seq<char>, Seq<char>)>
    decreases ms.len(),
{
    if ms.len() == 0 {
        seq![]
    } else {
        let rest = text_members(ms.drop_last());
        match ms.last().1 {
            JsonScalarView::Text(t) => rest.push((ms.last().0, t)),
            _ => rest,
        }
    }
}

/// The integer members of `ms`, in order.
pub open spec fn integer_members(ms: Seq<(Seq<char>, JsonScalarView)>) -> Seq<(Seq<char>, i64)>
    decreases ms.len(),
{
    if ms.len() == 0 {
        seq![]
    } else {
        let rest = integer_members(ms.drop_last());
        match ms.last().1 {
            JsonScalarView::Integer(i) => rest.push((ms.last().0, i)),
            _ => rest,
        }
    }
}

/// What the JSON document `b` says, split into its text and integer
/// members; `None` where the bytes are not JSON.
pub open spec fn json_fields_of(b: Seq<u8>) -> Option<JsonFieldsModel> {
    match json_members_of(b) {
        Some(ms) => Some(JsonFieldsModel { strings: text_members(ms), integers: integer_members(ms) }),
        None => None,
    }
}

impl JsonFields {
    /// The text and the integer members of `ms`, each in order.
    pub fn from_members(ms: Vec<(String, JsonScalar)>) -> (f: JsonFields)
        ensures
            f@.strings == text_members(member_views(ms@)),
            f@.integers == integer_members(member_views(ms@)),
    {
        let ghost mv = member_views(ms@);
        let mut strings: Vec<(String, String)> = Vec::new();
        let mut integers: Vec<(String, i64)> = Vec::new();
        let mut i: usize = 0;
        while i < ms.len()
            invariant
                0 <= i <= ms@.len(),
                mv == member_views(ms@),
                crate::urls::pair_views(strings@) == text_members(mv.take(i as int)),
                integers@.map_values(|p: (String, i64)| (p.0@, p.1)) == integer_members(mv.take(i as int)),
            decreases ms.len() - i,
        {
            proof {
                assert(mv.take(i + 1).drop_last() =~= mv.take(i as int));
                assert(mv.take(i + 1).last() == mv[i as int]);
            }
            let (k, x) = (&ms[i].0, &ms[i].1);
            match x {
                JsonScalar::Text(t) => {
                    let ghost before = strings@;
                    strings.push((k.clone(), t.clone()));
                    assert(crate::urls::pair_views(strings@) =~= crate::urls::pair_views(before).push((k@, t@)));
                },
                JsonScalar::Integer(n) => {
                    let ghost before = integers@;
                    integers.push((k.clone(), *n));
                    assert(integers@.map_values(|p: (String, i64)| (p.0@, p.1)) =~= before.map_values(
                        |p: (String, i64)| (p.0@, p.1),
                    ).push((k@, *n)));
                },
                JsonScalar::Other => {},
            }
            i += 1;
        }
        assert(mv.take(ms@.len() as int) =~= mv);
        JsonFields { strings, integers }
    }
}

/// Reads the JSON document `bytes` into its text and integer members; on
/// failure, the text of the JSON error.
pub fn parse_json_fields(bytes: &[u8]) -> (r: Result<JsonFields, String>)
    ensures
        r is Ok <==> json_fields_of(bytes@) is Some,
        r matches Ok(f) ==> json_fields_of(bytes@) == Some(f@),
{
    match parse_json_members(bytes) {
        Ok(ms) => Ok(JsonFields::from_members(ms)),
        Err(e) => Err(e),
    }
}

/// The value of the last integer member named `key`.
pub open spec fn int_value(pairs: Seq<(Seq<char>, i64)>, key: Seq<char>) -> Option<i64>
    decreases pairs.len(),
{
    if pairs.len() == 0 {
        None
    } else if pairs.last().0 == key {
        Some(pairs.last().1)
    } else {
        int_value(pairs.drop_last(), key)
    }
}

fn int_get(f: &JsonFields, key: &str) -> (r: Option<i64>)
    ensures
        r == int_value(f@.integers, key@),
{
    let pairs = &f.integers;
    let ghost view = pairs@.map_values(|p: (String, i64)| (p.0@, p.1));
    let mut i = pairs.len();
    assert(view.take(pairs@.len() as int) =~= view);
    while i > 0
        invariant
            i <= pairs@.len(),
            view == pairs@.map_values(|p: (String, i64)| (p.0@, p.1)),
            view == f@.integers,
            int_value(view, key@) == int_value(view.take(i as int), key@),
        decreases i,
    {
        assert(view.take(i as int).drop_last() =~= view.take(i - 1));
        assert(view[i - 1] == (pairs@[i - 1].0@, pairs@[i - 1].1));
        if str_eq(pairs[i - 1].0.as_str(), key) {
            return Some(pairs[i - 1].1);
        }
        i -= 1;
    }
    None
}

/// The parameters of a VMess share link.
#[derive(Debug, Clone)]
pub struct VmessParams {
    pub host: String,
    pub port: u16,
    pub uuid: String,
    pub alter_id: i32,
    pub security: String,
    pub network: Option<String>,
    pub tls: bool,
    pub sni: Option<String>,
    pub path: Option<String>,
    pub host_header: Option<String>,
}

/// `p` holds what the VMess JSON members `j` say, for `host` and `port`.
pub open spec fn vmess_from(p: VmessParams, j: JsonFieldsModel, host: Seq<char>, port: i32) -> bool {
    &&& p.host@ == host
    &&& p.port == port as u16
    &&& Some(p.uuid@) == query_value(j.strings, "id"@)
    &&& p.alter_id == match int_value(j.integers, "aid"@) {
        Some(x) => x as i32,
        None => 0i32,
    }
    &&& p.security@ == match query_value(j.strings, "scy"@) {
        Some(s) => s,
        None => "auto"@,
    }
    &&& opt_str(p.network) == query_value(j.strings, "net"@)
    &&& p.tls == (query_value(j.strings, "tls"@) == Some("tls"@))
    &&& opt_str(p.sni) == query_value(j.strings, "sni"@)
    &&& opt_str(p.path) == query_value(j.strings, "path"@)
    &&& opt_str(p.host_header) == query_value(j.strings, "host"@)
}

impl VmessParams {
    /// Reads a `vmess://BASE64` link, whose payload is a JSON object.
    pub fn from_config_line(line: &str, host: &str, port: i32) -> (r: Result<VmessParams, WardenError>)
        ensures
            !starts_with_seq(line@, "vmess://"@) ==> parse_error_text(r) == Some("not a vmess URL"@),
            starts_with_seq(line@, "vmess://"@) ==> match b64_std_decode(strip_all_prefix(line@, "vmess://"@)) {
                None => parse_error_text(r) matches Some(m) && starts_with_seq(m, "vmess base64: "@),
                Some(b) => match json_fields_of(b) {
                    None => parse_error_text(r) matches Some(m) && starts_with_seq(m, "vmess json: "@),
                    Some(j) => if query_value(j.strings, "id"@) is None {
                        parse_error_text(r) == Some("vmess missing id"@)
                    } else {
                        r matches Ok(p) && vmess_from(p, j, host@, port)
                    },
                },
            },
    {
        if !str_starts_with(line, "vmess://") {
            return Err(WardenError::ConfigParseError(string_from("not a vmess URL")));
        }
        let v = chars_of(line);
        let prefix = chars_of("vmess://");
        proof {
            reveal_strlit("vmess://");
        }
        let mut start: usize = 0;
        assert(v@.subrange(0, v@.len() as int) =~= v@);
        let mut more = crate::text::matches_at(&v, start, &prefix);
        let n = v.len();
        while more
            invariant
                start <= v@.len(),
                v@.len() == n,
                v@ == line@,
                prefix@ == "vmess://"@,
                prefix@.len() == 8,
                more == crate::text::occurs_at(v@, prefix@, start as int),
                strip_all_prefix(v@, prefix@) == strip_all_prefix(v@.subrange(start as int, v@.len() as int), prefix@),
            decreases v@.len() - start,
        {
            let ghost rest = v@.subrange(start as int, v@.len() as int);
            assert(rest.subrange(0, 8) =~= v@.subrange(start as int, start + 8));
            assert(rest.subrange(8, rest.len() as int) =~= v@.subrange(start + 8, v@.len() as int));
            start = start + 8;
            more = crate::text::matches_at(&v, start, &prefix);
        }
        proof {
            let rest = v@.subrange(start as int, v@.len() as int);
            if starts_with_seq(rest, prefix@) {
                assert(rest.subrange(0, 8) =~= v@.subrange(start as int, start + 8));
            }
        }
        let payload = string_of(&v, start, v.len());
        let decoded = match base64_decode(payload.as_str()) {
            Ok(d) => d,
            Err(e) => {
                let m = append_str(string_from("vmess base64: "), e.as_str());
                proof {
                    reveal_strlit("vmess base64: ");
                    assert(m@.subrange(0, 14) =~= "vmess base64: "@);
                }
                return Err(WardenError::ConfigParseError(m));
            },
        };
        let json = match parse_json_fields(decoded.as_slice()) {
            Ok(j) => j,
            Err(e) => {
                let m = append_str(string_from("vmess json: "), e.as_str());
                proof {
                    reveal_strlit("vmess json: ");
                    assert(m@.subrange(0, 12) =~= "vmess json: "@);
                }
                return Err(WardenError::ConfigParseError(m));
            },
        };
        let uuid = match query_get(&json.strings, "id") {
            Some(s) => s,
            None => return Err(WardenError::ConfigParseError(string_from("vmess missing id"))),
        };
        let alter_id: i32 = match int_get(&json, "aid") {
            Some(x) => x as i32,
            None => 0,
        };
        let security = match query_get(&json.strings, "scy") {
            Some(s) => s,
            None => string_from("auto"),
        };
        let tls = match query_get(&json.strings, "tls") {
            Some(s) => str_eq(s.as_str(), "tls"),
            None => false,
        };
        Ok(
            VmessParams {
                host: string_from(host),
                port: port as u16,
                uuid,
                alter_id,
                security,
                network: query_get(&json.strings, "net"),
                tls,
                sni: query_get(&json.strings, "sni"),
                path: query_get(&json.strings, "path"),
                host_header: query_get(&json.strings, "host"),
            },
        )
    }
}

} // verus!
