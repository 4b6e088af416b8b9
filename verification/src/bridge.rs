//! The calls this library makes into other crates and into the parts of the
//! standard library that have no specification of their own. Each item here
//! is trusted: its contract is believed, not proved.
use vstd::prelude::*;
use crate::urls::UrlParts;

verus! {

/// The character that stands for the 6-bit value `v` in the URL-safe base64
/// alphabet (`A-Z`, `a-z`, `0-9`, `-`, `_`).
pub open spec fn b64_url_char(v: int) -> char {
    if v < 26 {
        ((65 + v) as u32) as char
    } else if v < 52 {
        ((97 + v - 26) as u32) as char
    } else if v < 62 {
        ((48 + v - 52) as u32) as char
    } else if v == 62 {
        '-'
    } else {
        '_'
    }
}

/// URL-safe base64 of `b` without padding: each group of three bytes gives
/// four characters, a trailing pair gives three and a trailing byte two.
pub open spec fn b64_url_nopad(b: Seq<u8>) -> Seq<char>
    decreases b.len(),
{
    if b.len() >= 3 {
        seq![
            b64_url_char(b[0] as int / 4),
            b64_url_char((b[0] % 4) * 16 + b[1] / 16),
            b64_url_char((b[1] % 16) * 4 + b[2] / 64),
            b64_url_char(b[2] as int % 64),
        ] + b64_url_nopad(b.subrange(3, b.len() as int))
    } else if b.len() == 2 {
        seq![
            b64_url_char(b[0] as int / 4),
            b64_url_char((b[0] % 4) * 16 + b[1] / 16),
            b64_url_char((b[1] % 16) * 4),
        ]
    } else if b.len() == 1 {
        seq![b64_url_char(b[0] as int / 4), b64_url_char((b[0] % 4) * 16)]
    } else {
        seq![]
    }
}

pub proof fn lemma_b64_url_nopad_len(b: Seq<u8>)
    ensures
        b64_url_nopad(b).len() == 4 * (b.len() / 3) + (if b.len() % 3 == 0 {
            0int
        } else if b.len() % 3 == 1 {
            2int
        } else {
            3int
        }),
    decreases b.len(),
{
    if b.len() >= 3 {
        lemma_b64_url_nopad_len(b.subrange(3, b.len() as int));
    }
}

/// `base64::engine::general_purpose::URL_SAFE_NO_PAD.encode`: the URL-safe
/// base64 text of `bytes`, without padding.
#[verifier::external_body]
pub(crate) fn base64_url_nopad_encode(bytes: &[u8]) -> (s: String)
    ensures
        s@ == b64_url_nopad(bytes@),
{
    base64::Engine::encode(&base64::engine::general_purpose::URL_SAFE_NO_PAD, bytes)
}

/// `ring::rand::SystemRandom::fill`: overwrites `buf` with bytes from the
/// operating system's generator. Nothing is promised of the bytes; when the
/// generator fails the buffer is left as it was.
#[verifier::external_body]
pub(crate) fn system_random_fill(buf: &mut [u8])
    ensures
        final(buf)@.len() == old(buf)@.len(),
{
    let _ = ring::rand::SecureRandom::fill(&ring::rand::SystemRandom::new(), buf);
}

} // verus!

verus! {

/// What `str::to_lowercase` gives of `s` (full Unicode lower-casing).
pub uninterp spec fn unicode_lowercase(s: Seq<char>) -> Seq<char>;

/// `str::to_lowercase`.
#[verifier::external_body]
pub(crate) fn to_lowercase(s: &str) -> (r: String)
    ensures
        r@ == unicode_lowercase(s@),
{
    s.to_lowercase()
}

/// The current wall-clock time in milliseconds since the Unix epoch, from
/// `SystemTime::now`. Nothing is promised of the value.
#[verifier::external_body]
pub(crate) fn now_millis() -> u64 {
    std::time::SystemTime::now()
        .duration_since(std::time::UNIX_EPOCH)
        .map(|d| d.as_millis() as u64)
        .unwrap_or(0)
}

} // verus!

verus! {

/// What `url::Url::parse` makes of the text `s`: `None` where it fails,
/// else the parts of the parsed URL.
pub uninterp spec fn url_parse(s: Seq<char>) -> Option<crate::urls::UrlModel>;

/// `url::Url::parse`, with the parsed URL taken apart into scheme, user
/// name, password, host, port, path, decoded query pairs and fragment.
/// Claimed: whether it succeeds, and the parts, are a function of the text
/// alone. Nothing is claimed of the error value.
#[verifier::external_body]
pub(crate) fn parse_url(s: &str) -> (r: Result<UrlParts, url::ParseError>)
    ensures
        r is Ok <==> url_parse(s@) is Some,
        r matches Ok(u) ==> url_parse(s@) == Some(u@),
{
    let u = url::Url::parse(s)?;
    Ok(UrlParts {
        scheme: u.scheme().to_string(),
        username: u.username().to_string(),
        password: u.password().map(|p| p.to_string()),
        host: u.host_str().map(|h| h.to_string()),
        port: u.port(),
        path: u.path().to_string(),
        query_pairs: u.query_pairs().map(|(k, v)| (k.into_owned(), v.into_owned())).collect(),
        fragment: u.fragment().map(|f| f.to_string()),
    })
}

/// What the standard base64 engine (`A-Z a-z 0-9 + /`, with `=` padding)
/// decodes of the text `s`, or `None` where it refuses it.
pub uninterp spec fn b64_std_decode(s: Seq<char>) -> Option<Seq<u8>>;

/// `base64::engine::general_purpose::STANDARD.decode`; on failure, the
/// text of the decode error (nothing is claimed of that text).
#[verifier::external_body]
pub(crate) fn base64_decode(s: &str) -> (r: Result<Vec<u8>, String>)
    ensures
        r is Ok <==> b64_std_decode(s@) is Some,
        r matches Ok(b) ==> b64_std_decode(s@) == Some(b@),
{
    base64::Engine::decode(&base64::engine::general_purpose::STANDARD, s).map_err(|e| e.to_string())
}

/// `String::from_utf8`: the text the bytes encode when they are valid UTF-8,
/// else `None`.
#[verifier::external_body]
pub(crate) fn utf8_string(bytes: Vec<u8>) -> (r: Option<String>)
    ensures
        r is Some <==> vstd::utf8::valid_utf8(bytes@),
        r matches Some(s) ==> s@ == vstd::utf8::decode_utf8(bytes@),
{
    String::from_utf8(bytes).ok()
}

/// What `String::from_utf8_lossy` makes of `b`: its text, with each invalid
/// sequence replaced by U+FFFD.
pub uninterp spec fn utf8_lossy_text(b: Seq<u8>) -> Seq<char>;

/// `String::from_utf8_lossy`. On valid UTF-8 it is the decoded text.
#[verifier::external_body]
pub(crate) fn utf8_lossy(bytes: &[u8]) -> (r: String)
    ensures
        r@ == utf8_lossy_text(bytes@),
        vstd::utf8::valid_utf8(bytes@) ==> r@ == vstd::utf8::decode_utf8(bytes@),
{
    String::from_utf8_lossy(bytes).into_owned()
}

/// What `DefaultHasher::new()` gives for the text `s` after `s.hash(..)`
/// and `finish()`: a fixed function of `s` in a given build.
pub uninterp spec fn std_str_hash(s: Seq<char>) -> u64;

/// Hashes `s` with a fresh `std::collections::hash_map::DefaultHasher`.
#[verifier::external_body]
pub(crate) fn default_hash(s: &str) -> (h: u64)
    ensures
        h == std_str_hash(s@),
{
    let mut hasher = std::collections::hash_map::DefaultHasher::new();
    std::hash::Hash::hash(s, &mut hasher);
    std::hash::Hasher::finish(&hasher)
}

/// What `str::to_uppercase` gives of `s` (full Unicode upper-casing).
pub uninterp spec fn unicode_uppercase(s: Seq<char>) -> Seq<char>;

/// `str::to_uppercase`.
#[verifier::external_body]
pub(crate) fn to_uppercase(s: &str) -> (r: String)
    ensures
        r@ == unicode_uppercase(s@),
{
    s.to_uppercase()
}

/// Whether `c` has the Unicode `Alphabetic` property.
pub uninterp spec fn unicode_alphabetic(c: char) -> bool;

/// `char::is_alphabetic`.
#[verifier::external_body]
pub(crate) fn is_alphabetic(c: char) -> (b: bool)
    ensures
        b == unicode_alphabetic(c),
{
    c.is_alphabetic()
}

/// A lower-case hexadecimal digit.
pub open spec fn is_lower_hex(c: char) -> bool {
    ('0' <= c && c <= '9') || ('a' <= c && c <= 'f')
}

/// The hyphenated lower-case text of a version-4 UUID: 36 characters,
/// hyphens at positions 8, 13, 18 and 23 and lower-case hexadecimal digits
/// elsewhere, the version digit `4` at position 14 and one of `8`, `9`,
/// `a`, `b` (the RFC variant) at position 19.
pub open spec fn is_v4_uuid_text(s: Seq<char>) -> bool {
    &&& s.len() == 36
    &&& forall|i: int|
        0 <= i < 36 ==> if i == 8 || i == 13 || i == 18 || i == 23 {
            #[trigger] s[i] == '-'
        } else {
            is_lower_hex(s[i])
        }
    &&& s[14] == '4'
    &&& (s[19] == '8' || s[19] == '9' || s[19] == 'a' || s[19] == 'b')
}

/// A fresh random (version 4) UUID in its hyphenated text form, from
/// `uuid::Uuid::new_v4().to_string()`. `new_v4` sets the version and
/// variant bits of random bytes, and `Display` writes the hyphenated
/// lower-case form; which random digits come out is not promised.
#[verifier::external_body]
pub(crate) fn new_uuid_v4() -> (s: String)
    ensures
        is_v4_uuid_text(s@),
{
    uuid::Uuid::new_v4().to_string()
}

} // verus!

verus! {

/// A JSON value, by the kinds the library reads: text, a number that fits
/// in an `i64`, or anything else.
#[derive(Debug, Clone)]
pub enum JsonScalar {
    Text(String),
    Integer(i64),
    Other,
}

/// The view of a [`JsonScalar`].
pub enum JsonScalarView {
    Text(Seq<char>),
    Integer(i64),
    Other,
}

pub open spec fn scalar_view(x: JsonScalar) -> JsonScalarView {
    match x {
        JsonScalar::Text(s) => JsonScalarView::Text(s@),
        JsonScalar::Integer(i) => JsonScalarView::Integer(i),
        JsonScalar::Other => JsonScalarView::Other,
    }
}

pub open spec fn member_views(v: Seq<(String, JsonScalar)>) -> Seq<(Seq<char>, JsonScalarView)> {
    v.map_values(|m: (String, JsonScalar)| (m.0@, scalar_view(m.1)))
}

/// The members of the top-level object of the JSON document `b`, in the
/// order `serde_json` keeps them (none when the document is not an
/// object); `None` where the bytes are not JSON.
pub uninterp spec fn json_members_of(b: Seq<u8>) -> Option<Seq<(Seq<char>, JsonScalarView)>>;

/// `serde_json::from_slice` into a `serde_json::Value`, with the members of
/// its top-level object taken one for one: a string as text, a number as
/// `as_i64` gives it, anything else as other. On failure, the text of the
/// JSON error (nothing is claimed of that text).
#[verifier::external_body]
pub(crate) fn parse_json_members(bytes: &[u8]) -> (r: Result<Vec<(String, JsonScalar)>, String>)
    ensures
        r is Ok <==> json_members_of(bytes@) is Some,
        r matches Ok(m) ==> json_members_of(bytes@) == Some(member_views(m@)),
{
    let members = match serde_json::from_slice(bytes).map_err(|e| e.to_string())? {
        serde_json::Value::Object(m) => m,
        _ => serde_json::Map::new(),
    };
    Ok(members.into_iter().map(|(k, x)| (k, match x {
        serde_json::Value::String(s) => JsonScalar::Text(s),
        serde_json::Value::Number(n) => n.as_i64().map_or(JsonScalar::Other, JsonScalar::Integer),
        _ => JsonScalar::Other,
    })).collect())
}

} // verus!


verus! {

/// The 16 bytes of the UUID that `uuid::Uuid::parse_str` reads from `s`, or
/// `None` where it refuses the text.
pub uninterp spec fn uuid_parse(s: Seq<char>) -> Option<Seq<u8>>;

/// `uuid::Uuid::parse_str(s)` followed by `as_bytes`; on failure, the text
/// of the parse error (nothing is claimed of that text).
#[verifier::external_body]
pub(crate) fn uuid_bytes(s: &str) -> (r: Result<[u8; 16], String>)
    ensures
        r is Ok <==> uuid_parse(s@) is Some,
        r matches Ok(b) ==> uuid_parse(s@) == Some(b@),
{
    uuid::Uuid::parse_str(s).map(|u| *u.as_bytes()).map_err(|e| e.to_string())
}

/// The SHA-224 digest of `b`.
pub uninterp spec fn sha224_digest(b: Seq<u8>) -> Seq<u8>;

/// `sha2::Sha224::digest`: the 28-byte SHA-224 digest of `data`.
#[verifier::external_body]
pub(crate) fn sha224(data: &[u8]) -> (d: Vec<u8>)
    ensures
        d@ == sha224_digest(data@),
        d@.len() == 28,
{
    <sha2::Sha224 as sha2::Digest>::digest(data).to_vec()
}

/// The lower-case hexadecimal digit for `v` (0 to 15).
pub open spec fn hex_digit(v: int) -> char {
    if v < 10 {
        ((48 + v) as u32) as char
    } else {
        ((87 + v) as u32) as char
    }
}

/// Lower-case hexadecimal text of `b`: two digits per byte, high first.
pub open spec fn hex_lower(b: Seq<u8>) -> Seq<char>
    decreases b.len(),
{
    if b.len() == 0 {
        seq![]
    } else {
        hex_lower(b.drop_last()) + seq![hex_digit(b.last() as int / 16), hex_digit(b.last() as int % 16)]
    }
}

/// `hex::encode`: the lower-case hexadecimal text of `data`.
#[verifier::external_body]
pub(crate) fn hex_encode(data: &[u8]) -> (s: String)
    ensures
        s@ == hex_lower(data@),
{
    hex::encode(data)
}

} // verus!

verus! {

/// `rand::rngs::StdRng`, the seedable generator the ternary vectors are
/// drawn from.
#[verifier::external_type_specification]
#[verifier::external_body]
pub struct ExStdRng(rand::rngs::StdRng);

/// `Uniform::from(0..n).sample(rng)` from `rand`: a value drawn uniformly
/// from `0..n`, advancing `rng`. Only the range is promised.
/// (`Uniform::new` panics on an empty range, hence `n > 0`.)
#[verifier::external_body]
pub(crate) fn sample_below(rng: &mut rand::rngs::StdRng, n: u8) -> (r: u8)
    requires
        n > 0,
    ensures
        r < n,
{
    rand::distributions::Distribution::sample(&rand::distributions::Uniform::from(0..n), rng)
}

} // verus!

verus! {

/// `rand::rngs::OsRng.try_fill_bytes(buf)`: fills `buf` from the operating
/// system's generator; on failure, the text of the error, and nothing is
/// promised of the buffer's bytes. Only the length is kept either way.
#[verifier::external_body]
pub(crate) fn os_random_fill(buf: &mut [u8]) -> (r: Result<(), String>)
    ensures
        final(buf)@.len() == old(buf)@.len(),
{
    rand::RngCore::try_fill_bytes(&mut rand::rngs::OsRng, buf).map_err(|e| e.to_string())
}

} // verus!

verus! {

/// The character that stands for the 6-bit value `v` in the standard
/// base64 alphabet (`A-Z`, `a-z`, `0-9`, `+`, `/`).
pub open spec fn b64_std_char(v: int) -> char {
    if v == 62 {
        '+'
    } else if v == 63 {
        '/'
    } else {
        b64_url_char(v)
    }
}

/// Standard base64 of `b` with `=` padding: each group of three bytes gives
/// four characters, a trailing pair three and `=`, a trailing byte two and
/// `==`.
pub open spec fn b64_std_pad(b: Seq<u8>) -> Seq<char>
    decreases b.len(),
{
    if b.len() >= 3 {
        seq![
            b64_std_char(b[0] as int / 4),
            b64_std_char((b[0] % 4) * 16 + b[1] / 16),
            b64_std_char((b[1] % 16) * 4 + b[2] / 64),
            b64_std_char(b[2] as int % 64),
        ] + b64_std_pad(b.subrange(3, b.len() as int))
    } else if b.len() == 2 {
        seq![
            b64_std_char(b[0] as int / 4),
            b64_std_char((b[0] % 4) * 16 + b[1] / 16),
            b64_std_char((b[1] % 16) * 4),
            '=',
        ]
    } else if b.len() == 1 {
        seq![b64_std_char(b[0] as int / 4), b64_std_char((b[0] % 4) * 16), '=', '=']
    } else {
        seq![]
    }
}

/// `base64::engine::general_purpose::STANDARD.encode`: the standard base64
/// text of `bytes`, padded with `=`.
#[verifier::external_body]
pub(crate) fn base64_std_encode(bytes: &[u8]) -> (s: String)
    ensures
        s@ == b64_std_pad(bytes@),
{
    base64::Engine::encode(&base64::engine::general_purpose::STANDARD, bytes)
}

} // verus!

verus! {

/// `str::parse::<u16>`. As its documentation says, it accepts an optional
/// `+` followed by one or more decimal digits whose value fits in a `u16`.
/// On failure, the text that the `ParseIntError` displays (nothing is
/// claimed of that text).
#[verifier::external_body]
pub(crate) fn parse_u16(s: &str) -> (r: Result<u16, String>)
    ensures
        match crate::text::spec_parse_unsigned(s@, 0xffff) {
            Some(n) => r matches Ok(x) && x == n,
            None => r is Err,
        },
{
    s.parse::<u16>().map_err(|e| e.to_string())
}

} // verus!
