//! The Trojan handshake.
use vstd::prelude::*;
use crate::bridge::{hex_encode, hex_lower, sha224, sha224_digest};
use crate::protocol_helpers::TrojanParams;
use crate::text::{append_str, string_from};
use crate::urls::opt_str;
use vstd::utf8::encode_utf8;

verus! {

/// An open Trojan tunnel.
#[derive(Debug)]
pub struct TrojanTunnel {
    pub host: String,
    pub port: u16,
    pub session_id: String,
}

/// The line that authenticates a Trojan client: the lower-case hex of the
/// SHA-224 digest of the password, then CRLF.
pub open spec fn auth_line(password: Seq<char>) -> Seq<char> {
    hex_lower(sha224_digest(encode_utf8(password))) + "\r\n"@
}

/// The authentication line for `password`.
pub fn auth_prefix(password: &str) -> (s: String)
    ensures
        s@ == auth_line(password@),
{
    let digest = sha224(password.as_bytes());
    let hash = hex_encode(digest.as_slice());
    append_str(hash, "\r\n")
}

/// The CONNECT target of a Trojan tunnel: the SNI host (else the server
/// host) on port 443.
pub open spec fn connect_target(p: TrojanParams) -> Seq<char> {
    let host = match opt_str(p.sni) {
        Some(s) => s,
        None => p.host@,
    };
    host + ":443"@
}

/// The handshake a Trojan tunnel opens with: the authentication line, then
/// an HTTP CONNECT request to the target.
pub open spec fn handshake_text(p: TrojanParams) -> Seq<char> {
    auth_line(p.password@) + "CONNECT "@ + connect_target(p) + " HTTP/1.1\r\n"@ + "Host: "@
        + connect_target(p) + "\r\n"@ + "\r\n"@
}

pub fn handshake(params: &TrojanParams) -> (s: String)
    ensures
        s@ == handshake_text(*params),
{
    let mut target = match &params.sni {
        Some(s) => s.clone(),
        None => params.host.clone(),
    };
    target = append_str(target, ":443");
    let mut s = auth_prefix(params.password.as_str());
    s = append_str(s, "CONNECT ");
    s = append_str(s, target.as_str());
    s = append_str(s, " HTTP/1.1\r\n");
    s = append_str(s, "Host: ");
    s = append_str(s, target.as_str());
    s = append_str(s, "\r\n");
    s = append_str(s, "\r\n");
    s
}

} // verus!
