//! The VLESS request header.
use vstd::prelude::*;
use crate::bridge::{uuid_bytes, uuid_parse};
use crate::error::WardenError;
use crate::protocol_helpers::VlessParams;
use crate::text::{append_str, starts_with_seq, string_from};
use crate::urls::opt_str;
use vstd::utf8::encode_utf8;

verus! {

/// An open VLESS tunnel and its byte counters.
#[derive(Debug)]
pub struct VlessTunnel {
    pub host: String,
    pub port: u16,
    pub session_id: String,
    pub bytes_tx: u64,
    pub bytes_rx: u64,
}

impl VlessTunnel {
    /// The bytes sent and received.
    pub fn stats(&self) -> (r: (u64, u64))
        ensures
            r == (self.bytes_tx, self.bytes_rx),
    {
        (self.bytes_tx, self.bytes_rx)
    }
}

/// Whether a configuration line is empty (worth a warning).
pub fn warn_if_legacy(line: &str) -> (empty: bool)
    ensures
        empty == (line@.len() == 0),
{
    line.is_empty()
}

/// The big-endian bytes of `v`.
pub open spec fn be16(v: u16) -> Seq<u8> {
    seq![(v / 256) as u8, (v % 256) as u8]
}

/// A VLESS request header: version 0, the UUID, no add-ons, the TCP
/// command, the target port, the domain address type, the domain's length
/// (cut to a byte) and its bytes.
pub open spec fn vless_header(uuid: Seq<u8>, port: u16, domain: Seq<u8>) -> Seq<u8> {
    seq![0u8] + uuid + seq![0u8, 1u8] + be16(port) + seq![2u8, (domain.len() % 256) as u8] + domain
}

fn push_all(v: &mut Vec<u8>, b: &[u8])
    ensures
        final(v)@ == old(v)@ + b@,
{
    let mut i: usize = 0;
    let ghost start = v@;
    while i < b.len()
        invariant
            0 <= i <= b@.len(),
            v@ == start + b@.take(i as int),
        decreases b.len() - i,
    {
        v.push(b[i]);
        assert(b@.take(i + 1) =~= b@.take(i as int).push(b@[i as int]));
        i += 1;
    }
    assert(b@.take(b@.len() as int) =~= b@);
}

/// Builds a VLESS request header for `domain:port`.
pub fn build_header(uuid: &[u8; 16], port: u16, domain: &str) -> (req: Vec<u8>)
    ensures
        req@ == vless_header(uuid@, port, encode_utf8(domain@)),
{
    let mut req: Vec<u8> = Vec::new();
    req.push(0x00);
    push_all(&mut req, uuid.as_slice());
    req.push(0x00);
    req.push(0x01);
    req.push((port / 256) as u8);
    req.push((port % 256) as u8);
    req.push(0x02);
    let bytes = domain.as_bytes();
    req.push((bytes.len() % 256) as u8);
    push_all(&mut req, bytes);
    assert(req@ =~= vless_header(uuid@, port, encode_utf8(domain@)));
    req
}

/// The request a VLESS tunnel opens with: a header for port 443 of the SNI
/// host (`example.com` when there is none).
pub fn connect_request(params: &VlessParams) -> (r: Result<Vec<u8>, WardenError>)
    ensures
        match uuid_parse(params.uuid@) {
            None => r matches Err(WardenError::TunnelError(m)) && starts_with_seq(m@, "vless uuid: "@),
            Some(u) => r matches Ok(req) && req@ == vless_header(
                u,
                443,
                encode_utf8(
                    match opt_str(params.sni) {
                        Some(s) => s,
                        None => "example.com"@,
                    },
                ),
            ),
        },
{
    let uuid = match uuid_bytes(params.uuid.as_str()) {
        Ok(u) => u,
        Err(e) => {
            let m = append_str(string_from("vless uuid: "), e.as_str());
            proof {
                reveal_strlit("vless uuid: ");
                assert(m@.subrange(0, 12) =~= "vless uuid: "@);
            }
            return Err(WardenError::TunnelError(m));
        },
    };
    let target = match &params.sni {
        Some(s) => s.clone(),
        None => string_from("example.com"),
    };
    Ok(build_header(&uuid, 443, target.as_str()))
}

} // verus!
