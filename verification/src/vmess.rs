//! The VMess request header, and the random salts the other tunnels open
//! with.
use vstd::prelude::*;
use crate::bridge::{os_random_fill, uuid_bytes, uuid_parse};
use crate::error::WardenError;
use crate::protocol_helpers::VmessParams;
use crate::text::{append_str, starts_with_seq, string_from};

verus! {

/// An open VMess tunnel: the server it reaches and its session id.
#[derive(Debug)]
pub struct VmessTunnel {
    pub host: String,
    pub port: u16,
    pub session_id: String,
}

/// A VMess request header: version 1, the request IV, the request key,
/// the byte 4 (version 4, no options, no padding, automatic encryption),
/// then the user's UUID.
pub open spec fn vmess_header(iv: Seq<u8>, key: Seq<u8>, uuid: Seq<u8>) -> Seq<u8> {
    seq![1u8] + iv + key + seq![4u8] + uuid
}

fn push_all(v: &mut Vec<u8>, b: &[u8])
    ensures
        final(v)@ == old(v)@ + b@,
{
    let mut i: usize = 0;
    let ghost start = v@;
    while i < b.len()
        invariant
            0 <= i <= b@.len(),
            v@ == start + b@.take(i as int),
        decreases b.len() - i,
    {
        v.push(b[i]);
        assert(b@.take(i + 1) =~= b@.take(i as int).push(b@[i as int]));
        i += 1;
    }
    assert(b@.take(b@.len() as int) =~= b@);
}

/// Builds a VMess request header from its parts.
pub fn build_vmess_header(iv: &[u8; 16], key: &[u8; 16], uuid: &[u8; 16]) -> (h: Vec<u8>)
    ensures
        h@ == vmess_header(iv@, key@, uuid@),
{
    let mut h: Vec<u8> = Vec::new();
    h.push(0x01);
    push_all(&mut h, iv.as_slice());
    push_all(&mut h, key.as_slice());
    h.push(0x04);
    push_all(&mut h, uuid.as_slice());
    assert(h@ =~= vmess_header(iv@, key@, uuid@));
    h
}

/// `len` bytes from the operating system's generator; an error when the
/// generator fails.
pub fn random_salt(len: usize) -> (r: Result<Vec<u8>, WardenError>)
    ensures
        r matches Ok(s) ==> s@.len() == len,
        r matches Err(e) ==> e matches WardenError::TunnelError(m) && starts_with_seq(m@, "random: "@),
{
    let mut s: Vec<u8> = Vec::new();
    let mut i: usize = 0;
    while i < len
        invariant
            0 <= i <= len,
            s@.len() == i,
        decreases len - i,
    {
        s.push(0);
        i += 1;
    }
    match os_random_fill(s.as_mut_slice()) {
        Ok(()) => Ok(s),
        Err(e) => {
            let m = append_str(string_from("random: "), e.as_str());
            proof {
                reveal_strlit("random: ");
                assert(m@.subrange(0, 8) =~= "random: "@);
            }
            Err(WardenError::TunnelError(m))
        },
    }
}

fn array16(v: &Vec<u8>) -> (a: [u8; 16])
    requires
        v@.len() == 16,
    ensures
        a@ == v@,
{
    let mut a = [0u8; 16];
    let mut i: usize = 0;
    while i < 16
        invariant
            0 <= i <= 16,
            v@.len() == 16,
            a@.len() == 16,
            forall|k: int| 0 <= k < i ==> #[trigger] a@[k] == v@[k],
        decreases 16 - i,
    {
        a[i] = v[i];
        i += 1;
    }
    assert(a@ =~= v@);
    a
}

/// The header a VMess tunnel opens with: a fresh random IV and request key,
/// then the UUID of `params`. Fails when the UUID does not parse (with
/// `vmess uuid: ` and the parser's reason) or the generator fails.
pub fn connect_header(params: &VmessParams) -> (r: Result<Vec<u8>, WardenError>)
    ensures
        r matches Ok(h) ==> uuid_parse(params.uuid@) is Some && exists|iv: Seq<u8>, key: Seq<u8>|
            iv.len() == 16 && key.len() == 16 && h@ == vmess_header(iv, key, uuid_parse(params.uuid@)->0),
        r matches Err(WardenError::TunnelError(m)) && starts_with_seq(m@, "vmess uuid: "@) ==> uuid_parse(
            params.uuid@,
        ) is None,
        uuid_parse(params.uuid@) is None ==> r is Err,
        r matches Err(e) ==> e matches WardenError::TunnelError(m) && (starts_with_seq(m@, "vmess uuid: "@)
            || starts_with_seq(m@, "random: "@)),
{
    proof {
        reveal_strlit("random: ");
        reveal_strlit("vmess uuid: ");
    }
    let iv = match random_salt(16) {
        Ok(v) => v,
        Err(e) => {
            proof {
                assert(e->TunnelError_0@[0] == "random: "@[0]);
            }
            return Err(e);
        },
    };
    let key = match random_salt(16) {
        Ok(v) => v,
        Err(e) => {
            proof {
                assert(e->TunnelError_0@[0] == "random: "@[0]);
            }
            return Err(e);
        },
    };
    let uuid = match uuid_bytes(params.uuid.as_str()) {
        Ok(u) => u,
        Err(e) => {
            let m = append_str(string_from("vmess uuid: "), e.as_str());
            proof {
                reveal_strlit("vmess uuid: ");
                assert(m@.subrange(0, 12) =~= "vmess uuid: "@);
            }
            return Err(WardenError::TunnelError(m));
        },
    };
    let iv16 = array16(&iv);
    let key16 = array16(&key);
    let h = build_vmess_header(&iv16, &key16, &uuid);
    assert(iv16@.len() == 16 && key16@.len() == 16 && h@ == vmess_header(iv16@, key16@, uuid_parse(params.uuid@)->0));
    Ok(h)
}

} // verus!
