//! WireGuard share links and tunnel state.
use vstd::prelude::*;
use crate::bridge::{b64_std_decode, b64_std_pad, base64_decode, base64_std_encode, parse_u16, parse_url, url_parse};
use crate::error::WardenError;
use crate::text::{
    decimal, join, spec_join,
    append_str, chars_of, spec_decimal, spec_parse_unsigned, spec_split, spec_trim,
    split_chars, starts_with_seq, str_eq, str_starts_with, string_from, trim, views,
};
use crate::urls::UrlModel;

verus! {

/// Where a tunnel is in its life.
#[derive(Debug, Clone, Copy, PartialEq, Eq, Structural)]
pub enum TunnelState {
    Disconnected,
    Connecting,
    Connected,
    Failed,
}

/// What a `wg://` share link describes: the peer's public key, its
/// endpoint, the allowed IP ranges and the keep-alive interval in seconds.
#[derive(Debug, Clone)]
pub struct WireguardConfig {
    pub public_key: [u8; 32],
    pub host: String,
    pub port: u16,
    pub allowed_ips: Vec<String>,
    pub persistent_keepalive: u16,
}

/// The allowed IP ranges and keep-alive after reading the query pairs in
/// order: `allowed_ips` replaces the ranges with its comma-separated,
/// trimmed pieces; `persistent_keepalive` must be a `u16` (else `None`).
pub open spec fn wg_query(
    pairs: Seq<(Seq<char>, Seq<char>)>,
    allowed: Seq<Seq<char>>,
    keepalive: int,
) -> Option<(Seq<Seq<char>>, int)>
    decreases pairs.len(),
{
    if pairs.len() == 0 {
        Some((allowed, keepalive))
    } else {
        let (k, v) = pairs[0];
        let rest = pairs.drop_first();
        if k == "allowed_ips"@ {
            wg_query(rest, spec_split(v, ',').map_values(|p: Seq<char>| spec_trim(p)), keepalive)
        } else if k == "persistent_keepalive"@ {
            match spec_parse_unsigned(v, 0xffff) {
                Some(n) => wg_query(rest, allowed, n as int),
                None => None,
            }
        } else {
            wg_query(rest, allowed, keepalive)
        }
    }
}

/// The endpoint (host and port, 51820 by default) that a `wg://` share
/// link names.
pub open spec fn wg_endpoint_result(r: Result<(String, u16), WardenError>, url: Seq<char>) -> bool {
    if !starts_with_seq(url, "wg://"@) {
        r matches Err(WardenError::ProtocolNotSupported(m)) && m@ == url
    } else {
        match url_parse(url) {
            None => r matches Err(WardenError::Url(_)),
            Some(u) => match u.host {
                None => r matches Err(WardenError::TunnelError(m)) && m@ == "missing host"@,
                Some(h) => r matches Ok((host, port)) && host@ == h && port == match u.port {
                    Some(p) => p,
                    None => 51820u16,
                },
            },
        }
    }
}

/// `r` is what reading the share link `url` gives.
pub open spec fn wg_share_result(r: Result<WireguardConfig, WardenError>, url: Seq<char>) -> bool {
    if !starts_with_seq(url, "wg://"@) {
        r matches Err(WardenError::ProtocolNotSupported(m)) && m@ == url
    } else {
        match url_parse(url) {
            None => r matches Err(WardenError::Url(_)),
            Some(u) => match u.host {
                None => r matches Err(WardenError::TunnelError(m)) && m@ == "missing host"@,
                Some(h) => {
                    let port = match u.port {
                        Some(p) => p,
                        None => 51820u16,
                    };
                    {
                        match b64_std_decode(u.username) {
                            None => r matches Err(WardenError::TunnelError(m)) && starts_with_seq(
                                m@,
                                "bad pubkey: "@,
                            ),
                            Some(key) => if key.len() != 32 {
                                r matches Err(WardenError::TunnelError(m)) && m@
                                    == "public key must be 32 bytes"@
                            } else {
                                match wg_query(u.query_pairs, seq![], 25) {
                                    None => r matches Err(WardenError::TunnelError(_)),
                                    Some((allowed, ka)) => r matches Ok(c) && c.public_key@ == key
                                        && c.host@ == h && c.port == port && views(c.allowed_ips@)
                                        == allowed && c.persistent_keepalive as int == ka,
                                }
                            },
                        }
                    }
                },
            },
        }
    }
}

fn trimmed_pieces(v: &str) -> (r: Vec<String>)
    ensures
        views(r@) == spec_split(v@, ',').map_values(|p: Seq<char>| spec_trim(p)),
{
    let cs = chars_of(v);
    assert(cs@.subrange(0, cs@.len() as int) =~= cs@);
    let pieces = split_chars(&cs, 0, cs.len(), ',');
    let mut out: Vec<String> = Vec::new();
    let mut i: usize = 0;
    while i < pieces.len()
        invariant
            0 <= i <= pieces@.len(),
            views(pieces@) == spec_split(v@, ','),
            views(out@) == views(pieces@).take(i as int).map_values(|p: Seq<char>| spec_trim(p)),
        decreases pieces.len() - i,
    {
        let t = trim(pieces[i].as_str());
        let ghost before = out@;
        out.push(t);
        proof {
            assert(views(pieces@)[i as int] == pieces@[i as int]@);
            assert(views(out@) =~= views(before).push(t@));
            assert(views(pieces@).take(i + 1).map_values(|p: Seq<char>| spec_trim(p)) =~= views(
                pieces@,
            ).take(i as int).map_values(|p: Seq<char>| spec_trim(p)).push(spec_trim(views(pieces@)[i as int])));
        }
        i += 1;
    }
    assert(views(pieces@).take(pieces@.len() as int) =~= views(pieces@));
    out
}

impl WireguardConfig {
    /// The endpoint a `wg://` share link names, read as `from_share_url`
    /// reads it; the caller checks that it is an IP address and a port
    /// before the rest of the link is read.
    pub fn endpoint_of(url: &str) -> (r: Result<(String, u16), WardenError>)
        ensures
            wg_endpoint_result(r, url@),
    {
        if !str_starts_with(url, "wg://") {
            return Err(WardenError::ProtocolNotSupported(string_from(url)));
        }
        let u = match parse_url(url) {
            Ok(u) => u,
            Err(e) => return Err(WardenError::Url(e)),
        };
        let host = match &u.host {
            Some(h) => h.clone(),
            None => return Err(WardenError::TunnelError(string_from("missing host"))),
        };
        let port: u16 = match u.port {
            Some(p) => p,
            None => 51820,
        };
        Ok((host, port))
    }

    /// Reads a `wg://PUBKEY@HOST:PORT?allowed_ips=..&persistent_keepalive=..`
    /// share link: the key is standard base64 of 32 bytes, the port defaults
    /// to 51820 and the keep-alive to 25 seconds.
    pub fn from_share_url(url: &str) -> (r: Result<WireguardConfig, WardenError>)
        ensures
            wg_share_result(r, url@),
    {
        if !str_starts_with(url, "wg://") {
            return Err(WardenError::ProtocolNotSupported(string_from(url)));
        }
        let u = match parse_url(url) {
            Ok(u) => u,
            Err(e) => return Err(WardenError::Url(e)),
        };
        let host = match &u.host {
            Some(h) => h.clone(),
            None => return Err(WardenError::TunnelError(string_from("missing host"))),
        };
        let port: u16 = match u.port {
            Some(p) => p,
            None => 51820,
        };
        let decoded = match base64_decode(u.username.as_str()) {
            Ok(d) => d,
            Err(e) => {
                let m = append_str(string_from("bad pubkey: "), e.as_str());
                proof {
                    reveal_strlit("bad pubkey: ");
                    assert(m@.subrange(0, 12) =~= "bad pubkey: "@);
                }
                return Err(WardenError::TunnelError(m));
            },
        };
        if decoded.len() != 32 {
            return Err(WardenError::TunnelError(string_from("public key must be 32 bytes")));
        }
        let mut public_key = [0u8; 32];
        let mut i: usize = 0;
        while i < 32
            invariant
                0 <= i <= 32,
                decoded@.len() == 32,
                forall|j: int| 0 <= j < i ==> public_key@[j] == decoded@[j],
            decreases 32 - i,
        {
            public_key[i] = decoded[i];
            i += 1;
        }
        assert(public_key@ =~= decoded@);
        let mut allowed_ips: Vec<String> = Vec::new();
        let mut keepalive: u16 = 25;
        let mut k: usize = 0;
        let ghost pairs = u@.query_pairs;
        assert(pairs.skip(0) =~= pairs);
        assert(views(allowed_ips@) =~= Seq::<Seq<char>>::empty());
        while k < u.query_pairs.len()
            invariant
                0 <= k <= u.query_pairs@.len(),
                pairs == u@.query_pairs,
                pairs.len() == u.query_pairs@.len(),
                starts_with_seq(url@, "wg://"@),
                url_parse(url@) == Some(u@),
                u@.host == Some(host@),
                port == match u@.port {
                    Some(p) => p,
                    None => 51820u16,
                },
                b64_std_decode(u@.username) == Some(decoded@),
                decoded@.len() == 32,
                public_key@ == decoded@,
                wg_query(pairs, seq![], 25) == wg_query(pairs.skip(k as int), views(allowed_ips@), keepalive as int),
            decreases u.query_pairs.len() - k,
        {
            let (key, val) = (&u.query_pairs[k].0, &u.query_pairs[k].1);
            assert(pairs[k as int] == (key@, val@));
            assert(pairs.skip(k as int).drop_first() =~= pairs.skip(k + 1));
            assert(pairs.skip(k as int)[0] == pairs[k as int]);
            if str_eq(key.as_str(), "allowed_ips") {
                allowed_ips = trimmed_pieces(val.as_str());
            } else if str_eq(key.as_str(), "persistent_keepalive") {
                match parse_u16(val.as_str()) {
                    Ok(n) => {
                        keepalive = n;
                    },
                    Err(e) => {
                        return Err(WardenError::TunnelError(e));
                    },
                }
            }
            k += 1;
        }
        assert(pairs.skip(pairs.len() as int) =~= Seq::<(Seq<char>, Seq<char>)>::empty());
        Ok(WireguardConfig { public_key, host, port, allowed_ips, persistent_keepalive: keepalive })
    }
}

/// The IPv4/UDP test packet that the loopback handshake proof sends.
pub open spec fn spec_proof_payload() -> Seq<u8> {
    seq![
        0x45u8, 0x00, 0x00, 0x20, 0, 0, 0, 0, 64, 17, 0, 0, 10, 0, 0, 1,
        10, 0, 0, 2, 0x30, 0x39, 0xD4, 0x31, 0xAB, 0xAB, 0xAB, 0xAB, 0xAB, 0xAB, 0xAB, 0xAB,
    ]
}

/// A 32-byte IPv4/UDP packet from 10.0.0.1:12345 to 10.0.0.2:54321 with
/// eight bytes of 0xAB as payload.
pub fn proof_payload() -> (p: [u8; 32])
    ensures
        p@ == spec_proof_payload(),
{
    let p: [u8; 32] = [
        0x45, 0x00, 0x00, 0x20, 0, 0, 0, 0, 64, 17, 0, 0, 10, 0, 0, 1,
        10, 0, 0, 2, 0x30, 0x39, 0xD4, 0x31, 0xAB, 0xAB, 0xAB, 0xAB, 0xAB, 0xAB, 0xAB, 0xAB,
    ];
    assert(p@ =~= spec_proof_payload());
    p
}

/// The steps of a WireGuard handshake, from the initiator's side.
#[derive(Debug, Clone, Copy, PartialEq, Eq, Structural)]
pub enum HandshakeStage {
    /// The initiation is being formatted.
    Initiating,
    /// The responder's reply is being read.
    Responding,
    /// The keep-alive that confirms the session is being read.
    Confirming,
}

/// What the noise engine handed back at a step, by the kinds a handshake
/// tells apart.
#[derive(Debug, Clone)]
pub enum NoiseResult {
    /// A packet to send to the peer.
    WriteToNetwork,
    /// Nothing left to do.
    Done,
    /// The engine's error, as its debug text.
    Failure(String),
    /// Anything else.
    Other,
}

/// What the initiator does after a step.
#[derive(Debug)]
pub enum HandshakeAction {
    /// Send the packet, read the peer's answer, and go on at this stage.
    Exchange(HandshakeStage),
    /// The session is up.
    Complete,
    /// Give up with this error.
    Abort(WardenError),
}

/// The error text for a result a stage does not expect.
pub open spec fn unexpected_text(stage: HandshakeStage) -> Seq<char> {
    match stage {
        HandshakeStage::Initiating => "unexpected init result"@,
        HandshakeStage::Responding => "unexpected resp result"@,
        HandshakeStage::Confirming => "unexpected keepalive result"@,
    }
}

/// The initiation and the reply each yield a packet to send; the
/// confirming keep-alive yields nothing more. An engine error ends the
/// handshake with its text, and any other result with the stage's
/// "unexpected" text.
pub fn handshake_next(stage: HandshakeStage, r: NoiseResult) -> (a: HandshakeAction)
    ensures
        match r {
            NoiseResult::Failure(e) => a matches HandshakeAction::Abort(WardenError::TunnelError(m)) && m@ == e@,
            NoiseResult::WriteToNetwork => match stage {
                HandshakeStage::Initiating => a == HandshakeAction::Exchange(HandshakeStage::Responding),
                HandshakeStage::Responding => a == HandshakeAction::Exchange(HandshakeStage::Confirming),
                HandshakeStage::Confirming => a matches HandshakeAction::Abort(WardenError::TunnelError(m))
                    && m@ == unexpected_text(stage),
            },
            NoiseResult::Done if stage == HandshakeStage::Confirming => a is Complete,
            _ => a matches HandshakeAction::Abort(WardenError::TunnelError(m)) && m@ == unexpected_text(stage),
        },
{
    let unexpected = |st: HandshakeStage| -> (m: String)
        ensures
            m@ == unexpected_text(st),
        {
            match st {
                HandshakeStage::Initiating => string_from("unexpected init result"),
                HandshakeStage::Responding => string_from("unexpected resp result"),
                HandshakeStage::Confirming => string_from("unexpected keepalive result"),
            }
        };
    match r {
        NoiseResult::Failure(e) => HandshakeAction::Abort(WardenError::TunnelError(e)),
        NoiseResult::WriteToNetwork => match stage {
            HandshakeStage::Initiating => HandshakeAction::Exchange(HandshakeStage::Responding),
            HandshakeStage::Responding => HandshakeAction::Exchange(HandshakeStage::Confirming),
            HandshakeStage::Confirming => HandshakeAction::Abort(WardenError::TunnelError(unexpected(stage))),
        },
        NoiseResult::Done => match stage {
            HandshakeStage::Confirming => HandshakeAction::Complete,
            _ => HandshakeAction::Abort(WardenError::TunnelError(unexpected(stage))),
        },
        NoiseResult::Other => HandshakeAction::Abort(WardenError::TunnelError(unexpected(stage))),
    }
}

/// The `wg://` share link that describes `c`: the public key in padded
/// standard base64 as the user name, the endpoint, and the allowed IP
/// ranges and keep-alive as query pairs.
pub open spec fn spec_share_url(c: WireguardConfig) -> Seq<char> {
    "wg://"@ + b64_std_pad(c.public_key@) + "@"@ + c.host@ + ":"@ + spec_decimal(c.port as nat)
        + "?allowed_ips="@ + spec_join(views(c.allowed_ips@), ',') + "&persistent_keepalive="@
        + spec_decimal(c.persistent_keepalive as nat)
}

impl WireguardConfig {
    /// The share link that a tunnel handle dials this configuration by.
    pub fn share_url(&self) -> (s: String)
        ensures
            s@ == spec_share_url(*self),
    {
        let mut s = string_from("wg://");
        let key = base64_std_encode(self.public_key.as_slice());
        s = append_str(s, key.as_str());
        s = append_str(s, "@");
        s = append_str(s, self.host.as_str());
        s = append_str(s, ":");
        let port = decimal(self.port as u64);
        s = append_str(s, port.as_str());
        s = append_str(s, "?allowed_ips=");
        let ips = join(&self.allowed_ips, ',');
        s = append_str(s, ips.as_str());
        s = append_str(s, "&persistent_keepalive=");
        let ka = decimal(self.persistent_keepalive as u64);
        s = append_str(s, ka.as_str());
        s
    }
}

} // verus!

verus! {

/// The steps of the loopback proof between two tunnels `a` and `b`: `a`
/// starts the handshake, `b` responds, `a` confirms, `b` settles; then `a`
/// sends the proof payload, `b` receives it, echoes it back, and `a`
/// receives the echo.
#[derive(Debug, Clone, Copy, PartialEq, Eq, Structural)]
pub enum LoopbackStep {
    Initiate,
    Respond,
    Confirm,
    Settle,
    SendProof,
    ReceiveProof,
    EchoProof,
    ReceiveEcho,
}

/// What the noise engine handed back at a step of the loopback proof.
#[derive(Debug)]
pub enum StepOutcome {
    /// A packet to send to the peer.
    WriteToNetwork,
    /// Nothing left to do.
    Done,
    /// A decrypted packet for the tunnel device, with its bytes.
    WriteToTunnel(Vec<u8>),
    /// Anything else, an error included.
    Other,
}

/// What comes after a step of the loopback proof.
#[derive(Debug, Clone, Copy, PartialEq, Eq, Structural)]
pub enum LoopbackAction {
    /// Go on with this step.
    Send(LoopbackStep),
    /// The proof went through.
    Finish,
    /// The proof failed.
    Fail,
}

/// The step after `s` (the last step is followed by itself).
pub open spec fn next_step(s: LoopbackStep) -> LoopbackStep {
    match s {
        LoopbackStep::Initiate => LoopbackStep::Respond,
        LoopbackStep::Respond => LoopbackStep::Confirm,
        LoopbackStep::Confirm => LoopbackStep::Settle,
        LoopbackStep::Settle => LoopbackStep::SendProof,
        LoopbackStep::SendProof => LoopbackStep::ReceiveProof,
        LoopbackStep::ReceiveProof => LoopbackStep::EchoProof,
        LoopbackStep::EchoProof => LoopbackStep::ReceiveEcho,
        LoopbackStep::ReceiveEcho => LoopbackStep::ReceiveEcho,
    }
}

/// The outcome each step must have: a packet for the network while
/// handshaking and when sending, nothing left to do once settled, and the
/// proof payload itself when a tunnel receives it.
pub open spec fn loopback_expected(step: LoopbackStep, r: StepOutcome) -> bool {
    match step {
        LoopbackStep::Settle => r is Done,
        LoopbackStep::ReceiveProof | LoopbackStep::ReceiveEcho => r matches StepOutcome::WriteToTunnel(p)
            && p@ == spec_proof_payload(),
        _ => r is WriteToNetwork,
    }
}

/// The decision after a step of the loopback proof: any unexpected outcome
/// fails the proof; an expected one moves on to the next step, or finishes
/// the proof after the echo came back.
pub fn loopback_next(step: LoopbackStep, r: &StepOutcome) -> (a: LoopbackAction)
    ensures
        !loopback_expected(step, *r) ==> a == LoopbackAction::Fail,
        loopback_expected(step, *r) && step == LoopbackStep::ReceiveEcho ==> a == LoopbackAction::Finish,
        loopback_expected(step, *r) && step != LoopbackStep::ReceiveEcho ==> a == LoopbackAction::Send(
            next_step(step),
        ),
{
    let ok = match step {
        LoopbackStep::Settle => matches!(r, StepOutcome::Done),
        LoopbackStep::ReceiveProof | LoopbackStep::ReceiveEcho => match r {
            StepOutcome::WriteToTunnel(p) => is_proof_payload(p),
            _ => false,
        },
        _ => matches!(r, StepOutcome::WriteToNetwork),
    };
    if !ok {
        return LoopbackAction::Fail;
    }
    match step {
        LoopbackStep::Initiate => LoopbackAction::Send(LoopbackStep::Respond),
        LoopbackStep::Respond => LoopbackAction::Send(LoopbackStep::Confirm),
        LoopbackStep::Confirm => LoopbackAction::Send(LoopbackStep::Settle),
        LoopbackStep::Settle => LoopbackAction::Send(LoopbackStep::SendProof),
        LoopbackStep::SendProof => LoopbackAction::Send(LoopbackStep::ReceiveProof),
        LoopbackStep::ReceiveProof => LoopbackAction::Send(LoopbackStep::EchoProof),
        LoopbackStep::EchoProof => LoopbackAction::Send(LoopbackStep::ReceiveEcho),
        LoopbackStep::ReceiveEcho => LoopbackAction::Finish,
    }
}

/// Whether `p` holds exactly the proof payload.
fn is_proof_payload(p: &Vec<u8>) -> (b: bool)
    ensures
        b == (p@ == spec_proof_payload()),
{
    let want = proof_payload();
    if p.len() != 32 {
        return false;
    }
    let mut i: usize = 0;
    while i < 32
        invariant
            0 <= i <= 32,
            p@.len() == 32,
            want@ == spec_proof_payload(),
            forall|k: int| 0 <= k < i ==> p@[k] == want@[k],
        decreases 32 - i,
    {
        if p[i] != want[i] {
            return false;
        }
        i += 1;
    }
    assert(p@ =~= want@);
    true
}

} // verus!
