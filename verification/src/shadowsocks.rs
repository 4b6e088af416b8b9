//! An open Shadowsocks tunnel.
use vstd::prelude::*;

verus! {

/// An open Shadowsocks tunnel: the server it reaches and its session id.
#[derive(Debug)]
pub struct SsTunnel {
    pub host: String,
    pub port: u16,
    pub session_id: String,
}

} // verus!
