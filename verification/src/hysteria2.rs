//! An open Hysteria2 tunnel.
use vstd::prelude::*;

verus! {

/// An open Hysteria2 tunnel: the server it reaches and its session id.
#[derive(Debug)]
pub struct Hy2Tunnel {
    pub host: String,
    pub port: u16,
    pub session_id: String,
}

} // verus!
