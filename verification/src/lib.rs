use vstd::prelude::*;

pub mod api;
pub mod bridge;
pub mod calib;
pub mod config;
pub mod decision;
pub mod discovery;
pub mod error;
pub mod fact_index;
pub mod hysteria2;
pub mod live_probe;
pub mod mind;
pub mod opsec;
pub mod pool;
pub mod protocol;
pub mod protocol_helpers;
pub mod shadowsocks;
pub mod speed_test;
pub mod ternary_vsa;
pub mod text;
pub mod tier_probe;
pub mod traffic_watch;
pub mod trojan;
pub mod tun;
pub mod tunnel;
pub mod ui;
pub mod updater;
pub mod urls;
pub mod vector_table;
pub mod vless;
pub mod vmess;
pub mod warden;


verus! {
} // verus!
