//! The configuration of a Warden client.
use vstd::prelude::*;
use crate::text::{str_eq, string_from};

verus! {

#[verifier::external_type_specification]
#[verifier::external_body]
pub struct ExPathBuf(std::path::PathBuf);

/// `PathBuf::clone` gives a path equal to the one it copies.
pub assume_specification[ <std::path::PathBuf as Clone>::clone ](p: &std::path::PathBuf) -> (r: std::path::PathBuf)
    ensures
        r == *p,
;

/// The filesystem path that `PathBuf::from` builds of `s`.
pub uninterp spec fn path_from(s: Seq<char>) -> std::path::PathBuf;

/// `PathBuf::from(s)`.
#[verifier::external_body]
fn path_buf_from(s: &str) -> (p: std::path::PathBuf)
    ensures
        p == path_from(s@),
{
    std::path::PathBuf::from(s)
}

/// Who is at the controls: a civilian user, or an operator who unlocked the
/// full feature set.
#[derive(Debug, Clone, Copy, PartialEq, Eq, Structural)]
pub enum Mode {
    Civilian,
    Operator,
}

impl Default for Mode {
    fn default() -> (m: Mode)
        ensures
            m == Mode::Civilian,
    {
        Mode::Civilian
    }
}

/// The code that unlocks operator mode.
pub open spec fn operator_code() -> Seq<char> {
    "GREYHOUND-19-OPERATOR"@
}

impl Mode {
    pub fn is_operator(&self) -> (b: bool)
        ensures
            b == (*self == Mode::Operator),
    {
        match self {
            Mode::Operator => true,
            Mode::Civilian => false,
        }
    }

    /// The mode that `code` unlocks: operator for the operator code,
    /// civilian for anything else.
    pub fn unlock(code: &str) -> (m: Mode)
        ensures
            m == (if code@ == operator_code() {
                Mode::Operator
            } else {
                Mode::Civilian
            }),
    {
        if str_eq(code, "GREYHOUND-19-OPERATOR") {
            Mode::Operator
        } else {
            Mode::Civilian
        }
    }
}

/// How servers are ranked: by raw speed, by resistance to inspection, or a
/// mix of both.
#[derive(Debug, Clone, Copy, PartialEq, Eq, Structural)]
pub enum PerformanceMode {
    Speed,
    Stealth,
    Balanced,
}

impl Default for PerformanceMode {
    fn default() -> (m: PerformanceMode)
        ensures
            m == PerformanceMode::Balanced,
    {
        PerformanceMode::Balanced
    }
}

/// Where the subscription service lives and how to talk to it.
#[derive(Debug, Clone)]
pub struct ApiConfig {
    pub base_url: String,
    pub subscription_endpoint: String,
    pub health_endpoint: String,
    pub auth_token: Option<String>,
    pub timeout_seconds: u64,
    pub user_agent: String,
}

impl Default for ApiConfig {
    fn default() -> (c: ApiConfig)
        ensures
            c.base_url@ == "https://fakeonomics.online"@,
            c.subscription_endpoint@ == "/sub/{token}/all.txt"@,
            c.health_endpoint@ == "/api/protocols"@,
            c.auth_token is None,
            c.timeout_seconds == 30,
            c.user_agent@ == "Warden/0.1.0"@,
    {
        ApiConfig {
            base_url: string_from("https://fakeonomics.online"),
            subscription_endpoint: string_from("/sub/{token}/all.txt"),
            health_endpoint: string_from("/api/protocols"),
            auth_token: None,
            timeout_seconds: 30,
            user_agent: string_from("Warden/0.1.0"),
        }
    }
}

/// Which protocols may be used, in order of preference.
#[derive(Debug, Clone)]
pub struct ProtocolsConfig {
    pub preferred: Vec<String>,
    pub wireguard_enabled: bool,
    pub vless_enabled: bool,
    pub shadowsocks_enabled: bool,
    pub hysteria2_enabled: bool,
}

impl Default for ProtocolsConfig {
    fn default() -> (c: ProtocolsConfig)
        ensures
            c.preferred@.len() == 4,
            c.preferred@[0]@ == "vless"@,
            c.preferred@[1]@ == "hysteria2"@,
            c.preferred@[2]@ == "shadowsocks"@,
            c.preferred@[3]@ == "wireguard"@,
            c.wireguard_enabled,
            c.vless_enabled,
            c.shadowsocks_enabled,
            c.hysteria2_enabled,
    {
        ProtocolsConfig {
            preferred: vec![
                string_from("vless"),
                string_from("hysteria2"),
                string_from("shadowsocks"),
                string_from("wireguard"),
            ],
            wireguard_enabled: true,
            vless_enabled: true,
            shadowsocks_enabled: true,
            hysteria2_enabled: true,
        }
    }
}

/// When and how connections are rotated. The last three knobs are left to
/// the hardware tuner when unset.
#[derive(Debug, Clone)]
pub struct RotationConfig {
    pub enabled: bool,
    pub interval_seconds: u64,
    pub max_failures_before_rotate: u32,
    pub prefer_regions: Vec<String>,
    pub exclude_countries: Vec<String>,
    pub parallel_connections: Option<usize>,
    pub handshake_timeout_secs: Option<u64>,
    pub worker_threads: Option<usize>,
}

impl Default for RotationConfig {
    fn default() -> (c: RotationConfig)
        ensures
            c.enabled,
            c.interval_seconds == 30,
            c.max_failures_before_rotate == 3,
            c.prefer_regions@.len() == 5,
            c.prefer_regions@[0]@ == "RU"@,
            c.prefer_regions@[1]@ == "DE"@,
            c.prefer_regions@[2]@ == "NL"@,
            c.prefer_regions@[3]@ == "US"@,
            c.prefer_regions@[4]@ == "FR"@,
            c.exclude_countries@.len() == 3,
            c.exclude_countries@[0]@ == "CN"@,
            c.exclude_countries@[1]@ == "KP"@,
            c.exclude_countries@[2]@ == "IR"@,
            c.parallel_connections is None,
            c.handshake_timeout_secs is None,
            c.worker_threads is None,
    {
        RotationConfig {
            enabled: true,
            interval_seconds: 30,
            max_failures_before_rotate: 3,
            prefer_regions: vec![
                string_from("RU"),
                string_from("DE"),
                string_from("NL"),
                string_from("US"),
                string_from("FR"),
            ],
            exclude_countries: vec![string_from("CN"), string_from("KP"), string_from("IR")],
            parallel_connections: None,
            handshake_timeout_secs: None,
            worker_threads: None,
        }
    }
}

/// Operational-security switches.
#[derive(Debug, Clone, Copy)]
pub struct OpsecConfig {
    pub enabled: bool,
    pub fingerprint_rotation: bool,
    pub traffic_shaping: bool,
    pub hwid_spoof: bool,
    pub kill_switch: bool,
    pub dns_leak_protection: bool,
    pub padding: bool,
    pub auto_on_connect: bool,
}

impl Default for OpsecConfig {
    fn default() -> (c: OpsecConfig)
        ensures
            c == (OpsecConfig {
                enabled: true,
                fingerprint_rotation: true,
                traffic_shaping: true,
                hwid_spoof: true,
                kill_switch: true,
                dns_leak_protection: true,
                padding: true,
                auto_on_connect: false,
            }),
    {
        OpsecConfig {
            enabled: true,
            fingerprint_rotation: true,
            traffic_shaping: true,
            hwid_spoof: true,
            kill_switch: true,
            dns_leak_protection: true,
            padding: true,
            auto_on_connect: false,
        }
    }
}

/// Where the local database lives.
#[derive(Debug, Clone)]
pub struct DatabaseConfig {
    pub path: std::path::PathBuf,
}

impl Default for DatabaseConfig {
    fn default() -> (c: DatabaseConfig)
        ensures
            c.path == path_from("/root/vpn-service/data/vpn_service.db"@),
    {
        DatabaseConfig { path: path_buf_from("/root/vpn-service/data/vpn_service.db") }
    }
}

/// The whole client configuration.
#[derive(Debug, Clone)]
pub struct WardenConfig {
    pub mode: Mode,
    pub performance_mode: PerformanceMode,
    pub api: ApiConfig,
    pub protocols: ProtocolsConfig,
    pub rotation: RotationConfig,
    pub opsec: OpsecConfig,
    pub database: DatabaseConfig,
}

impl Default for WardenConfig {
    fn default() -> (c: WardenConfig)
        ensures
            c.mode == Mode::Civilian,
            c.performance_mode == PerformanceMode::Balanced,
            c.api.base_url@ == "https://fakeonomics.online"@,
            c.api.timeout_seconds == 30,
            c.api.auth_token is None,
            c.protocols.preferred@.len() == 4,
            c.protocols.preferred@[0]@ == "vless"@,
            c.rotation.enabled,
            c.rotation.interval_seconds == 30,
            c.rotation.prefer_regions@.len() == 5,
            c.rotation.exclude_countries@.len() == 3,
            c.rotation.parallel_connections is None,
            c.rotation.handshake_timeout_secs is None,
            c.rotation.worker_threads is None,
            c.opsec == OpsecConfig::spec_default(),
    {
        WardenConfig {
            mode: Mode::Civilian,
            performance_mode: PerformanceMode::Balanced,
            api: ApiConfig::default(),
            protocols: ProtocolsConfig::default(),
            rotation: RotationConfig::default(),
            opsec: OpsecConfig::default(),
            database: DatabaseConfig::default(),
        }
    }
}

impl OpsecConfig {
    /// The default switches: everything on but `auto_on_connect`.
    pub open spec fn spec_default() -> OpsecConfig {
        OpsecConfig {
            enabled: true,
            fingerprint_rotation: true,
            traffic_shaping: true,
            hwid_spoof: true,
            kill_switch: true,
            dns_leak_protection: true,
            padding: true,
            auto_on_connect: false,
        }
    }
}

} // verus!
