//! Operational security: operator mode, feature switches, hardware-id and
//! fingerprint rotation, padding.
use vstd::prelude::*;
use crate::bridge::{b64_url_nopad, base64_url_nopad_encode, lemma_b64_url_nopad_len, system_random_fill};
use crate::config::{Mode, OpsecConfig};
use crate::text::{str_eq, string_from};

verus! {

/// The switches and mode in force.
pub struct OpsecManager {
    config: OpsecConfig,
    mode: Mode,
}

/// A snapshot of the switches, with the fingerprint and hardware id in use.
#[derive(Debug, Clone)]
pub struct OpsecStatus {
    pub enabled: bool,
    pub mode_operator: bool,
    pub fingerprint_rotation: bool,
    pub traffic_shaping: bool,
    pub hwid_spoof: bool,
    pub kill_switch: bool,
    pub dns_leak_protection: bool,
    pub padding: bool,
    pub current_fingerprint: String,
    pub current_hwid: String,
}

/// The browser fingerprints that rotation picks from, in order.
pub open spec fn fingerprint_name(i: int) -> Seq<char> {
    if i == 0 {
        "chrome"@
    } else if i == 1 {
        "firefox"@
    } else if i == 2 {
        "safari"@
    } else if i == 3 {
        "edge"@
    } else if i == 4 {
        "360"@
    } else {
        "qq"@
    }
}

/// The fingerprint that the random byte `b` selects.
pub open spec fn fingerprint_for(b: u8) -> Seq<char> {
    fingerprint_name(((b * 0x9E) % 256) % 6)
}

/// The config with the switch named `field` set to `val`, or `None` when no
/// switch has that name.
pub open spec fn toggled(c: OpsecConfig, field: Seq<char>, val: bool) -> Option<OpsecConfig> {
    if field == "fingerprint_rotation"@ {
        Some(OpsecConfig { fingerprint_rotation: val, ..c })
    } else if field == "traffic_shaping"@ {
        Some(OpsecConfig { traffic_shaping: val, ..c })
    } else if field == "hwid_spoof"@ {
        Some(OpsecConfig { hwid_spoof: val, ..c })
    } else if field == "kill_switch"@ {
        Some(OpsecConfig { kill_switch: val, ..c })
    } else if field == "dns_leak_protection"@ {
        Some(OpsecConfig { dns_leak_protection: val, ..c })
    } else if field == "padding"@ {
        Some(OpsecConfig { padding: val, ..c })
    } else {
        None
    }
}

/// The padding length for the random byte `b`: the byte's value when
/// padding is on, else 0.
pub open spec fn padding_of(padding: bool, b: u8) -> nat {
    if padding {
        b as nat
    } else {
        0
    }
}

/// The fingerprint that the byte `b` selects.
pub fn fingerprint_for_byte(b: u8) -> (f: &'static str)
    ensures
        f@ == fingerprint_for(b),
{
    let masked = b.wrapping_mul(0x9E);
    let i = (masked as usize) % 6;
    if i == 0 {
        "chrome"
    } else if i == 1 {
        "firefox"
    } else if i == 2 {
        "safari"
    } else if i == 3 {
        "edge"
    } else if i == 4 {
        "360"
    } else {
        "qq"
    }
}

impl OpsecManager {
    /// The switches in force.
    pub closed spec fn spec_config(&self) -> OpsecConfig {
        self.config
    }

    /// The mode in force.
    pub closed spec fn spec_mode(&self) -> Mode {
        self.mode
    }

    /// A civilian manager with the switches of `config`.
    pub fn new(config: OpsecConfig) -> (m: OpsecManager)
        ensures
            m.spec_config() == config,
            m.spec_mode() == Mode::Civilian,
    {
        OpsecManager { config, mode: Mode::default() }
    }

    /// A manager in `mode`; operator mode always has opsec enabled.
    pub fn with_mode(config: OpsecConfig, mode: Mode) -> (m: OpsecManager)
        ensures
            m.spec_mode() == mode,
            m.spec_config() == (if mode == Mode::Operator {
                OpsecConfig { enabled: true, ..config }
            } else {
                config
            }),
    {
        let mut cfg = config;
        if mode.is_operator() {
            cfg.enabled = true;
        }
        OpsecManager { config: cfg, mode }
    }

    pub fn mode(&self) -> (m: Mode)
        ensures
            m == self.spec_mode(),
    {
        self.mode
    }

    /// Switches to operator mode, with opsec enabled, when `code` is the
    /// operator code; otherwise changes nothing.
    pub fn unlock(&mut self, code: &str) -> (ok: bool)
        ensures
            ok == (code@ == crate::config::operator_code()),
            ok ==> final(self).spec_mode() == Mode::Operator && final(self).spec_config()
                == (OpsecConfig { enabled: true, ..old(self).spec_config() }),
            !ok ==> *final(self) == *old(self),
    {
        let new_mode = Mode::unlock(code);
        if new_mode.is_operator() {
            self.mode = new_mode;
            self.config.enabled = true;
            return true;
        }
        false
    }

    /// Back to civilian mode; the switches stay as they are.
    pub fn lock(&mut self)
        ensures
            final(self).spec_mode() == Mode::Civilian,
            final(self).spec_config() == old(self).spec_config(),
    {
        self.mode = Mode::Civilian;
    }

    /// The switches, with a freshly picked fingerprint and hardware id.
    pub fn status(&self) -> (s: OpsecStatus)
        ensures
            s.enabled == self.spec_config().enabled,
            s.mode_operator == (self.spec_mode() == Mode::Operator),
            s.fingerprint_rotation == self.spec_config().fingerprint_rotation,
            s.traffic_shaping == self.spec_config().traffic_shaping,
            s.hwid_spoof == self.spec_config().hwid_spoof,
            s.kill_switch == self.spec_config().kill_switch,
            s.dns_leak_protection == self.spec_config().dns_leak_protection,
            s.padding == self.spec_config().padding,
            self.spec_config().fingerprint_rotation ==> exists|b: u8|
                s.current_fingerprint@ == fingerprint_for(b),
            !self.spec_config().fingerprint_rotation ==> s.current_fingerprint@ == "chrome"@,
            self.spec_config().hwid_spoof ==> exists|bytes: Seq<u8>|
                bytes.len() == 16 && s.current_hwid@ == b64_url_nopad(bytes),
            !self.spec_config().hwid_spoof ==> s.current_hwid@.len() == 0,
    {
        let fp = self.pick_fingerprint();
        OpsecStatus {
            enabled: self.config.enabled,
            mode_operator: self.mode.is_operator(),
            fingerprint_rotation: self.config.fingerprint_rotation,
            traffic_shaping: self.config.traffic_shaping,
            hwid_spoof: self.config.hwid_spoof,
            kill_switch: self.config.kill_switch,
            dns_leak_protection: self.config.dns_leak_protection,
            padding: self.config.padding,
            current_fingerprint: string_from(fp),
            current_hwid: self.generate_hwid(),
        }
    }

    /// Sets the switch named `field` to `val`. Only an operator may do so;
    /// the result says whether a switch was set.
    pub fn toggle(&mut self, field: &str, val: bool) -> (ok: bool)
        ensures
            ok == (old(self).spec_mode() == Mode::Operator && toggled(
                old(self).spec_config(),
                field@,
                val,
            ) is Some),
            ok ==> final(self).spec_config() == toggled(old(self).spec_config(), field@, val)->0
                && final(self).spec_mode() == old(self).spec_mode(),
            !ok ==> *final(self) == *old(self),
    {
        if !self.mode.is_operator() {
            return false;
        }
        if str_eq(field, "fingerprint_rotation") {
            self.config.fingerprint_rotation = val;
        } else if str_eq(field, "traffic_shaping") {
            self.config.traffic_shaping = val;
        } else if str_eq(field, "hwid_spoof") {
            self.config.hwid_spoof = val;
        } else if str_eq(field, "kill_switch") {
            self.config.kill_switch = val;
        } else if str_eq(field, "dns_leak_protection") {
            self.config.dns_leak_protection = val;
        } else if str_eq(field, "padding") {
            self.config.padding = val;
        } else {
            return false;
        }
        true
    }

    /// A fresh random hardware id: the URL-safe base64 of 16 random bytes,
    /// or the empty string when hardware-id spoofing is off.
    pub fn generate_hwid(&self) -> (h: String)
        ensures
            self.spec_config().hwid_spoof ==> exists|bytes: Seq<u8>|
                bytes.len() == 16 && h@ == b64_url_nopad(bytes),
            self.spec_config().hwid_spoof ==> h@.len() == 22,
            !self.spec_config().hwid_spoof ==> h@.len() == 0,
    {
        if !self.config.hwid_spoof {
            return String::new();
        }
        let mut buf = [0u8; 16];
        system_random_fill(&mut buf);
        let h = base64_url_nopad_encode(&buf);
        proof {
            lemma_b64_url_nopad_len(buf@);
        }
        h
    }

    /// A browser fingerprint: `"chrome"` when rotation is off, else one
    /// picked by a random byte.
    pub fn pick_fingerprint(&self) -> (f: &'static str)
        ensures
            self.spec_config().fingerprint_rotation ==> exists|b: u8| f@ == fingerprint_for(b),
            !self.spec_config().fingerprint_rotation ==> f@ == "chrome"@,
    {
        if !self.config.fingerprint_rotation {
            return "chrome";
        }
        let mut idx = [0u8; 1];
        system_random_fill(&mut idx);
        fingerprint_for_byte(idx[0])
    }

    /// A random padding length in `0..=255` for frame obfuscation, or 0 when
    /// padding is off: the length [`padding_for`](Self::padding_for) gives
    /// for a byte drawn from the system generator.
    pub fn padding_size(&self) -> (n: usize)
        ensures
            n <= 255,
            !self.spec_config().padding ==> n == 0,
            exists|b: u8| n == padding_of(self.spec_config().padding, b),
    {
        if !self.config.padding {
            return self.padding_for(0);
        }
        let mut buf = [0u8; 1];
        system_random_fill(&mut buf);
        self.padding_for(buf[0])
    }

    /// The padding length for the random byte `b`: `b` itself when padding
    /// is on, else 0.
    pub fn padding_for(&self, b: u8) -> (n: usize)
        ensures
            n == padding_of(self.spec_config().padding, b),
    {
        if self.config.padding {
            b as usize
        } else {
            0
        }
    }

    /// Called when the session is lost: says whether the kill switch
    /// engages.
    pub fn on_kill_switch(&self) -> (engaged: bool)
        ensures
            engaged == self.spec_config().kill_switch,
    {
        self.config.kill_switch
    }
}

} // verus!
