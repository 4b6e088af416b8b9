//! The TUN device the tunnels read from and write to.
use vstd::prelude::*;
use crate::text::string_from;

verus! {

/// A packet device a tunnel is attached to. Reading and writing packets is
/// I/O and belongs to whoever drives the device; every device has a name.
pub trait Tun {
    fn name(&self) -> &str;
}

/// A TUN device, known by its name until it is opened.
#[derive(Debug)]
pub struct TunTap {
    name: String,
}

impl TunTap {
    pub fn new(name: &str) -> (t: TunTap)
        ensures
            t.spec_name() == name@,
    {
        TunTap { name: string_from(name) }
    }

    pub closed spec fn spec_name(&self) -> Seq<char> {
        self.name@
    }

    /// The device name.
    pub fn name(&self) -> (n: &str)
        ensures
            n@ == self.spec_name(),
    {
        self.name.as_str()
    }
}

impl Tun for TunTap {
    fn name(&self) -> (n: &str)
        ensures
            n@ == self.spec_name(),
    {
        self.name.as_str()
    }
}

impl Default for TunTap {
    fn default() -> (t: TunTap)
        ensures
            t.spec_name() == "warden0"@,
    {
        TunTap::new("warden0")
    }
}

} // verus!
