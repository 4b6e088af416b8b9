//! What the terminal interface shows: its menu, durations and the spinner.
use vstd::prelude::*;
use crate::text::{append_str, decimal, spec_decimal};

verus! {

/// An entry of the main menu.
#[derive(Debug, Clone, Copy, PartialEq, Eq, Structural)]
pub enum MenuItem {
    Connect,
    Disconnect,
    Status,
    SelfTest,
    Update,
    ToggleWatchdog,
    AutoUpdate,
    Quit,
}

impl MenuItem {
    pub fn label(&self) -> (s: &'static str)
        ensures
            s@ == match self {
                MenuItem::Connect => "▶  connect"@,
                MenuItem::Disconnect => "■  disconnect"@,
                MenuItem::Status => "◎  status"@,
                MenuItem::SelfTest => "⚡  self-test"@,
                MenuItem::Update => "↑  check update"@,
                MenuItem::AutoUpdate => "⟳  auto-update"@,
                MenuItem::ToggleWatchdog => "⏱  toggle watchdog"@,
                MenuItem::Quit => "✕  quit"@,
            },
    {
        match self {
            MenuItem::Connect => "▶  connect",
            MenuItem::Disconnect => "■  disconnect",
            MenuItem::Status => "◎  status",
            MenuItem::SelfTest => "⚡  self-test",
            MenuItem::Update => "↑  check update",
            MenuItem::AutoUpdate => "⟳  auto-update",
            MenuItem::ToggleWatchdog => "⏱  toggle watchdog",
            MenuItem::Quit => "✕  quit",
        }
    }

    /// The menu, top to bottom.
    pub fn all() -> (items: [MenuItem; 8])
        ensures
            items@ == seq![
                MenuItem::Connect,
                MenuItem::Disconnect,
                MenuItem::Status,
                MenuItem::SelfTest,
                MenuItem::Update,
                MenuItem::AutoUpdate,
                MenuItem::ToggleWatchdog,
                MenuItem::Quit,
            ],
    {
        let items = [
            MenuItem::Connect,
            MenuItem::Disconnect,
            MenuItem::Status,
            MenuItem::SelfTest,
            MenuItem::Update,
            MenuItem::AutoUpdate,
            MenuItem::ToggleWatchdog,
            MenuItem::Quit,
        ];
        assert(items@ =~= seq![
            MenuItem::Connect,
            MenuItem::Disconnect,
            MenuItem::Status,
            MenuItem::SelfTest,
            MenuItem::Update,
            MenuItem::AutoUpdate,
            MenuItem::ToggleWatchdog,
            MenuItem::Quit,
        ]);
        items
    }
}

/// `s` seconds as hours, minutes and seconds, leaving out leading zero
/// units: `1h 2m 3s`, `2m 3s`, `3s`.
pub open spec fn spec_human_duration(s: nat) -> Seq<char> {
    let h = s / 3600;
    let m = (s % 3600) / 60;
    let sec = s % 60;
    if h > 0 {
        spec_decimal(h) + "h "@ + spec_decimal(m) + "m "@ + spec_decimal(sec) + "s"@
    } else if m > 0 {
        spec_decimal(m) + "m "@ + spec_decimal(sec) + "s"@
    } else {
        spec_decimal(sec) + "s"@
    }
}

pub fn human_duration(s: u64) -> (r: String)
    ensures
        r@ == spec_human_duration(s as nat),
{
    let h = s / 3600;
    let m = (s % 3600) / 60;
    let sec = s % 60;
    if h > 0 {
        let mut r = decimal(h);
        r = append_str(r, "h ");
        r = append_str(r, decimal(m).as_str());
        r = append_str(r, "m ");
        r = append_str(r, decimal(sec).as_str());
        append_str(r, "s")
    } else if m > 0 {
        let mut r = decimal(m);
        r = append_str(r, "m ");
        r = append_str(r, decimal(sec).as_str());
        append_str(r, "s")
    } else {
        append_str(decimal(sec), "s")
    }
}

/// The spinner frame shown at tick `frame`: the eight braille frames in
/// turn.
pub open spec fn spinner_frame(k: int) -> Seq<char> {
    if k == 0 {
        "⠋"@
    } else if k == 1 {
        "⠙"@
    } else if k == 2 {
        "⠹"@
    } else if k == 3 {
        "⠸"@
    } else if k == 4 {
        "⠼"@
    } else if k == 5 {
        "⠴"@
    } else if k == 6 {
        "⠦"@
    } else {
        "⠧"@
    }
}

pub fn spinner(frame: usize) -> (s: &'static str)
    ensures
        s@ == spinner_frame(frame as int % 8),
{
    let k = frame % 8;
    if k == 0 {
        "⠋"
    } else if k == 1 {
        "⠙"
    } else if k == 2 {
        "⠹"
    } else if k == 3 {
        "⠸"
    } else if k == 4 {
        "⠼"
    } else if k == 5 {
        "⠴"
    } else if k == 6 {
        "⠦"
    } else {
        "⠧"
    }
}

} // verus!
