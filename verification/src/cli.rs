//! The terminal program's command line and its footer bookkeeping.
use vstd::prelude::*;

use crate::actions::Action;
use crate::display::{percent, Status};
use crate::text::{chars_eq, chars_of, decimal_string};
use crate::types::{FanMode, PowerLevel};

verus! {

/// What the command line asks for.
#[derive(Debug, Clone, PartialEq, Eq)]
pub enum Cli {
    /// Open the terminal view.
    Tui,
    /// Capture this machine's attributes into a directory.
    DumpFixture(String),
    Help,
}

/// What a command line means: nothing is the view, `dump-fixture [DIR]`
/// (by default `omarchy-power-fixture`), `-h`/`--help`/`help`; anything
/// else is an unknown command.
pub open spec fn cli_spec(args: Seq<Seq<char>>, r: Result<Cli, String>) -> bool {
    if args.len() == 0 {
        r == Ok::<Cli, String>(Cli::Tui)
    } else if args[0] == "dump-fixture"@ {
        r matches Ok(Cli::DumpFixture(dir)) && dir@ == if args.len() > 1 {
            args[1]
        } else {
            "omarchy-power-fixture"@
        }
    } else if args[0] == "-h"@ || args[0] == "--help"@ || args[0] == "help"@ {
        r == Ok::<Cli, String>(Cli::Help)
    } else {
        r matches Err(e) && e@ == "unknown command `"@ + args[0] + "` (try --help)"@
    }
}

impl Cli {
    /// Read the arguments after the program's name.
    pub fn parse(args: &[String]) -> (r: Result<Cli, String>)
        ensures
            cli_spec(crate::text::string_views(args@), r),
    {
        let ghost a = crate::text::string_views(args@);
        if args.len() == 0 {
            return Ok(Cli::Tui);
        }
        assert(a[0] == args@[0]@);
        let first = chars_of(args[0].as_str());
        if chars_eq(&first, &chars_of("dump-fixture")) {
            if args.len() > 1 {
                assert(a[1] == args@[1]@);
                return Ok(Cli::DumpFixture(args[1].as_str().to_owned()));
            }
            return Ok(Cli::DumpFixture("omarchy-power-fixture".to_owned()));
        }
        if chars_eq(&first, &chars_of("-h")) || chars_eq(&first, &chars_of("--help")) || chars_eq(
            &first,
            &chars_of("help"),
        ) {
            return Ok(Cli::Help);
        }
        let mut e = "unknown command `".to_owned();
        e.append(args[0].as_str());
        e.append("` (try --help)");
        Err(e)
    }
}

/// How long a message stays in the footer, in milliseconds.
pub open spec fn linger_ms() -> u64 {
    4000
}

/// The last thing that happened, and when, so it can be cleared on its own.
pub struct Footer {
    pub status: Option<Status>,
    /// When the status was set, in milliseconds.
    pub since_ms: u64,
}

impl Footer {
    pub fn new(now_ms: u64) -> (r: Footer)
        ensures
            r.status is None,
            r.since_ms == now_ms,
    {
        Footer { status: None, since_ms: now_ms }
    }

    pub fn set(&mut self, status: Status, now_ms: u64)
        ensures
            final(self).status == Some(status),
            final(self).since_ms == now_ms,
    {
        self.status = Some(status);
        self.since_ms = now_ms;
    }

    /// Clears the status once it has been on screen for four seconds.
    pub fn expire(&mut self, now_ms: u64)
        ensures
            final(self).since_ms == old(self).since_ms,
            final(self).status == if now_ms > old(self).since_ms && now_ms - old(self).since_ms
                > linger_ms() {
                None
            } else {
                old(self).status
            },
    {
        if now_ms > self.since_ms && now_ms - self.since_ms > 4000 {
            self.status = None;
        }
    }
}

/// MSI spells booleans `on` and `off`, and so does the footer.
pub fn on_off(on: bool) -> (r: &'static str)
    ensures
        r@ == if on {
            "on"@
        } else {
            "off"@
        },
{
    if on {
        "on"
    } else {
        "off"
    }
}

/// What the footer says an action is doing; `None` for the actions that
/// send nothing anywhere.
pub open spec fn describe_spec(action: Action) -> Option<Seq<char>> {
    match action {
        Action::SetPowerLevel(l) => Some("power level: "@ + l.name()),
        Action::SetFanMode(m) => Some("fan mode: "@ + m.name()),
        Action::SetCoolerBoost(on) => Some(
            "cooler boost: "@ + if on {
                "on"@
            } else {
                "off"@
            },
        ),
        Action::SetBatterySaver(on) => Some(
            "battery saver: "@ + if on {
                "on"@
            } else {
                "off"@
            },
        ),
        Action::SetChargeThreshold(p) => Some("charge limit: "@ + percent(p)),
        _ => None,
    }
}

pub fn describe(action: Action) -> (r: Option<String>)
    ensures
        match r {
            Some(s) => describe_spec(action) == Some(s@),
            None => describe_spec(action) is None,
        },
{
    match action {
        Action::SetPowerLevel(l) => {
            let mut s = "power level: ".to_owned();
            s.append(l.as_str());
            Some(s)
        },
        Action::SetFanMode(m) => {
            let mut s = "fan mode: ".to_owned();
            s.append(m.as_str());
            Some(s)
        },
        Action::SetCoolerBoost(on) => {
            let mut s = "cooler boost: ".to_owned();
            s.append(on_off(on));
            Some(s)
        },
        Action::SetBatterySaver(on) => {
            let mut s = "battery saver: ".to_owned();
            s.append(on_off(on));
            Some(s)
        },
        Action::SetChargeThreshold(p) => {
            let mut s = "charge limit: ".to_owned();
            let d = decimal_string(p as u64);
            s.append(d.as_str());
            s.append("%");
            Some(s)
        },
        _ => None,
    }
}

/// The footer line for an action's outcome: its description, or why it
/// failed (the daemon's own message, which is more specific than anything
/// invented here).
pub fn outcome(description: String, result: Result<(), String>) -> (r: Status)
    ensures
        match result {
            Ok(()) => !r.failed && r.text@ == description@,
            Err(e) => r.failed && r.text@ == description@ + " failed: "@ + e@,
        },
{
    match result {
        Ok(()) => Status::ok(description),
        Err(e) => {
            let mut s = description;
            s.append(" failed: ");
            s.append(e.as_str());
            Status::failed(s)
        },
    }
}

/// The footer line for a key the machine has nothing behind.
pub fn lacking(what: &str) -> (r: Status)
    ensures
        r.failed,
        r.text@ == "this machine has no "@ + what@,
{
    let mut s = "this machine has no ".to_owned();
    s.append(what);
    Status::failed(s)
}

/// What the view does with a key's action.
#[derive(Debug, Clone, PartialEq, Eq)]
pub enum Reaction {
    Quit,
    /// Nothing to send; the next refresh redraws anyway.
    Nothing,
    /// Put this in the footer.
    Show(Status),
    /// Send the action to the daemon; its outcome goes in the footer under
    /// this description.
    Send(String),
}

/// A key's action as the view handles it: quit, nothing, a note about what
/// the machine lacks, or a change to send.
pub fn react(action: Action) -> (r: Reaction)
    ensures
        match action {
            Action::Quit => r == Reaction::Quit,
            Action::Ignored | Action::Refresh => r == Reaction::Nothing,
            Action::Unsupported(what) => r matches Reaction::Show(s) && s.failed && s.text@
                == "this machine has no "@ + what@,
            _ => r matches Reaction::Send(d) && describe_spec(action) == Some(d@),
        },
{
    match action {
        Action::Quit => Reaction::Quit,
        Action::Ignored | Action::Refresh => Reaction::Nothing,
        Action::Unsupported(what) => Reaction::Show(lacking(what)),
        _ => match describe(action) {
            Some(d) => Reaction::Send(d),
            None => Reaction::Nothing,
        },
    }
}

} // verus!
