//! The words the terminal view puts on screen.
//!
//! Drawing is the terminal library's business; what each row says, and how
//! an absent reading reads (never as a zero), is decided here.
use vstd::prelude::*;

use crate::text::{decimal, decimal_string, string_views};
use crate::types::{Capabilities, FanMode, HwState, PowerLevel};

verus! {

/// A transient line of feedback shown in the footer.
#[derive(Debug, Clone, PartialEq, Eq)]
pub struct Status {
    pub text: String,
    pub failed: bool,
}

impl Status {
    pub fn ok(text: String) -> (r: Status)
        ensures
            r.text@ == text@,
            !r.failed,
    {
        Status { text, failed: false }
    }

    pub fn failed(text: String) -> (r: Status)
        ensures
            r.text@ == text@,
            r.failed,
    {
        Status { text, failed: true }
    }
}

pub open spec fn power_level_words(level: Option<PowerLevel>) -> Seq<char> {
    match level {
        Some(PowerLevel::Performance) => "performance"@,
        Some(PowerLevel::Balanced) => "balanced"@,
        Some(PowerLevel::PowerSaver) => "power saver"@,
        None => "unknown"@,
    }
}

pub fn power_level_text(level: Option<PowerLevel>) -> (r: String)
    ensures
        r@ == power_level_words(level),
{
    match level {
        Some(PowerLevel::Performance) => "performance",
        Some(PowerLevel::Balanced) => "balanced",
        Some(PowerLevel::PowerSaver) => "power saver",
        None => "unknown",
    }.to_owned()
}

pub open spec fn fan_mode_words(mode: Option<FanMode>) -> Seq<char> {
    match mode {
        Some(FanMode::Auto) => "auto"@,
        Some(FanMode::Silent) => "silent"@,
        Some(FanMode::Aggressive) => "aggressive"@,
        None => "unknown"@,
    }
}

pub fn fan_mode_text(mode: Option<FanMode>) -> (r: String)
    ensures
        r@ == fan_mode_words(mode),
{
    match mode {
        Some(FanMode::Auto) => "auto",
        Some(FanMode::Silent) => "silent",
        Some(FanMode::Aggressive) => "aggressive",
        None => "unknown",
    }.to_owned()
}

/// A switch: on, off, or not there at all.
pub open spec fn switch_words(value: Option<bool>) -> Seq<char> {
    match value {
        Some(true) => "on"@,
        Some(false) => "off"@,
        None => "unsupported"@,
    }
}

pub fn switch_text(value: Option<bool>) -> (r: String)
    ensures
        r@ == switch_words(value),
{
    match value {
        Some(true) => "on",
        Some(false) => "off",
        None => "unsupported",
    }.to_owned()
}

/// `n%`.
pub open spec fn percent(n: u8) -> Seq<char> {
    decimal(n as nat) + "%"@
}

fn percent_text(n: u8) -> (r: String)
    ensures
        r@ == percent(n),
{
    let mut s = decimal_string(n as u64);
    s.append("%");
    s
}

pub open spec fn charge_words(state: HwState) -> Seq<char> {
    match state.battery.charge_end_threshold {
        Some(t) => percent(t),
        None => "unsupported"@,
    }
}

/// The charge limit row.
pub fn charge_text(state: &HwState) -> (r: String)
    ensures
        r@ == charge_words(*state),
{
    match state.battery.charge_end_threshold {
        Some(t) => percent_text(t),
        None => "unsupported".to_owned(),
    }
}

pub open spec fn battery_words(state: HwState) -> Seq<char> {
    let capacity = match state.battery.capacity_percent {
        Some(c) => percent(c),
        None => "?"@,
    };
    match state.battery.on_ac {
        Some(true) => capacity + " (on AC)"@,
        Some(false) => capacity + " (on battery)"@,
        None => capacity,
    }
}

/// The battery row: charge, and what the machine runs on when known.
pub fn battery_text(state: &HwState) -> (r: String)
    ensures
        r@ == battery_words(*state),
{
    let mut capacity = match state.battery.capacity_percent {
        Some(c) => percent_text(c),
        None => "?".to_owned(),
    };
    match state.battery.on_ac {
        Some(true) => {
            capacity.append(" (on AC)");
        },
        Some(false) => {
            capacity.append(" (on battery)");
        },
        None => {},
    }
    capacity
}

/// How hot a temperature reads on a gauge.
#[derive(Debug, Clone, Copy, PartialEq, Eq)]
pub enum Heat {
    Cool,
    Warm,
    Hot,
}

/// Hot from 88 °C, warm from 75 °C. Advisory only: nothing acts on these.
pub fn heat(temp_c: u8) -> (r: Heat)
    ensures
        r == if temp_c >= 88 {
            Heat::Hot
        } else if temp_c >= 75 {
            Heat::Warm
        } else {
            Heat::Cool
        },
{
    if temp_c >= 88 {
        Heat::Hot
    } else if temp_c >= 75 {
        Heat::Warm
    } else {
        Heat::Cool
    }
}

pub open spec fn temp_words(label: Seq<char>, temp: Option<u8>, fan: Option<u8>) -> Seq<char> {
    match temp {
        None => label + "  unavailable"@,
        Some(t) => label + "  "@ + decimal(t as nat) + "°C"@ + match fan {
            Some(f) => "  fan "@ + percent(f),
            None => Seq::empty(),
        },
    }
}

/// A temperature row: `CPU  66°C  fan 70%`, or `CPU  unavailable` without
/// a reading, never a made-up zero.
pub fn temp_text(label: &str, temp: Option<u8>, fan: Option<u8>) -> (r: String)
    ensures
        r@ == temp_words(label@, temp, fan),
{
    let mut s = label.to_owned();
    match temp {
        None => {
            s.append("  unavailable");
        },
        Some(t) => {
            s.append("  ");
            let d = decimal_string(t as u64);
            s.append(d.as_str());
            s.append("°C");
            match fan {
                Some(f) => {
                    s.append("  fan ");
                    let p = percent_text(f);
                    s.append(p.as_str());
                },
                None => {
                    assert(s@ + Seq::<char>::empty() =~= s@);
                },
            }
        },
    }
    s
}

/// `fan1: 3555 rpm  fan2: 0 rpm` over the first `n` readings.
pub open spec fn fans_words(rpm: Seq<u32>, n: int) -> Seq<char>
    decreases n,
{
    if n <= 0 {
        Seq::empty()
    } else {
        let item = "fan"@ + decimal(n as nat) + ": "@ + decimal(rpm[n - 1] as nat) + " rpm"@;
        if n == 1 {
            item
        } else {
            fans_words(rpm, n - 1) + "  "@ + item
        }
    }
}

/// The fan row: every reading, or a note that there are none.
pub fn fans_text(rpm: &[u32]) -> (r: String)
    ensures
        r@ == if rpm@.len() == 0 {
            "no tachometer readings"@
        } else {
            fans_words(rpm@, rpm@.len() as int)
        },
{
    if rpm.len() == 0 {
        return "no tachometer readings".to_owned();
    }
    let mut s = String::new();
    let mut i: usize = 0;
    while i < rpm.len()
        invariant
            i <= rpm.len(),
            s@ == fans_words(rpm@, i as int),
        decreases rpm.len() - i,
    {
        if i > 0 {
            s.append("  ");
        }
        s.append("fan");
        let idx = decimal_string((i as u64) + 1);
        s.append(idx.as_str());
        s.append(": ");
        let v = decimal_string(rpm[i] as u64);
        s.append(v.as_str());
        s.append(" rpm");
        proof {
            if i == 0 {
                assert(Seq::<char>::empty() + "fan"@ =~= "fan"@);
            }
        }
        i += 1;
    }
    s
}

/// The warning under the charge limit when other units rewrite it.
pub open spec fn conflict_words(units: Seq<Seq<char>>) -> Seq<char> {
    "!    "@ + joined(units, units.len() as int) + " also sets the charge limit"@
}

/// The first `n` names joined by `, `.
pub open spec fn joined(units: Seq<Seq<char>>, n: int) -> Seq<char>
    decreases n,
{
    if n <= 0 {
        Seq::empty()
    } else if n == 1 {
        units[0]
    } else {
        joined(units, n - 1) + ", "@ + units[n - 1]
    }
}

/// Names the units that also set the charge limit; nothing when there are
/// none, so the screen warns only about something real.
pub fn conflict_text(units: &[String]) -> (r: Option<String>)
    ensures
        match r {
            Some(s) => units@.len() > 0 && s@ == conflict_words(string_views(units@)),
            None => units@.len() == 0,
        },
{
    if units.len() == 0 {
        return None;
    }
    let ghost names = string_views(units@);
    let mut s = "!    ".to_owned();
    let ghost start = s@;
    let mut i: usize = 0;
    while i < units.len()
        invariant
            i <= units.len(),
            names == string_views(units@),
            s@ == start + joined(names, i as int),
        decreases units.len() - i,
    {
        if i > 0 {
            s.append(", ");
        }
        s.append(units[i].as_str());
        proof {
            assert(names[i as int] == units@[i as int]@);
            if i == 0 {
                assert(start + joined(names, 1) =~= start + Seq::<char>::empty() + names[0]);
            }
        }
        i += 1;
    }
    s.append(" also sets the charge limit");
    Some(s)
}

/// The footer when nothing has happened lately: the keys, or why there are
/// none.
pub open spec fn hint_words(read_only: bool) -> Seq<char> {
    if read_only {
        " q quit   r refresh   read-only: omarchy-powerd is not running"@
    } else {
        " q quit   r refresh   p/f cycle   b/s toggle   -/+ charge limit"@
    }
}

pub fn footer_hint(read_only: bool) -> (r: &'static str)
    ensures
        r@ == hint_words(read_only),
{
    if read_only {
        " q quit   r refresh   read-only: omarchy-powerd is not running"
    } else {
        " q quit   r refresh   p/f cycle   b/s toggle   -/+ charge limit"
    }
}

/// One row of the state panel: the key that changes it, what it is, what it
/// reads, and whether this machine has it. Rows the machine lacks stay on
/// screen, muted: knowing that the laptop cannot do something is worth a line.
#[derive(Debug, Clone, PartialEq, Eq)]
pub struct Row {
    pub key: &'static str,
    pub label: &'static str,
    pub value: String,
    pub supported: bool,
}

pub open spec fn row_is(r: Row, key: Seq<char>, label: Seq<char>, value: Seq<char>, supported: bool) -> bool {
    &&& r.key@ == key
    &&& r.label@ == label
    &&& r.value@ == value
    &&& r.supported == supported
}

/// The state panel, top to bottom. Each row carries the key that changes it,
/// so the panel doubles as the legend.
pub fn state_rows(state: &HwState, caps: Capabilities) -> (r: Vec<Row>)
    ensures
        r@.len() == 6,
        row_is(r@[0], "p"@, "Power level"@, power_level_words(state.power_level), caps.power_level),
        row_is(r@[1], "f"@, "Fan mode"@, fan_mode_words(state.fan_mode), caps.fan_mode),
        row_is(r@[2], "b"@, "Cooler boost"@, switch_words(state.cooler_boost), caps.cooler_boost),
        row_is(r@[3], "s"@, "Battery saver"@, switch_words(state.battery_saver), caps.battery_saver),
        row_is(r@[4], "-/+"@, "Charge limit"@, charge_words(*state), caps.charge_threshold),
        row_is(r@[5], ""@, "Battery"@, battery_words(*state), true),
{
    let mut rows: Vec<Row> = Vec::new();
    rows.push(Row {
        key: "p",
        label: "Power level",
        value: power_level_text(state.power_level),
        supported: caps.power_level,
    });
    rows.push(Row {
        key: "f",
        label: "Fan mode",
        value: fan_mode_text(state.fan_mode),
        supported: caps.fan_mode,
    });
    rows.push(Row {
        key: "b",
        label: "Cooler boost",
        value: switch_text(state.cooler_boost),
        supported: caps.cooler_boost,
    });
    rows.push(Row {
        key: "s",
        label: "Battery saver",
        value: switch_text(state.battery_saver),
        supported: caps.battery_saver,
    });
    rows.push(Row {
        key: "-/+",
        label: "Charge limit",
        value: charge_text(state),
        supported: caps.charge_threshold,
    });
    rows.push(Row { key: "", label: "Battery", value: battery_text(state), supported: true });
    rows
}

/// A temperature gauge's fill: percent of a 100 degree scale, which reads
/// at a glance and needs no per-model calibration; full from 100 °C.
pub fn gauge_percent(temp_c: u8) -> (r: u16)
    ensures
        r == if temp_c < 100 {
            temp_c as u16
        } else {
            100u16
        },
{
    if temp_c < 100 {
        temp_c as u16
    } else {
        100
    }
}

/// How the footer line is shown.
#[derive(Debug, Clone, Copy, PartialEq, Eq)]
pub enum Tone {
    /// The last action or read failed.
    Failed,
    /// The last action went through.
    Done,
    /// Nothing happened lately: the key hints.
    Hint,
}

/// The footer: the current status while there is one, otherwise the hint.
pub fn footer_line(status: Option<&Status>, read_only: bool) -> (r: (String, Tone))
    ensures
        match status {
            Some(s) => r.0@ == " "@ + s.text@ && r.1 == if s.failed {
                Tone::Failed
            } else {
                Tone::Done
            },
            None => r.0@ == hint_words(read_only) && r.1 == Tone::Hint,
        },
{
    match status {
        Some(s) => {
            let mut line = " ".to_owned();
            line.append(s.text.as_str());
            let tone = if s.failed {
                Tone::Failed
            } else {
                Tone::Done
            };
            (line, tone)
        },
        None => (footer_hint(read_only).to_owned(), Tone::Hint),
    }
}

} // verus!
