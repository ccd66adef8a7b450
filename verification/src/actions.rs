//! Turning key presses into intentions.
//!
//! The interesting behaviour here is what a key means given the current
//! hardware state, not how it gets delivered; the terminal's own key type is
//! translated into [`Key`] by the caller.
use vstd::prelude::*;

use crate::types::{Capabilities, FanMode, HwState, PowerLevel};

verus! {

/// A key press, as far as the controls care.
#[derive(Debug, Clone, Copy, PartialEq, Eq)]
pub enum Key {
    Char(char),
    Esc,
    Enter,
    /// Any other key.
    Other,
}

#[derive(Debug, Clone, Copy, PartialEq, Eq)]
pub enum Action {
    Quit,
    Refresh,
    SetPowerLevel(PowerLevel),
    SetFanMode(FanMode),
    SetCoolerBoost(bool),
    SetBatterySaver(bool),
    SetChargeThreshold(u8),
    /// The key maps to something this machine cannot do.
    Unsupported(&'static str),
    /// The key means nothing here.
    Ignored,
}

/// The charge limit one key press away from `current`, kept inside the
/// range the backends accept.
pub open spec fn stepped(current: u8, delta: int) -> u8 {
    let v = current + delta;
    if v < 20 {
        20
    } else if v > 100 {
        100
    } else {
        v as u8
    }
}

/// What stepping the charge limit by `delta` means.
pub open spec fn charge_spec(state: HwState, caps: Capabilities, delta: int, r: Action) -> bool {
    if !caps.charge_threshold {
        r matches Action::Unsupported(w) && w@ == "charge thresholds"@
    } else {
        match state.battery.charge_end_threshold {
            None => r == Action::Ignored,
            Some(c) => r == Action::SetChargeThreshold(stepped(c, delta)),
        }
    }
}

/// `action` when the machine can do it, otherwise which thing it lacks.
pub open spec fn gated_spec(supported: bool, what: Seq<char>, action: Action, r: Action) -> bool {
    if supported {
        r == action
    } else {
        r matches Action::Unsupported(w) && w@ == what
    }
}

/// What a key press means, given the current state and capabilities.
pub open spec fn for_key_spec(key: Key, state: HwState, caps: Capabilities, r: Action) -> bool {
    match key {
        Key::Esc => r == Action::Quit,
        Key::Char(c) => if c == 'q' || c == 'Q' {
            r == Action::Quit
        } else if c == 'r' || c == 'R' {
            r == Action::Refresh
        } else if c == 'p' || c == 'P' {
            gated_spec(
                caps.power_level,
                "power levels"@,
                Action::SetPowerLevel(
                    match state.power_level {
                        Some(l) => PowerLevel::cycle()[(l.position() + 1) % 3],
                        None => PowerLevel::cycle()[0],
                    },
                ),
                r,
            )
        } else if c == 'f' || c == 'F' {
            gated_spec(
                caps.fan_mode,
                "fan modes"@,
                Action::SetFanMode(
                    match state.fan_mode {
                        Some(m) => FanMode::cycle()[(m.position() + 1) % 3],
                        None => FanMode::cycle()[0],
                    },
                ),
                r,
            )
        } else if c == 'b' || c == 'B' {
            gated_spec(
                caps.cooler_boost,
                "cooler boost"@,
                Action::SetCoolerBoost(
                    !match state.cooler_boost {
                        Some(b) => b,
                        None => false,
                    },
                ),
                r,
            )
        } else if c == 's' || c == 'S' {
            gated_spec(
                caps.battery_saver,
                "battery saver"@,
                Action::SetBatterySaver(
                    !match state.battery_saver {
                        Some(b) => b,
                        None => false,
                    },
                ),
                r,
            )
        } else if c == '+' || c == '=' {
            charge_spec(state, caps, 5, r)
        } else if c == '-' || c == '_' {
            charge_spec(state, caps, -5, r)
        } else {
            r == Action::Ignored
        },
        _ => r == Action::Ignored,
    }
}

pub fn for_key(key: Key, state: &HwState, caps: Capabilities) -> (r: Action)
    ensures
        for_key_spec(key, *state, caps, r),
{
    match key {
        Key::Esc => Action::Quit,
        Key::Char(c) => {
            if c == 'q' || c == 'Q' {
                Action::Quit
            } else if c == 'r' || c == 'R' {
                Action::Refresh
            } else if c == 'p' || c == 'P' {
                gated(
                    caps.power_level,
                    "power levels",
                    Action::SetPowerLevel(PowerLevel::next(state.power_level)),
                )
            } else if c == 'f' || c == 'F' {
                gated(caps.fan_mode, "fan modes", Action::SetFanMode(FanMode::next(state.fan_mode)))
            } else if c == 'b' || c == 'B' {
                let on = match state.cooler_boost {
                    Some(b) => b,
                    None => false,
                };
                gated(caps.cooler_boost, "cooler boost", Action::SetCoolerBoost(!on))
            } else if c == 's' || c == 'S' {
                let on = match state.battery_saver {
                    Some(b) => b,
                    None => false,
                };
                gated(caps.battery_saver, "battery saver", Action::SetBatterySaver(!on))
            } else if c == '+' || c == '=' {
                charge(state, caps, 5)
            } else if c == '-' || c == '_' {
                charge(state, caps, -5)
            } else {
                Action::Ignored
            }
        },
        _ => Action::Ignored,
    }
}

/// `action` when the machine supports it, otherwise what it lacks.
pub fn gated(supported: bool, what: &'static str, action: Action) -> (r: Action)
    ensures
        gated_spec(supported, what@, action, r),
{
    if supported {
        action
    } else {
        Action::Unsupported(what)
    }
}

/// Step the charge limit, staying inside the accepted range.
///
/// Without a current reading there is nothing to step from, so the key is
/// ignored rather than guessing a starting point.
pub fn charge(state: &HwState, caps: Capabilities, delta: i16) -> (r: Action)
    ensures
        charge_spec(*state, caps, delta as int, r),
{
    if !caps.charge_threshold {
        return Action::Unsupported("charge thresholds");
    }
    let current = match state.battery.charge_end_threshold {
        Some(c) => c,
        None => {
            return Action::Ignored;
        },
    };
    let v: i32 = current as i32 + delta as i32;
    let next: i32 = if v < 20 {
        20
    } else if v > 100 {
        100
    } else {
        v
    };
    Action::SetChargeThreshold(next as u8)
}

/// The charge limit a key moves never leaves the range the backends accept.
pub proof fn lemma_stepped_in_range(current: u8, delta: int)
    ensures
        20 <= stepped(current, delta) <= 100,
{
}

/// What a key press changes, it changes: a toggle flips what the hardware
/// reports (off when unknown), a cycle moves to a different value (the first
/// of the cycle when unknown), and the charge keys move the limit by at most
/// five points, in their direction, within 20 to 100 (a limit already
/// outside that range comes back to its nearer end).
pub proof fn lemma_keys_change_what_they_name(c: char, st: HwState, caps: Capabilities, r: Action)
    requires
        for_key_spec(Key::Char(c), st, caps, r),
    ensures
        (c == 's' || c == 'S') && caps.battery_saver ==> (r matches Action::SetBatterySaver(b) && b
            != match st.battery_saver {
            Some(x) => x,
            None => false,
        }),
        (c == 'b' || c == 'B') && caps.cooler_boost ==> (r matches Action::SetCoolerBoost(b) && b
            != match st.cooler_boost {
            Some(x) => x,
            None => false,
        }),
        (c == 'p' || c == 'P') && caps.power_level ==> (r matches Action::SetPowerLevel(l) && match st.power_level {
            Some(x) => l != x,
            None => l == PowerLevel::Performance,
        }),
        (c == 'f' || c == 'F') && caps.fan_mode ==> (r matches Action::SetFanMode(m) && match st.fan_mode {
            Some(x) => m != x,
            None => m == FanMode::Auto,
        }),
        (c == '+' || c == '=') && caps.charge_threshold && st.battery.charge_end_threshold is Some
            ==> (r matches Action::SetChargeThreshold(n) && {
            let v = st.battery.charge_end_threshold->0;
            &&& 20 <= n <= 100
            &&& n <= v + 5 || n == 20
            &&& v < 100 ==> n > v
        }),
        (c == '-' || c == '_') && caps.charge_threshold && st.battery.charge_end_threshold is Some
            ==> (r matches Action::SetChargeThreshold(n) && {
            let v = st.battery.charge_end_threshold->0;
            &&& 20 <= n <= 100
            &&& n >= v - 5 || n == 100
            &&& v > 20 ==> n < v
        }),
{
}

} // verus!
