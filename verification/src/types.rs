//! Vendor-neutral model of laptop power state.
//!
//! Backends translate their own vocabulary into these types. MSI calls its
//! performance levels `turbo`/`comfort`/`eco`; other vendors use other words
//! for the same three ideas. Everything above the backend layer speaks only
//! the neutral names.
use vstd::prelude::*;

use crate::text::{chars_eq, chars_of};

verus! {

/// How hard the machine is allowed to work.
#[derive(Debug, Clone, Copy, PartialEq, Eq, Structural)]
pub enum PowerLevel {
    Performance,
    Balanced,
    PowerSaver,
}

/// Fan behaviour, independent of the performance level.
#[derive(Debug, Clone, Copy, PartialEq, Eq, Structural)]
pub enum FanMode {
    /// Firmware decides.
    Auto,
    /// Quiet at the cost of higher temperatures.
    Silent,
    /// Spins up earlier and harder than `Auto`.
    Aggressive,
}

impl PowerLevel {
    /// The neutral name, as the configuration file and the bus spell it.
    pub open spec fn name(self) -> Seq<char> {
        match self {
            PowerLevel::Performance => "performance"@,
            PowerLevel::Balanced => "balanced"@,
            PowerLevel::PowerSaver => "power-saver"@,
        }
    }

    /// Every level, in the order a key press cycles through them.
    pub open spec fn cycle() -> Seq<PowerLevel> {
        seq![PowerLevel::Performance, PowerLevel::Balanced, PowerLevel::PowerSaver]
    }

    pub open spec fn position(self) -> int {
        match self {
            PowerLevel::Performance => 0,
            PowerLevel::Balanced => 1,
            PowerLevel::PowerSaver => 2,
        }
    }

    pub open spec fn from_name_spec(s: Seq<char>) -> Option<PowerLevel> {
        if s == "performance"@ {
            Some(PowerLevel::Performance)
        } else if s == "balanced"@ {
            Some(PowerLevel::Balanced)
        } else if s == "power-saver"@ {
            Some(PowerLevel::PowerSaver)
        } else {
            None
        }
    }

    pub fn as_str(self) -> (r: &'static str)
        ensures
            r@ == self.name(),
    {
        match self {
            PowerLevel::Performance => "performance",
            PowerLevel::Balanced => "balanced",
            PowerLevel::PowerSaver => "power-saver",
        }
    }

    /// Reads a neutral name back; anything else is `None`.
    pub fn from_name(s: &str) -> (r: Option<PowerLevel>)
        ensures
            r == PowerLevel::from_name_spec(s@),
    {
        let v = chars_of(s);
        if chars_eq(&v, &chars_of("performance")) {
            Some(PowerLevel::Performance)
        } else if chars_eq(&v, &chars_of("balanced")) {
            Some(PowerLevel::Balanced)
        } else if chars_eq(&v, &chars_of("power-saver")) {
            Some(PowerLevel::PowerSaver)
        } else {
            None
        }
    }

    /// The level after `current` in the cycle, wrapping around; an unknown
    /// current level starts the cycle from the beginning.
    pub fn next(current: Option<PowerLevel>) -> (r: PowerLevel)
        ensures
            r == match current {
                Some(c) => PowerLevel::cycle()[(c.position() + 1) % 3],
                None => PowerLevel::cycle()[0],
            },
    {
        match current {
            Some(PowerLevel::Performance) => PowerLevel::Balanced,
            Some(PowerLevel::Balanced) => PowerLevel::PowerSaver,
            Some(PowerLevel::PowerSaver) => PowerLevel::Performance,
            None => PowerLevel::Performance,
        }
    }
}

impl FanMode {
    pub open spec fn name(self) -> Seq<char> {
        match self {
            FanMode::Auto => "auto"@,
            FanMode::Silent => "silent"@,
            FanMode::Aggressive => "aggressive"@,
        }
    }

    pub open spec fn cycle() -> Seq<FanMode> {
        seq![FanMode::Auto, FanMode::Silent, FanMode::Aggressive]
    }

    pub open spec fn position(self) -> int {
        match self {
            FanMode::Auto => 0,
            FanMode::Silent => 1,
            FanMode::Aggressive => 2,
        }
    }

    pub open spec fn from_name_spec(s: Seq<char>) -> Option<FanMode> {
        if s == "auto"@ {
            Some(FanMode::Auto)
        } else if s == "silent"@ {
            Some(FanMode::Silent)
        } else if s == "aggressive"@ {
            Some(FanMode::Aggressive)
        } else {
            None
        }
    }

    pub fn as_str(self) -> (r: &'static str)
        ensures
            r@ == self.name(),
    {
        match self {
            FanMode::Auto => "auto",
            FanMode::Silent => "silent",
            FanMode::Aggressive => "aggressive",
        }
    }

    pub fn from_name(s: &str) -> (r: Option<FanMode>)
        ensures
            r == FanMode::from_name_spec(s@),
    {
        let v = chars_of(s);
        if chars_eq(&v, &chars_of("auto")) {
            Some(FanMode::Auto)
        } else if chars_eq(&v, &chars_of("silent")) {
            Some(FanMode::Silent)
        } else if chars_eq(&v, &chars_of("aggressive")) {
            Some(FanMode::Aggressive)
        } else {
            None
        }
    }

    pub fn next(current: Option<FanMode>) -> (r: FanMode)
        ensures
            r == match current {
                Some(c) => FanMode::cycle()[(c.position() + 1) % 3],
                None => FanMode::cycle()[0],
            },
    {
        match current {
            Some(FanMode::Auto) => FanMode::Silent,
            Some(FanMode::Silent) => FanMode::Aggressive,
            Some(FanMode::Aggressive) => FanMode::Auto,
            None => FanMode::Auto,
        }
    }
}

/// A level's name reads back as the same level.
pub proof fn lemma_power_level_name_round_trip(level: PowerLevel)
    ensures
        PowerLevel::from_name_spec(level.name()) == Some(level),
{
    reveal_strlit("performance");
    reveal_strlit("balanced");
    reveal_strlit("power-saver");
    assert("performance"@.len() != "balanced"@.len());
    assert("performance"@[1] != "power-saver"@[1]);
    assert("balanced"@.len() != "power-saver"@.len());
}

/// A fan mode's name reads back as the same mode.
pub proof fn lemma_fan_mode_name_round_trip(mode: FanMode)
    ensures
        FanMode::from_name_spec(mode.name()) == Some(mode),
{
    reveal_strlit("auto");
    reveal_strlit("silent");
    reveal_strlit("aggressive");
    assert("auto"@.len() != "silent"@.len());
    assert("auto"@.len() != "aggressive"@.len());
    assert("silent"@.len() != "aggressive"@.len());
}

/// What a given machine can actually do.
///
/// Every field is checked before a write is attempted, so asking a laptop for
/// something it does not have fails with a clear error instead of an EIO from
/// deep inside sysfs.
#[derive(Debug, Clone, Copy, PartialEq, Eq, Structural)]
pub struct Capabilities {
    pub power_level: bool,
    pub fan_mode: bool,
    pub cooler_boost: bool,
    pub battery_saver: bool,
    pub charge_threshold: bool,
    pub charge_start_threshold: bool,
}

impl Capabilities {
    pub open spec fn none() -> Capabilities {
        Capabilities {
            power_level: false,
            fan_mode: false,
            cooler_boost: false,
            battery_saver: false,
            charge_threshold: false,
            charge_start_threshold: false,
        }
    }
}

impl Default for Capabilities {
    fn default() -> (r: Capabilities)
        ensures
            r == Capabilities::none(),
    {
        Capabilities {
            power_level: false,
            fan_mode: false,
            cooler_boost: false,
            battery_saver: false,
            charge_threshold: false,
            charge_start_threshold: false,
        }
    }
}

/// Live sensor readings. Every field is optional because coverage varies
/// wildly between vendors and even between firmware revisions of one model.
#[derive(Debug, Clone, PartialEq, Eq)]
pub struct Sensors {
    pub cpu_temp_c: Option<u8>,
    pub gpu_temp_c: Option<u8>,
    /// Fan duty as reported by the EC, in percent.
    pub cpu_fan_percent: Option<u8>,
    pub gpu_fan_percent: Option<u8>,
    /// Measured fan speeds in RPM. Zeroed entries are kept: a fan reporting
    /// 0 RPM is information, not noise.
    pub fan_rpm: Vec<u32>,
}

impl Default for Sensors {
    fn default() -> (r: Sensors)
        ensures
            r.cpu_temp_c is None,
            r.gpu_temp_c is None,
            r.cpu_fan_percent is None,
            r.gpu_fan_percent is None,
            r.fan_rpm@.len() == 0,
    {
        Sensors {
            cpu_temp_c: None,
            gpu_temp_c: None,
            cpu_fan_percent: None,
            gpu_fan_percent: None,
            fan_rpm: Vec::new(),
        }
    }
}

/// Battery state relevant to charging policy.
#[derive(Debug, Clone, Copy, PartialEq, Eq, Structural)]
pub struct Battery {
    pub capacity_percent: Option<u8>,
    /// Charging stops at this percentage.
    pub charge_end_threshold: Option<u8>,
    /// Charging resumes below this percentage.
    pub charge_start_threshold: Option<u8>,
    pub on_ac: Option<bool>,
}

impl Battery {
    pub open spec fn unknown() -> Battery {
        Battery {
            capacity_percent: None,
            charge_end_threshold: None,
            charge_start_threshold: None,
            on_ac: None,
        }
    }
}

impl Default for Battery {
    fn default() -> (r: Battery)
        ensures
            r == Battery::unknown(),
    {
        Battery {
            capacity_percent: None,
            charge_end_threshold: None,
            charge_start_threshold: None,
            on_ac: None,
        }
    }
}

/// A full snapshot of what the hardware is doing right now.
#[derive(Debug, Clone, PartialEq, Eq)]
pub struct HwState {
    pub power_level: Option<PowerLevel>,
    pub fan_mode: Option<FanMode>,
    pub cooler_boost: Option<bool>,
    pub battery_saver: Option<bool>,
    pub sensors: Sensors,
    pub battery: Battery,
}

impl HwState {
    /// Nothing known about anything.
    pub open spec fn is_blank(self) -> bool {
        &&& self.power_level is None
        &&& self.fan_mode is None
        &&& self.cooler_boost is None
        &&& self.battery_saver is None
        &&& self.sensors.cpu_temp_c is None
        &&& self.sensors.gpu_temp_c is None
        &&& self.sensors.cpu_fan_percent is None
        &&& self.sensors.gpu_fan_percent is None
        &&& self.sensors.fan_rpm@.len() == 0
        &&& self.battery == Battery::unknown()
    }
}

impl Default for HwState {
    fn default() -> (r: HwState)
        ensures
            r.is_blank(),
    {
        HwState {
            power_level: None,
            fan_mode: None,
            cooler_boost: None,
            battery_saver: None,
            sensors: Sensors::default(),
            battery: Battery::default(),
        }
    }
}

/// A requested change. `None` means "leave this alone", never "turn it off".
#[derive(Debug, Clone, Copy, PartialEq, Eq, Structural)]
pub struct HwProfile {
    pub power_level: Option<PowerLevel>,
    pub fan_mode: Option<FanMode>,
    pub cooler_boost: Option<bool>,
    pub battery_saver: Option<bool>,
    pub charge_end_threshold: Option<u8>,
    pub charge_start_threshold: Option<u8>,
}

impl HwProfile {
    /// The profile that asks for nothing.
    pub open spec fn nothing() -> HwProfile {
        HwProfile {
            power_level: None,
            fan_mode: None,
            cooler_boost: None,
            battery_saver: None,
            charge_end_threshold: None,
            charge_start_threshold: None,
        }
    }

    /// True when the profile asks for nothing at all.
    pub fn is_empty(&self) -> (r: bool)
        ensures
            r == (*self == HwProfile::nothing()),
    {
        self.power_level.is_none() && self.fan_mode.is_none() && self.cooler_boost.is_none()
            && self.battery_saver.is_none() && self.charge_end_threshold.is_none()
            && self.charge_start_threshold.is_none()
    }
}

impl Default for HwProfile {
    fn default() -> (r: HwProfile)
        ensures
            r == HwProfile::nothing(),
    {
        HwProfile {
            power_level: None,
            fan_mode: None,
            cooler_boost: None,
            battery_saver: None,
            charge_end_threshold: None,
            charge_start_threshold: None,
        }
    }
}

} // verus!
