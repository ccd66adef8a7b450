//! The daemon's bus interface, as far as it decides anything: which
//! authorisation each change needs, what profile a setter applies, and how a
//! hardware failure is reported on the bus.
use vstd::prelude::*;

use crate::backend::Error;
use crate::types::{FanMode, HwProfile, PowerLevel};

verus! {

/// One change a client can ask for.
#[derive(Debug, Clone, Copy, PartialEq, Eq)]
pub enum Setting {
    PowerLevel(PowerLevel),
    FanMode(FanMode),
    CoolerBoost(bool),
    BatterySaver(bool),
    ChargeEndThreshold(u8),
    ChargeStartThreshold(u8),
}

/// The profile that makes exactly one change and leaves the rest alone.
pub open spec fn setting_profile_spec(s: Setting) -> HwProfile {
    match s {
        Setting::PowerLevel(l) => HwProfile { power_level: Some(l), ..HwProfile::nothing() },
        Setting::FanMode(m) => HwProfile { fan_mode: Some(m), ..HwProfile::nothing() },
        Setting::CoolerBoost(on) => HwProfile { cooler_boost: Some(on), ..HwProfile::nothing() },
        Setting::BatterySaver(on) => HwProfile { battery_saver: Some(on), ..HwProfile::nothing() },
        Setting::ChargeEndThreshold(p) => HwProfile {
            charge_end_threshold: Some(p),
            ..HwProfile::nothing()
        },
        Setting::ChargeStartThreshold(p) => HwProfile {
            charge_start_threshold: Some(p),
            ..HwProfile::nothing()
        },
    }
}

/// A setting changes exactly the field it names, to the value it carries,
/// and asks for nothing else.
pub proof fn lemma_setting_names_its_field(s: Setting)
    ensures
        ({
            let r = setting_profile_spec(s);
            match s {
                Setting::PowerLevel(l) => r.power_level == Some(l) && r.fan_mode is None
                    && r.cooler_boost is None && r.battery_saver is None
                    && r.charge_end_threshold is None && r.charge_start_threshold is None,
                Setting::FanMode(m) => r.fan_mode == Some(m) && r.power_level is None
                    && r.cooler_boost is None && r.battery_saver is None
                    && r.charge_end_threshold is None && r.charge_start_threshold is None,
                Setting::CoolerBoost(on) => r.cooler_boost == Some(on) && r.power_level is None
                    && r.fan_mode is None && r.battery_saver is None
                    && r.charge_end_threshold is None && r.charge_start_threshold is None,
                Setting::BatterySaver(on) => r.battery_saver == Some(on) && r.power_level is None
                    && r.fan_mode is None && r.cooler_boost is None
                    && r.charge_end_threshold is None && r.charge_start_threshold is None,
                Setting::ChargeEndThreshold(v) => r.charge_end_threshold == Some(v)
                    && r.power_level is None && r.fan_mode is None && r.cooler_boost is None
                    && r.battery_saver is None && r.charge_start_threshold is None,
                Setting::ChargeStartThreshold(v) => r.charge_start_threshold == Some(v)
                    && r.power_level is None && r.fan_mode is None && r.cooler_boost is None
                    && r.battery_saver is None && r.charge_end_threshold is None,
            }
        }),
{
}

pub fn setting_profile(s: Setting) -> (r: HwProfile)
    ensures
        r == setting_profile_spec(s),
{
    match s {
        Setting::PowerLevel(l) => HwProfile { power_level: Some(l), ..HwProfile::default() },
        Setting::FanMode(m) => HwProfile { fan_mode: Some(m), ..HwProfile::default() },
        Setting::CoolerBoost(on) => HwProfile { cooler_boost: Some(on), ..HwProfile::default() },
        Setting::BatterySaver(on) => HwProfile { battery_saver: Some(on), ..HwProfile::default() },
        Setting::ChargeEndThreshold(p) => HwProfile {
            charge_end_threshold: Some(p),
            ..HwProfile::default()
        },
        Setting::ChargeStartThreshold(p) => HwProfile {
            charge_start_threshold: Some(p),
            ..HwProfile::default()
        },
    }
}

/// The polkit action that gates a change. The charge thresholds have their
/// own, because they outlive the session and affect the battery over months;
/// both halves share it, since a user thinks of them as one setting.
pub fn action_for(s: Setting) -> (r: &'static str)
    ensures
        r@ == match s {
            Setting::ChargeEndThreshold(_) | Setting::ChargeStartThreshold(_) =>
                "org.omarchy.power1.set-charge-threshold"@,
            _ => "org.omarchy.power1.set-profile"@,
        },
{
    match s {
        Setting::ChargeEndThreshold(_) | Setting::ChargeStartThreshold(_) =>
            "org.omarchy.power1.set-charge-threshold",
        _ => "org.omarchy.power1.set-profile",
    }
}

/// The standard bus errors a hardware failure maps onto.
#[derive(Debug, Clone, Copy, PartialEq, Eq)]
pub enum BusError {
    NotSupported,
    InvalidArgs,
    Failed,
}

/// Map hardware failures onto the closest standard bus error. A write that
/// fails here means the daemon itself lacks access, which is a deployment
/// problem, not the caller's fault.
pub fn bus_error(e: &Error) -> (r: BusError)
    ensures
        r == match e {
            Error::Unsupported(_) => BusError::NotSupported,
            Error::BadValue(..) => BusError::InvalidArgs,
            _ => BusError::Failed,
        },
{
    match e {
        Error::Unsupported(_) => BusError::NotSupported,
        Error::BadValue(..) => BusError::InvalidArgs,
        _ => BusError::Failed,
    }
}

/// Whether a change may go ahead, given polkit's answer for the caller.
/// `None` stands for a bus without polkit, where nothing is asked and the
/// bus's own access rules decide. A refusal is an access denial.
pub fn authorization(authorized: Option<bool>, action: &str) -> (r: Result<(), String>)
    ensures
        match authorized {
            Some(false) => r matches Err(e) && e@ == "not authorized for "@ + action@,
            _ => r is Ok,
        },
{
    match authorized {
        Some(false) => {
            let mut e = "not authorized for ".to_owned();
            e.append(action);
            Err(e)
        },
        _ => Ok(()),
    }
}

/// The power level a client named, or why the name is refused.
pub fn power_level_setting(name: &str) -> (r: Result<Setting, String>)
    ensures
        match PowerLevel::from_name_spec(name@) {
            Some(l) => r == Ok::<Setting, String>(Setting::PowerLevel(l)),
            None => r matches Err(e) && e@ == "unknown power level `"@ + name@ + "`"@,
        },
{
    match PowerLevel::from_name(name) {
        Some(l) => Ok(Setting::PowerLevel(l)),
        None => {
            let mut e = "unknown power level `".to_owned();
            e.append(name);
            e.append("`");
            Err(e)
        },
    }
}

/// The fan mode a client named, or why the name is refused.
pub fn fan_mode_setting(name: &str) -> (r: Result<Setting, String>)
    ensures
        match FanMode::from_name_spec(name@) {
            Some(m) => r == Ok::<Setting, String>(Setting::FanMode(m)),
            None => r matches Err(e) && e@ == "unknown fan mode `"@ + name@ + "`"@,
        },
{
    match FanMode::from_name(name) {
        Some(m) => Ok(Setting::FanMode(m)),
        None => {
            let mut e = "unknown fan mode `".to_owned();
            e.append(name);
            e.append("`");
            Err(e)
        },
    }
}

} // verus!
