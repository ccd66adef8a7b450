//! Deciding what the hardware should be doing.
//!
//! Three inputs feed one decision: the profile power-profiles-daemon reports,
//! whether we are on battery, and whether the thermal guard has tripped. The
//! decision itself is a pure function; the engine around it remembers what
//! it last applied so that unchanged decisions cost no writes and a manual
//! change is not immediately undone. Carrying out the writes it hands back is
//! the caller's job.
use vstd::prelude::*;

use crate::backend::{Backend, Error, Write, writes_view};
use crate::config::{profile_lookup, Config, Thermal};
use crate::detect::{plan_of, state_of, AnyBackend};
use crate::sysfs::Tree;
use crate::types::{FanMode, HwProfile};

verus! {

/// Everything the decision depends on.
#[derive(Debug, Clone, PartialEq, Eq)]
pub struct Inputs {
    /// The active power-profiles-daemon profile, when it is running.
    pub ppd_profile: Option<String>,
    pub on_battery: bool,
    pub thermal_tripped: bool,
}

impl Inputs {
    pub open spec fn profile_name(&self) -> Option<Seq<char>> {
        match self.ppd_profile {
            Some(s) => Some(s@),
            None => None,
        }
    }
}

impl Default for Inputs {
    fn default() -> (r: Inputs)
        ensures
            r.ppd_profile is None,
            !r.on_battery,
            !r.thermal_tripped,
    {
        Inputs { ppd_profile: None, on_battery: false, thermal_tripped: false }
    }
}

/// `base` with every field `over` sets replaced.
pub open spec fn overlay_spec(base: HwProfile, over: HwProfile) -> HwProfile {
    HwProfile {
        power_level: if over.power_level is Some {
            over.power_level
        } else {
            base.power_level
        },
        fan_mode: if over.fan_mode is Some {
            over.fan_mode
        } else {
            base.fan_mode
        },
        cooler_boost: if over.cooler_boost is Some {
            over.cooler_boost
        } else {
            base.cooler_boost
        },
        battery_saver: if over.battery_saver is Some {
            over.battery_saver
        } else {
            base.battery_saver
        },
        charge_end_threshold: if over.charge_end_threshold is Some {
            over.charge_end_threshold
        } else {
            base.charge_end_threshold
        },
        charge_start_threshold: if over.charge_start_threshold is Some {
            over.charge_start_threshold
        } else {
            base.charge_start_threshold
        },
    }
}

/// What the hardware should look like, given the configuration and inputs.
pub open spec fn decide_spec(
    config_profiles: Seq<(String, HwProfile)>,
    on_battery_profile: HwProfile,
    name: Option<Seq<char>>,
    on_battery: bool,
    tripped: bool,
) -> HwProfile {
    let base = match name {
        Some(n) => match profile_lookup(config_profiles, n) {
            Some(p) => p,
            None => HwProfile::nothing(),
        },
        None => HwProfile::nothing(),
    };
    let b = if on_battery {
        overlay_spec(base, on_battery_profile)
    } else {
        base
    };
    if tripped {
        HwProfile { fan_mode: Some(FanMode::Aggressive), ..b }
    } else {
        b
    }
}

pub open spec fn decision(config: Config, inputs: Inputs) -> HwProfile {
    decide_spec(
        config.profiles@,
        config.on_battery,
        inputs.profile_name(),
        inputs.on_battery,
        inputs.thermal_tripped,
    )
}

/// What the hardware should look like, given the inputs.
pub fn decide(config: &Config, inputs: &Inputs) -> (r: HwProfile)
    ensures
        r == decision(*config, *inputs),
{
    let mut profile = match &inputs.ppd_profile {
        Some(name) => match config.for_profile(name.as_str()) {
            Some(p) => p,
            None => HwProfile::default(),
        },
        None => HwProfile::default(),
    };
    if inputs.on_battery {
        overlay(&mut profile, &config.on_battery);
    }
    // Last word, on purpose: no profile and no config setting may keep the
    // fans quiet while the machine is overheating.
    if inputs.thermal_tripped {
        profile.fan_mode = Some(FanMode::Aggressive);
    }
    profile
}

/// Copy every field the overlay sets, leaving the rest alone.
pub fn overlay(base: &mut HwProfile, over: &HwProfile)
    ensures
        *final(base) == overlay_spec(*old(base), *over),
{
    if over.power_level.is_some() {
        base.power_level = over.power_level;
    }
    if over.fan_mode.is_some() {
        base.fan_mode = over.fan_mode;
    }
    if over.cooler_boost.is_some() {
        base.cooler_boost = over.cooler_boost;
    }
    if over.battery_saver.is_some() {
        base.battery_saver = over.battery_saver;
    }
    if over.charge_end_threshold.is_some() {
        base.charge_end_threshold = over.charge_end_threshold;
    }
    if over.charge_start_threshold.is_some() {
        base.charge_start_threshold = over.charge_start_threshold;
    }
}

/// While the thermal guard is tripped the fans run aggressive, whatever the
/// profile or the battery overlay asks for; everything else is as decided
/// without it.
pub proof fn lemma_overheating_forces_fans(config: Config, inputs: Inputs)
    requires
        inputs.thermal_tripped,
    ensures
        decision(config, inputs).fan_mode == Some(FanMode::Aggressive),
        decision(config, inputs) == (HwProfile {
            fan_mode: Some(FanMode::Aggressive),
            ..decision(config, (Inputs { thermal_tripped: false, ..inputs }))
        }),
{
}

/// The battery overlay only replaces what it sets: a field the overlay
/// leaves unset keeps the profile's own value, an empty overlay changes
/// nothing, and overlaying twice is overlaying once.
pub proof fn lemma_overlay_keeps_unset(base: HwProfile, over: HwProfile)
    ensures
        over.power_level is None ==> overlay_spec(base, over).power_level == base.power_level,
        over.fan_mode is None ==> overlay_spec(base, over).fan_mode == base.fan_mode,
        over.cooler_boost is None ==> overlay_spec(base, over).cooler_boost == base.cooler_boost,
        over.battery_saver is None ==> overlay_spec(base, over).battery_saver
            == base.battery_saver,
        over.charge_end_threshold is None ==> overlay_spec(base, over).charge_end_threshold
            == base.charge_end_threshold,
        over.charge_start_threshold is None ==> overlay_spec(base, over).charge_start_threshold
            == base.charge_start_threshold,
        overlay_spec(base, HwProfile::nothing()) == base,
        overlay_spec(overlay_spec(base, over), over) == overlay_spec(base, over),
{
}

/// Every field the overlay sets wins over the profile beneath it.
pub proof fn lemma_overlay_set_fields_win(base: HwProfile, over: HwProfile)
    ensures
        over.power_level is Some ==> overlay_spec(base, over).power_level == over.power_level,
        over.fan_mode is Some ==> overlay_spec(base, over).fan_mode == over.fan_mode,
        over.cooler_boost is Some ==> overlay_spec(base, over).cooler_boost == over.cooler_boost,
        over.battery_saver is Some ==> overlay_spec(base, over).battery_saver == over.battery_saver,
        over.charge_end_threshold is Some ==> overlay_spec(base, over).charge_end_threshold
            == over.charge_end_threshold,
        over.charge_start_threshold is Some ==> overlay_spec(base, over).charge_start_threshold
            == over.charge_start_threshold,
{
}

/// On battery, every field the on-battery profile sets is in the decision
/// (the fan mode too, unless the thermal guard has forced the fans up).
pub proof fn lemma_on_battery_fields_decide(config: Config, inputs: Inputs)
    requires
        inputs.on_battery,
    ensures
        config.on_battery.power_level is Some ==> decision(config, inputs).power_level
            == config.on_battery.power_level,
        config.on_battery.fan_mode is Some && !inputs.thermal_tripped ==> decision(
            config,
            inputs,
        ).fan_mode == config.on_battery.fan_mode,
        config.on_battery.cooler_boost is Some ==> decision(config, inputs).cooler_boost
            == config.on_battery.cooler_boost,
        config.on_battery.battery_saver is Some ==> decision(config, inputs).battery_saver
            == config.on_battery.battery_saver,
        config.on_battery.charge_end_threshold is Some ==> decision(
            config,
            inputs,
        ).charge_end_threshold == config.on_battery.charge_end_threshold,
        config.on_battery.charge_start_threshold is Some ==> decision(
            config,
            inputs,
        ).charge_start_threshold == config.on_battery.charge_start_threshold,
{
}

/// The guard after one reading: `(tripped, cool_since)`.
pub open spec fn guard_step(
    config: Thermal,
    tripped: bool,
    cool_since: Option<u64>,
    temp: Option<u8>,
    now_ms: u64,
) -> (bool, Option<u64>) {
    if !config.enabled {
        (tripped, cool_since)
    } else {
        match temp {
            None => (tripped, cool_since),
            Some(t) => if t >= config.high_c {
                (true, None)
            } else if tripped {
                if t <= config.low_c {
                    let since = match cool_since {
                        Some(s) => s,
                        None => now_ms,
                    };
                    let elapsed: int = if now_ms >= since {
                        now_ms - since
                    } else {
                        0
                    };
                    if elapsed >= config.cooldown_s * 1000 {
                        (false, None)
                    } else {
                        (true, Some(since))
                    }
                } else {
                    // Back above the low mark: the cooldown starts over.
                    (true, None)
                }
            } else {
                (tripped, cool_since)
            },
        }
    }
}

/// Trips when the CPU gets hot, and refuses to untrip until it has properly
/// cooled down and stayed that way. Times are milliseconds on a clock that
/// never goes backwards.
#[derive(Debug)]
pub struct ThermalGuard {
    config: Thermal,
    tripped: bool,
    /// When the temperature first dropped to the safe level.
    cool_since: Option<u64>,
}

impl ThermalGuard {
    pub closed spec fn thermal(&self) -> Thermal {
        self.config
    }

    pub closed spec fn is_tripped(&self) -> bool {
        self.tripped
    }

    pub closed spec fn cooling_since(&self) -> Option<u64> {
        self.cool_since
    }

    pub fn new(config: Thermal) -> (r: ThermalGuard)
        ensures
            r.thermal() == config,
            !r.is_tripped(),
            r.cooling_since() is None,
    {
        ThermalGuard { config, tripped: false, cool_since: None }
    }

    /// Feed in a temperature reading taken at `now_ms`; returns whether the
    /// guard is tripped. A disabled guard never is.
    pub fn update(&mut self, cpu_temp_c: Option<u8>, now_ms: u64) -> (r: bool)
        ensures
            final(self).thermal() == old(self).thermal(),
            (final(self).is_tripped(), final(self).cooling_since()) == guard_step(
                old(self).thermal(),
                old(self).is_tripped(),
                old(self).cooling_since(),
                cpu_temp_c,
                now_ms,
            ),
            r == (old(self).thermal().enabled && final(self).is_tripped()),
    {
        if !self.config.enabled {
            return false;
        }
        // A machine that stopped reporting temperatures is not a machine that
        // got cold; hold whatever the guard already decided.
        let temp = match cpu_temp_c {
            Some(t) => t,
            None => {
                return self.tripped;
            },
        };
        if temp >= self.config.high_c {
            self.tripped = true;
            self.cool_since = None;
        } else if self.tripped {
            if temp <= self.config.low_c {
                let since = match self.cool_since {
                    Some(s) => s,
                    None => now_ms,
                };
                self.cool_since = Some(since);
                let elapsed: u64 = if now_ms >= since {
                    now_ms - since
                } else {
                    0
                };
                if (elapsed as u128) >= (self.config.cooldown_s as u128) * 1000 {
                    self.tripped = false;
                    self.cool_since = None;
                }
            } else {
                self.cool_since = None;
            }
        }
        self.tripped
    }
}

/// A guard never releases above the low mark: whenever a reading leaves it
/// untripped after it was tripped, that reading was at or below the low mark
/// (and the machine had been that cool for the whole cooldown).
pub proof fn lemma_release_needs_cooling(
    config: Thermal,
    cool_since: Option<u64>,
    temp: Option<u8>,
    now_ms: u64,
)
    requires
        config.enabled,
        !guard_step(config, true, cool_since, temp, now_ms).0,
    ensures
        temp matches Some(t) && t <= config.low_c && t < config.high_c,
        config.cooldown_s == 0 || now_ms >= match cool_since {
            Some(s) => s,
            None => now_ms,
        } + config.cooldown_s * 1000,
{
}

/// Owns the backend and the current picture of the world.
pub struct Engine {
    backend: AnyBackend,
    config: Config,
    inputs: Inputs,
    guard: ThermalGuard,
    /// The last profile handed out for applying, so unchanged decisions cost
    /// no writes and a manual change is not immediately undone.
    applied: Option<HwProfile>,
}

impl Engine {
    pub closed spec fn backend_spec(&self) -> AnyBackend {
        self.backend
    }

    pub closed spec fn config_spec(&self) -> Config {
        self.config
    }

    pub closed spec fn inputs_spec(&self) -> Inputs {
        self.inputs
    }

    pub closed spec fn guard_spec(&self) -> ThermalGuard {
        self.guard
    }

    pub closed spec fn applied_spec(&self) -> Option<HwProfile> {
        self.applied
    }

    pub fn new(backend: AnyBackend, config: Config) -> (r: Engine)
        ensures
            r.backend_spec() == backend,
            r.config_spec() == config,
            r.inputs_spec().ppd_profile is None,
            !r.inputs_spec().on_battery,
            !r.inputs_spec().thermal_tripped,
            r.guard_spec().thermal() == config.thermal,
            !r.guard_spec().is_tripped(),
            r.guard_spec().cooling_since() is None,
            r.applied_spec() is None,
    {
        let guard = ThermalGuard::new(config.thermal);
        Engine { backend, config, inputs: Inputs::default(), guard, applied: None }
    }

    pub fn backend(&self) -> (r: &AnyBackend)
        ensures
            *r == self.backend_spec(),
    {
        &self.backend
    }

    /// The writes for a profile a client asked for, bypassing the decision.
    ///
    /// The automation does not fight it: the next reconcile only hands out
    /// writes if the decided profile has changed since it was last applied.
    pub fn apply_manual(&self, profile: &HwProfile, tree: &Tree) -> (r: Result<Vec<Write>, Error>)
        ensures
            match (r, plan_of(self.backend_spec(), *tree, *profile)) {
                (Ok(w), Ok(p)) => writes_view(w@) == p,
                (Err(e), Err(ev)) => e@ == ev,
                _ => false,
            },
    {
        self.backend.apply(profile, tree)
    }

    /// Follow a new power-profiles-daemon profile.
    pub fn set_ppd_profile(&mut self, name: Option<String>, tree: &Tree) -> (r: Option<Result<Vec<Write>, Error>>)
        ensures
            final(self).inputs_spec() == (Inputs { ppd_profile: name, ..old(self).inputs_spec() }),
            final(self).config_spec() == old(self).config_spec(),
            final(self).backend_spec() == old(self).backend_spec(),
            final(self).guard_spec() == old(self).guard_spec(),
            reconciled(old(self).applied_spec(), *final(self), *tree, r),
    {
        self.inputs.ppd_profile = name;
        self.reconcile(tree)
    }

    /// Follow the power source.
    pub fn set_on_battery(&mut self, on_battery: bool, tree: &Tree) -> (r: Option<Result<Vec<Write>, Error>>)
        ensures
            final(self).inputs_spec() == (Inputs { on_battery, ..old(self).inputs_spec() }),
            final(self).config_spec() == old(self).config_spec(),
            final(self).backend_spec() == old(self).backend_spec(),
            final(self).guard_spec() == old(self).guard_spec(),
            reconciled(old(self).applied_spec(), *final(self), *tree, r),
    {
        self.inputs.on_battery = on_battery;
        self.reconcile(tree)
    }

    /// Read the temperature from `tree` and let the guard decide, then
    /// reconcile.
    pub fn tick_thermal(&mut self, tree: &Tree, now_ms: u64) -> (r: Option<Result<Vec<Write>, Error>>)
        ensures
            exists|state: crate::types::HwState|
                #![trigger state_of(old(self).backend_spec(), state, *tree)]
                state_of(old(self).backend_spec(), state, *tree) && (
                final(self).guard_spec().is_tripped(),
                final(self).guard_spec().cooling_since(),
            ) == guard_step(
                old(self).guard_spec().thermal(),
                old(self).guard_spec().is_tripped(),
                old(self).guard_spec().cooling_since(),
                state.sensors.cpu_temp_c,
                now_ms,
            ) && final(self).inputs_spec() == (Inputs {
                thermal_tripped: old(self).guard_spec().thermal().enabled
                    && final(self).guard_spec().is_tripped(),
                ..old(self).inputs_spec()
            }),
            final(self).guard_spec().thermal() == old(self).guard_spec().thermal(),
            final(self).config_spec() == old(self).config_spec(),
            final(self).backend_spec() == old(self).backend_spec(),
            reconciled(old(self).applied_spec(), *final(self), *tree, r),
    {
        let state = self.backend.read_state(tree);
        let temp = state.sensors.cpu_temp_c;
        let tripped = self.guard.update(temp, now_ms);
        self.inputs.thermal_tripped = tripped;
        self.reconcile(tree)
    }

    /// Bring the hardware in line with the current decision, if it has moved:
    /// the writes to make, or `None` when nothing needs to change.
    pub fn reconcile(&mut self, tree: &Tree) -> (r: Option<Result<Vec<Write>, Error>>)
        ensures
            final(self).backend_spec() == old(self).backend_spec(),
            final(self).config_spec() == old(self).config_spec(),
            final(self).inputs_spec() == old(self).inputs_spec(),
            final(self).guard_spec() == old(self).guard_spec(),
            reconciled(old(self).applied_spec(), *final(self), *tree, r),
    {
        let profile = decide(&self.config, &self.inputs);
        if profile.is_empty() {
            return None;
        }
        match self.applied {
            Some(p) => {
                if p == profile {
                    return None;
                }
            },
            None => {},
        }
        self.applied = Some(profile);
        let plan = self.backend.apply(&profile, tree);
        if plan.is_err() {
            // Forget it, so the next event tries again rather than assuming
            // the hardware is in a state it never reached.
            self.applied = None;
        }
        Some(plan)
    }

    /// A write of the last plan failed: forget what was applied, so the next
    /// event tries again.
    pub fn write_failed(&mut self)
        ensures
            final(self).applied_spec() is None,
            final(self).backend_spec() == old(self).backend_spec(),
            final(self).config_spec() == old(self).config_spec(),
            final(self).inputs_spec() == old(self).inputs_spec(),
            final(self).guard_spec() == old(self).guard_spec(),
    {
        self.applied = None;
    }
}

/// What reconciling did, given what had been applied before: nothing when
/// the decision asks for nothing or is what was last applied; otherwise the
/// backend's plan for the decision, remembered as applied unless refused.
pub open spec fn reconciled(
    before: Option<HwProfile>,
    after: Engine,
    tree: Tree,
    r: Option<Result<Vec<Write>, Error>>,
) -> bool {
    let d = decision(after.config_spec(), after.inputs_spec());
    if d == HwProfile::nothing() || before == Some(d) {
        r is None && after.applied_spec() == before
    } else {
        r matches Some(res) && match (res, plan_of(after.backend_spec(), tree, d)) {
            (Ok(w), Ok(p)) => writes_view(w@) == p && after.applied_spec() == Some(d),
            (Err(e), Err(ev)) => e@ == ev && after.applied_spec() is None,
            _ => false,
        }
    }
}

/// Reconciling twice in a row hands out nothing the second time: once a
/// decision has been applied, an unchanged decision costs no writes.
pub proof fn lemma_reconcile_settles(before: Option<HwProfile>, mid: Engine, tree: Tree, r1: Option<
    Result<Vec<Write>, Error>,
>, after: Engine, r2: Option<Result<Vec<Write>, Error>>)
    requires
        reconciled(before, mid, tree, r1),
        r1 matches Some(Ok(_)) || r1 is None,
        after.config_spec() == mid.config_spec(),
        after.inputs_spec() == mid.inputs_spec(),
        reconciled(mid.applied_spec(), after, tree, r2),
    ensures
        r2 is None,
{
}

/// Once what was applied has been forgotten (the backend refused the plan,
/// or one of its writes failed), the next reconcile hands the decision out
/// again rather than assuming the hardware reached it.
pub proof fn lemma_forgotten_is_retried(after: Engine, tree: Tree, r: Option<
    Result<Vec<Write>, Error>,
>)
    requires
        reconciled(None, after, tree, r),
        decision(after.config_spec(), after.inputs_spec()) != HwProfile::nothing(),
    ensures
        r is Some,
{
}

} // verus!
