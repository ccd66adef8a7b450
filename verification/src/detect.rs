//! Hardware detection.
//!
//! Backends are tried in registration order and the first one that
//! recognises the tree wins: vendor backends first, then the kernel's own
//! interfaces. The order is not cosmetic: an MSI laptop can have both, and the
//! vendor driver reaches fan modes and cooler boost that `platform_profile`
//! has no idea about.
use vstd::prelude::*;

use crate::backend::{Backend, Error, Probe, Write, writes_view};
use crate::backends::msi::{self, Msi};
use crate::backends::platform_profile::{self as pp, PlatformProfile};
use crate::sysfs::{after_writes, first_supply, join, Tree};
use crate::battery;
use crate::types::{Capabilities, HwProfile, HwState, PowerLevel};

verus! {

/// The backend that claimed a machine.
pub enum AnyBackend {
    Msi(Msi),
    PlatformProfile(PlatformProfile),
}

/// Whether the MSI driver is there: its `shift_mode` attribute exists.
pub open spec fn has_msi(tree: Tree) -> bool {
    tree.file(msi::ec_attr("shift_mode"@)) is Some
}

/// Whether the kernel's profile switch is there and offers a level we know.
pub open spec fn has_platform_profile(tree: Tree) -> bool {
    pp::locate_spec(tree) matches Some(l) && pp::any_recognised(pp::choices_at(tree, l.choices))
}

/// An MSI backend set up for `tree`.
pub open spec fn msi_for(m: Msi, tree: Tree) -> bool {
    &&& m.caps_spec() == msi::msi_caps(tree)
    &&& m.battery_dir() == first_supply(tree, "Battery"@)
    &&& m.mains_dir() == first_supply(tree, "Mains"@)
    &&& m.hwmon_dir() == msi::msi_hwmon(tree)
}

/// A platform-profile backend set up for `tree`.
pub open spec fn platform_profile_for(b: PlatformProfile, tree: Tree) -> bool {
    pp::locate_spec(tree) matches Some(l) && {
        &&& b.profile_path() == l.profile
        &&& b.profile_dir() == l.dir
        &&& b.offered() == pp::choices_at(tree, l.choices)
        &&& b.caps_spec() == pp::pp_caps(tree)
        &&& b.battery_dir() == first_supply(tree, "Battery"@)
        &&& b.mains_dir() == first_supply(tree, "Mains"@)
    }
}

/// Everything a backend's `apply` writes for a profile, in order, or why it
/// writes nothing.
pub open spec fn plan_of(b: AnyBackend, tree: Tree, p: HwProfile) -> Result<
    Seq<(Seq<char>, Seq<char>)>,
    crate::backend::ErrorView,
> {
    match b {
        AnyBackend::Msi(m) => msi::msi_plan(tree, m.battery_dir(), m.caps_spec(), p),
        AnyBackend::PlatformProfile(b) => pp::pp_plan(
            tree,
            b.profile_path(),
            b.offered(),
            b.battery_dir(),
            b.caps_spec(),
            p,
        ),
    }
}

/// Whether `r` is what a backend reads from `tree`.
pub open spec fn state_of(b: AnyBackend, r: HwState, tree: Tree) -> bool {
    match b {
        AnyBackend::Msi(m) => msi::msi_state(r, tree, m.hwmon_dir(), m.battery_dir(), m.mains_dir()),
        AnyBackend::PlatformProfile(b) => pp::pp_state(
            r,
            tree,
            b.profile_path(),
            b.battery_dir(),
            b.mains_dir(),
        ),
    }
}

impl AnyBackend {
    /// The backend's name.
    pub open spec fn name_of(&self) -> Seq<char> {
        match self {
            AnyBackend::Msi(_) => "msi-ec"@,
            AnyBackend::PlatformProfile(_) => "platform-profile"@,
        }
    }

    /// The backend's capabilities.
    pub open spec fn caps_of(&self) -> Capabilities {
        match self {
            AnyBackend::Msi(b) => b.caps_spec(),
            AnyBackend::PlatformProfile(b) => b.caps_spec(),
        }
    }

    /// The model the backend reads from `tree`.
    pub open spec fn model_of(&self, tree: Tree) -> Option<Seq<char>> {
        match self {
            AnyBackend::Msi(_) => tree.attr(msi::ec_attr("fw_version"@)),
            AnyBackend::PlatformProfile(b) => tree.attr(join(b.profile_dir(), "name"@)),
        }
    }
}

/// Detect the backend for a captured sysfs tree.
pub fn detect_in(tree: &Tree) -> (r: Result<AnyBackend, Error>)
    ensures
        has_msi(*tree) ==> (r matches Ok(AnyBackend::Msi(m)) && msi_for(m, *tree)),
        !has_msi(*tree) && has_platform_profile(*tree) ==> (r matches Ok(
            AnyBackend::PlatformProfile(b),
        ) && platform_profile_for(b, *tree)),
        !has_msi(*tree) && !has_platform_profile(*tree) ==> r matches Err(Error::NoBackend),
{
    if let Some(backend) = Msi::probe(tree) {
        return Ok(AnyBackend::Msi(backend));
    }
    if let Some(backend) = PlatformProfile::probe(tree) {
        return Ok(AnyBackend::PlatformProfile(backend));
    }
    Err(Error::NoBackend)
}

impl Backend for AnyBackend {
    fn name(&self) -> (r: &'static str)
        ensures
            r@ == self.name_of(),
    {
        match self {
            AnyBackend::Msi(b) => b.name(),
            AnyBackend::PlatformProfile(b) => b.name(),
        }
    }

    fn model(&self, tree: &Tree) -> (r: Option<String>)
        ensures
            match r {
                Some(s) => self.model_of(*tree) == Some(s@),
                None => self.model_of(*tree) is None,
            },
    {
        match self {
            AnyBackend::Msi(b) => b.model(tree),
            AnyBackend::PlatformProfile(b) => b.model(tree),
        }
    }

    fn capabilities(&self) -> (r: Capabilities)
        ensures
            r == self.caps_of(),
    {
        match self {
            AnyBackend::Msi(b) => b.capabilities(),
            AnyBackend::PlatformProfile(b) => b.capabilities(),
        }
    }

    fn read_state(&self, tree: &Tree) -> (r: HwState)
        ensures
            state_of(*self, r, *tree),
    {
        match self {
            AnyBackend::Msi(b) => b.read_state(tree),
            AnyBackend::PlatformProfile(b) => b.read_state(tree),
        }
    }

    fn apply(&self, profile: &HwProfile, tree: &Tree) -> (r: Result<Vec<Write>, Error>)
        ensures
            match (r, plan_of(*self, *tree, *profile)) {
                (Ok(w), Ok(p)) => writes_view(w@) == p,
                (Err(e), Err(ev)) => e@ == ev,
                _ => false,
            },
    {
        match self {
            AnyBackend::Msi(b) => b.apply(profile, tree),
            AnyBackend::PlatformProfile(b) => b.apply(profile, tree),
        }
    }
}

/// Whether writing `level` through `b` lands on one of that level's own
/// names: always for the vendor driver; for the kernel's switch, when the
/// firmware offers one.
pub open spec fn reaches_level(b: AnyBackend, level: PowerLevel) -> bool {
    match b {
        AnyBackend::Msi(_) => true,
        AnyBackend::PlatformProfile(x) => pp::offers_own_name(level, x.offered()),
    }
}

/// Whatever detection chose for a machine, carrying out the backend's plan
/// for a profile and reading the state back gives every setting the profile
/// asked for (a power level whenever the backend reaches that level's own
/// name), and every setting the profile leaves alone keeps what it held.
pub proof fn lemma_detected_reads_back(
    b: AnyBackend,
    seen: Tree,
    tree: Tree,
    p: HwProfile,
    after: Tree,
    r: HwState,
)
    requires
        match b {
            AnyBackend::Msi(m) => msi_for(m, seen),
            AnyBackend::PlatformProfile(x) => platform_profile_for(x, seen),
        },
        plan_of(b, tree, p) is Ok,
        after_writes(tree, plan_of(b, tree, p)->Ok_0, after),
        state_of(b, r, after),
    ensures
        p.power_level is Some && reaches_level(b, p.power_level->0) ==> r.power_level
            == p.power_level,
        p.fan_mode is Some ==> r.fan_mode == p.fan_mode,
        p.cooler_boost is Some ==> r.cooler_boost == p.cooler_boost,
        p.battery_saver is Some ==> r.battery_saver == p.battery_saver,
        p.charge_end_threshold is Some ==> r.battery.charge_end_threshold == p.charge_end_threshold,
        p.charge_start_threshold is Some ==> r.battery.charge_start_threshold
            == p.charge_start_threshold,
{
    match b {
        AnyBackend::Msi(m) => {
            msi::lemma_msi_reads_back(
                tree,
                m.hwmon_dir(),
                m.battery_dir(),
                m.mains_dir(),
                m.caps_spec(),
                p,
                after,
                r,
            );
        },
        AnyBackend::PlatformProfile(x) => {
            let l = pp::locate_spec(seen)->0;
            let battery = x.battery_dir();
            if battery is Some {
                let dir = battery->0;
                reveal_strlit("profile");
                reveal_strlit("firmware/acpi/platform_profile");
                reveal_strlit("charge_control_end_threshold");
                reveal_strlit("charge_control_start_threshold");
                let e = battery::end_path(dir);
                let st = battery::start_path(dir);
                assert(e[e.len() - 1] == 'd');
                assert(st[st.len() - 1] == 'd');
                assert(l.profile[l.profile.len() - 1] == 'e');
            }
            pp::lemma_pp_reads_back(
                tree,
                x.profile_path(),
                x.offered(),
                battery,
                x.mains_dir(),
                x.caps_spec(),
                p,
                after,
                r,
            );
        },
    }
}

} // verus!
