//! Laptops covered by the kernel's own interfaces, with no vendor driver of
//! ours in the middle.
//!
//! `platform_profile` is the ACPI performance switch that ThinkPads,
//! Framework, Dell, ASUS and a good part of HP already expose, and
//! `charge_control_end_threshold` is the standard name for a charge limit.
//!
//! What it deliberately does not do: fan modes, cooler boost and battery
//! saver. No standard kernel interface exposes them.
use vstd::prelude::*;

use crate::backend::{Backend, Error, ErrorView, Probe, Write, writes_view};
use crate::backends::msi::opt_view;
use crate::battery;
use crate::sysfs::{
    after_writes, devices, devices_of, devices_where, select, fans, first_hwmon, first_power_supply, first_supply,
    hwmon_by_any_name, join, join_chars, join_path, lemma_written_concat, lemma_written_elsewhere,
    read_fans, written, Tree,
};
use crate::text::{
    chars_eq, chars_of, lemma_trim_plain, split_whitespace, string_of, trim, views, words,
};
use crate::types::{Capabilities, HwProfile, HwState, PowerLevel, Sensors};

verus! {

/// Where the profile switch lives: the directory, the attribute holding the
/// current profile, and the attribute listing what the firmware accepts.
pub struct Located {
    pub dir: Seq<char>,
    pub profile: Seq<char>,
    pub choices: Seq<char>,
}

/// The class interface (one device per handler, since 6.14) is preferred
/// where it exists; otherwise the original ACPI file.
pub open spec fn locate_spec(tree: Tree) -> Option<Located> {
    let class = devices(tree, "class/platform-profile"@);
    if class.len() > 0 && tree.file(join(class[0], "profile"@)) is Some {
        Some(
            Located {
                dir: class[0],
                profile: join(class[0], "profile"@),
                choices: join(class[0], "choices"@),
            },
        )
    } else if tree.file("firmware/acpi/platform_profile"@) is Some {
        Some(
            Located {
                dir: "firmware/acpi"@,
                profile: "firmware/acpi/platform_profile"@,
                choices: "firmware/acpi/platform_profile_choices"@,
            },
        )
    } else {
        None
    }
}

/// A firmware name read back as a neutral level. `balanced-performance` is
/// balanced: it is where a machine sits when nothing asked for full power.
/// `custom` and anything else is none of the three.
pub open spec fn level_of(raw: Seq<char>) -> Option<PowerLevel> {
    if raw == "performance"@ {
        Some(PowerLevel::Performance)
    } else if raw == "balanced"@ || raw == "balanced-performance"@ {
        Some(PowerLevel::Balanced)
    } else if raw == "low-power"@ || raw == "quiet"@ || raw == "cool"@ {
        Some(PowerLevel::PowerSaver)
    } else {
        None
    }
}

/// Firmware names for a neutral level, best first.
pub open spec fn candidates_spec(level: PowerLevel) -> Seq<Seq<char>> {
    match level {
        PowerLevel::Performance => seq!["performance"@, "balanced-performance"@, "balanced"@],
        PowerLevel::Balanced => seq!["balanced"@, "balanced-performance"@],
        PowerLevel::PowerSaver => seq!["low-power"@, "quiet"@, "cool"@, "balanced"@],
    }
}

/// The first of `names` that `choices` offers.
pub open spec fn first_offered(names: Seq<Seq<char>>, choices: Seq<Seq<char>>) -> Option<Seq<char>>
    decreases names.len(),
{
    if names.len() == 0 {
        None
    } else if choices.contains(names[0]) {
        Some(names[0])
    } else {
        first_offered(names.drop_first(), choices)
    }
}

/// Whether any of `choices` names a level.
pub open spec fn any_recognised(choices: Seq<Seq<char>>) -> bool {
    exists|i: int| 0 <= i < choices.len() && level_of(#[trigger] choices[i]) is Some
}

/// The accepted names listed at `path` (none when the file is missing).
pub open spec fn choices_at(tree: Tree, path: Seq<char>) -> Seq<Seq<char>> {
    match tree.attr(path) {
        Some(text) => words(text),
        None => Seq::empty(),
    }
}

/// Integer division rounding toward zero, as Rust's `/` does.
pub open spec fn div_toward_zero(a: int, b: int) -> int {
    if a >= 0 {
        a / b
    } else {
        -((-a) / b)
    }
}

/// Whole degrees from a chip's `temp1_input`, which is in millidegrees; a
/// reading outside `0..=255` degrees is no reading.
pub open spec fn temp_spec(tree: Tree, dir: Option<Seq<char>>) -> Option<u8> {
    match dir {
        Some(d) => match tree.read_i32_spec(join(d, "temp1_input"@)) {
            Some(m) => {
                let c = div_toward_zero(m as int, 1000);
                if 0 <= c <= 255 {
                    Some(c as u8)
                } else {
                    None
                }
            },
            None => None,
        },
        None => None,
    }
}

/// Every fan of every chip in `dirs`, chip by chip.
pub open spec fn all_fans(tree: Tree, dirs: Seq<Seq<char>>) -> Seq<u32>
    decreases dirs.len(),
{
    if dirs.len() == 0 {
        Seq::empty()
    } else {
        all_fans(tree, dirs.drop_last()) + fans(tree, dirs.last())
    }
}

pub open spec fn cpu_chips() -> Seq<Seq<char>> {
    seq!["coretemp"@, "k10temp"@, "zenpower"@]
}

pub open spec fn gpu_chips() -> Seq<Seq<char>> {
    seq!["amdgpu"@, "nouveau"@, "i915"@, "xe"@]
}

pub struct PlatformProfile {
    /// The directory holding the profile attribute, whichever interface it
    /// came from.
    dir: Vec<char>,
    /// The attribute holding the current profile.
    profile: Vec<char>,
    /// What this firmware accepts. Read once at probe: the list is fixed by
    /// the firmware and never changes while the machine is running.
    choices: Vec<Vec<char>>,
    battery: Option<Vec<char>>,
    mains: Option<Vec<char>>,
    caps: Capabilities,
}

/// The capabilities: a level switch and whatever the battery offers.
pub open spec fn pp_caps(tree: Tree) -> Capabilities {
    let (end, start) = battery::capabilities_spec(tree, first_supply(tree, "Battery"@));
    Capabilities {
        power_level: true,
        fan_mode: false,
        cooler_boost: false,
        battery_saver: false,
        charge_threshold: end,
        charge_start_threshold: start,
    }
}

/// The state read from `tree` through a profile attribute and a battery.
pub open spec fn pp_state(
    r: HwState,
    tree: Tree,
    profile: Seq<char>,
    battery: Option<Seq<char>>,
    mains: Option<Seq<char>>,
) -> bool {
    &&& r.power_level == match tree.attr(profile) {
        Some(v) => level_of(v),
        None => None,
    }
    &&& r.fan_mode is None
    &&& r.cooler_boost is None
    &&& r.battery_saver is None
    &&& r.sensors.cpu_temp_c == temp_spec(tree, first_hwmon(tree, cpu_chips()))
    &&& r.sensors.gpu_temp_c == temp_spec(tree, first_hwmon(tree, gpu_chips()))
    &&& r.sensors.cpu_fan_percent is None
    &&& r.sensors.gpu_fan_percent is None
    &&& r.sensors.fan_rpm@ == all_fans(tree, devices(tree, "class/hwmon"@))
    &&& r.battery == battery::battery_spec(tree, battery, mains)
}

/// Everything `apply` writes, in order, or why it writes nothing.
pub open spec fn pp_plan(
    tree: Tree,
    profile: Seq<char>,
    choices: Seq<Seq<char>>,
    battery: Option<Seq<char>>,
    caps: Capabilities,
    p: HwProfile,
) -> Result<Seq<(Seq<char>, Seq<char>)>, ErrorView> {
    if p.power_level is Some && first_offered(candidates_spec(p.power_level->0), choices) is None {
        Err(ErrorView::Unsupported("this performance level"@))
    } else if p.fan_mode is Some {
        Err(ErrorView::Unsupported("fan modes"@))
    } else if p.cooler_boost is Some {
        Err(ErrorView::Unsupported("cooler boost"@))
    } else if p.battery_saver is Some {
        Err(ErrorView::Unsupported("battery saver"@))
    } else {
        match battery::threshold_plan(
            tree,
            battery,
            (caps.charge_threshold, caps.charge_start_threshold),
            p,
        ) {
            Err(e) => Err(e),
            Ok(steps) => {
                let level = match p.power_level {
                    Some(l) => seq![
                        (profile, first_offered(candidates_spec(l), choices)->0),
                    ],
                    None => Seq::empty(),
                };
                Ok(level + battery::step_writes(battery->0, steps))
            },
        }
    }
}

fn opt_slice(o: &Option<Vec<char>>) -> (r: Option<&[char]>)
    ensures
        match r {
            Some(s) => *o matches Some(v) && s@ == v@,
            None => *o is None,
        },
{
    match o {
        Some(v) => Some(v.as_slice()),
        None => None,
    }
}

impl PlatformProfile {
    pub closed spec fn profile_path(&self) -> Seq<char> {
        self.profile@
    }

    pub closed spec fn profile_dir(&self) -> Seq<char> {
        self.dir@
    }

    pub closed spec fn offered(&self) -> Seq<Seq<char>> {
        views(self.choices@)
    }

    pub closed spec fn battery_dir(&self) -> Option<Seq<char>> {
        opt_view(self.battery)
    }

    pub closed spec fn mains_dir(&self) -> Option<Seq<char>> {
        opt_view(self.mains)
    }

    pub closed spec fn caps_spec(&self) -> Capabilities {
        self.caps
    }

    /// Locate the profile attribute and its list of choices.
    pub fn locate(tree: &Tree) -> (r: Option<(Vec<char>, Vec<char>, Vec<char>)>)
        ensures
            match (r, locate_spec(*tree)) {
                (Some((d, p, c)), Some(l)) => d@ == l.dir && p@ == l.profile && c@ == l.choices,
                (None, None) => true,
                _ => false,
            },
    {
        let class = chars_of("class/platform-profile");
        let devs = devices_of(tree, &class);
        if devs.len() > 0 {
            let dir = &devs[0];
            let profile = join_path(dir, "profile");
            if tree.has_file(&profile) {
                return Some((crate::text::copy_chars(dir), profile, join_path(dir, "choices")));
            }
        }
        let profile = chars_of("firmware/acpi/platform_profile");
        if tree.has_file(&profile) {
            Some((chars_of("firmware/acpi"), profile, chars_of("firmware/acpi/platform_profile_choices")))
        } else {
            None
        }
    }

    /// Firmware names for a neutral level, best first.
    ///
    /// Machines differ in which ones they offer, so a write picks the first
    /// name this machine actually accepts rather than assuming.
    pub fn candidates(level: PowerLevel) -> (r: Vec<&'static str>)
        ensures
            r@.map_values(|s: &str| s@) == candidates_spec(level),
    {
        let r = match level {
            PowerLevel::Performance => vec!["performance", "balanced-performance", "balanced"],
            PowerLevel::Balanced => vec!["balanced", "balanced-performance"],
            PowerLevel::PowerSaver => vec!["low-power", "quiet", "cool", "balanced"],
        };
        assert(r@.map_values(|s: &str| s@) =~= candidates_spec(level));
        r
    }

    /// Read a firmware name back as a neutral level.
    pub fn parse(raw: &[char]) -> (r: Option<PowerLevel>)
        ensures
            r == level_of(raw@),
    {
        if chars_eq(raw, &chars_of("performance")) {
            Some(PowerLevel::Performance)
        } else if chars_eq(raw, &chars_of("balanced")) || chars_eq(
            raw,
            &chars_of("balanced-performance"),
        ) {
            Some(PowerLevel::Balanced)
        } else if chars_eq(raw, &chars_of("low-power")) || chars_eq(raw, &chars_of("quiet"))
            || chars_eq(raw, &chars_of("cool")) {
            Some(PowerLevel::PowerSaver)
        } else {
            None
        }
    }

    /// The name to write for a level, or `None` when this firmware has none.
    pub fn value_for(&self, level: PowerLevel) -> (r: Option<&'static str>)
        ensures
            match r {
                Some(s) => first_offered(candidates_spec(level), self.offered()) == Some(s@),
                None => first_offered(candidates_spec(level), self.offered()) is None,
            },
    {
        let names = PlatformProfile::candidates(level);
        let ghost all = candidates_spec(level);
        let ghost offered = views(self.choices@);
        assert(all.subrange(0, all.len() as int) =~= all);
        let mut i: usize = 0;
        while i < names.len()
            invariant
                i <= names.len(),
                names@.map_values(|s: &str| s@) == all,
                all == candidates_spec(level),
                offered == views(self.choices@),
                first_offered(all, offered) == first_offered(
                    all.subrange(i as int, all.len() as int),
                    offered,
                ),
            decreases names.len() - i,
        {
            let name = chars_of(names[i]);
            let ghost rest = all.subrange(i as int, all.len() as int);
            assert(rest[0] == name@);
            assert(rest.drop_first() =~= all.subrange(i + 1, all.len() as int));
            let mut j: usize = 0;
            while j < self.choices.len()
                invariant
                    j <= self.choices.len(),
                    i < names.len(),
                    names@.map_values(|s: &str| s@) == all,
                    all == candidates_spec(level),
                    name@ == all[i as int],
                    first_offered(all, offered) == first_offered(
                        all.subrange(i as int, all.len() as int),
                        offered,
                    ),
                    all.subrange(i as int, all.len() as int)[0] == name@,
                    offered == views(self.choices@),
                    forall|k: int| 0 <= k < j ==> offered[k] != name@,
                decreases self.choices.len() - j,
            {
                if chars_eq(&self.choices[j], &name) {
                    assert(offered[j as int] == name@);
                    assert(offered.contains(name@));
                    assert(names@.map_values(|s: &str| s@)[i as int] == names@[i as int]@);
                    let ghost rest = all.subrange(i as int, all.len() as int);
                    assert(all.len() == names@.len());
                    assert(rest.len() > 0);
                    assert(first_offered(rest, offered) == Some(rest[0]));
                    assert(first_offered(all, offered) == Some(name@));
                    assert(first_offered(candidates_spec(level), self.offered()) == Some(name@));
                    let r = names[i];
                    assert(r@ == name@);
                    return Some(r);
                }
                j += 1;
            }
            assert(!offered.contains(name@));
            i += 1;
        }
        None
    }

    /// Whether any offered name is one we recognise.
    fn recognises_any(choices: &Vec<Vec<char>>) -> (r: bool)
        ensures
            r == any_recognised(views(choices@)),
    {
        let ghost v = views(choices@);
        let mut i: usize = 0;
        while i < choices.len()
            invariant
                i <= choices.len(),
                v == views(choices@),
                forall|k: int| 0 <= k < i ==> level_of(#[trigger] v[k]) is None,
            decreases choices.len() - i,
        {
            if PlatformProfile::parse(&choices[i]).is_some() {
                assert(level_of(v[i as int]) is Some);
                return true;
            }
            i += 1;
        }
        false
    }

    /// hwmon reports millidegrees; the rest of the program speaks whole degrees.
    pub fn temp_from(tree: &Tree, dir: Option<Vec<char>>) -> (r: Option<u8>)
        ensures
            r == temp_spec(*tree, opt_view(dir)),
    {
        let d = match dir {
            Some(d) => d,
            None => {
                return None;
            },
        };
        let m = match tree.read_i32(&join_path(&d, "temp1_input")) {
            Some(m) => m as i64,
            None => {
                return None;
            },
        };
        let c: i64 = if m >= 0 {
            m / 1000
        } else {
            0 - ((0 - m) / 1000)
        };
        if 0 <= c && c <= 255 {
            Some(c as u8)
        } else {
            None
        }
    }

    /// Every fan any hwmon chip reports, chip by chip in directory order.
    ///
    /// There is no single chip to ask: a ThinkPad puts its fan under
    /// `thinkpad`, a Framework under the EC driver.
    pub fn read_fan_rpm(tree: &Tree) -> (r: Vec<u32>)
        ensures
            r@ == all_fans(*tree, devices(*tree, "class/hwmon"@)),
    {
        let dirs = devices_of(tree, &chars_of("class/hwmon"));
        let ghost ds = views(dirs@);
        let mut out: Vec<u32> = Vec::new();
        let mut i: usize = 0;
        while i < dirs.len()
            invariant
                i <= dirs.len(),
                ds == views(dirs@),
                ds == devices(*tree, "class/hwmon"@),
                out@ == all_fans(*tree, ds.take(i as int)),
            decreases dirs.len() - i,
        {
            let mut f = read_fans(tree, &dirs[i]);
            proof {
                assert(ds.take(i + 1).drop_last() =~= ds.take(i as int));
                assert(ds.take(i + 1).last() == dirs@[i as int]@);
            }
            out.append(&mut f);
            i += 1;
        }
        assert(ds.take(dirs.len() as int) =~= ds);
        out
    }

    /// The battery and the mains adapter, through the shared reading.
    pub fn read_battery(&self, tree: &Tree) -> (r: crate::types::Battery)
        ensures
            r == battery::battery_spec(*tree, self.battery_dir(), self.mains_dir()),
    {
        battery::read(tree, opt_slice(&self.battery), opt_slice(&self.mains))
    }

    /// Reject thresholds the kernel would refuse anyway, with a better message.
    pub fn check_threshold(value: u8) -> (r: Result<(), Error>)
        ensures
            match r {
                Ok(()) => battery::in_range(value),
                Err(e) => !battery::in_range(value) && e@ == battery::bad_threshold(value),
            },
    {
        battery::check_range(value)
    }
}

impl Probe for PlatformProfile {
    fn probe(tree: &Tree) -> (r: Option<PlatformProfile>)
        ensures
            match r {
                Some(b) => locate_spec(*tree) matches Some(l) && {
                    &&& b.profile_path() == l.profile
                    &&& b.profile_dir() == l.dir
                    &&& b.offered() == choices_at(*tree, l.choices)
                    &&& any_recognised(b.offered())
                    &&& b.caps_spec() == pp_caps(*tree)
                    &&& b.battery_dir() == first_supply(*tree, "Battery"@)
                    &&& b.mains_dir() == first_supply(*tree, "Mains"@)
                },
                None => match locate_spec(*tree) {
                    Some(l) => !any_recognised(choices_at(*tree, l.choices)),
                    None => true,
                },
            },
    {
        let (dir, profile, choices_path) = match PlatformProfile::locate(tree) {
            Some(l) => l,
            None => {
                return None;
            },
        };
        let choices = match tree.read_opt(&choices_path) {
            Some(text) => split_whitespace(&text),
            None => Vec::new(),
        };
        proof {
            if tree.attr(choices_path@) is None {
                assert(views(choices@) =~= Seq::<Seq<char>>::empty());
            }
        }
        // A profile switch that accepts nothing we recognise is not a machine
        // we can drive: every key press would fail.
        if !PlatformProfile::recognises_any(&choices) {
            return None;
        }
        let battery = first_power_supply(tree, "Battery");
        let (can_end, can_start) = battery::capabilities(tree, opt_slice(&battery));
        let caps = Capabilities {
            power_level: true,
            fan_mode: false,
            cooler_boost: false,
            battery_saver: false,
            charge_threshold: can_end,
            charge_start_threshold: can_start,
        };
        Some(PlatformProfile {
            dir,
            profile,
            choices,
            mains: first_power_supply(tree, "Mains"),
            battery,
            caps,
        })
    }
}

impl Backend for PlatformProfile {
    fn name(&self) -> (r: &'static str)
        ensures
            r@ == "platform-profile"@,
    {
        "platform-profile"
    }

    /// The firmware handler's name (`thinkpad_acpi`, `amd-pmf`, `hp-wmi`),
    /// which only the class interface has.
    fn model(&self, tree: &Tree) -> (r: Option<String>)
        ensures
            match r {
                Some(s) => tree.attr(join(self.profile_dir(), "name"@)) == Some(s@),
                None => tree.attr(join(self.profile_dir(), "name"@)) is None,
            },
    {
        match tree.read_opt(&join_path(&self.dir, "name")) {
            Some(v) => Some(string_of(&v)),
            None => None,
        }
    }

    fn capabilities(&self) -> (r: Capabilities)
        ensures
            r == self.caps_spec(),
    {
        self.caps
    }

    fn read_state(&self, tree: &Tree) -> (r: HwState)
        ensures
            pp_state(r, *tree, self.profile_path(), self.battery_dir(), self.mains_dir()),
    {
        let power_level = match tree.read_opt(&self.profile) {
            Some(v) => PlatformProfile::parse(&v),
            None => None,
        };
        let cpu: [&str; 3] = ["coretemp", "k10temp", "zenpower"];
        let gpu: [&str; 4] = ["amdgpu", "nouveau", "i915", "xe"];
        assert(cpu@.map_values(|s: &str| s@) =~= cpu_chips());
        assert(gpu@.map_values(|s: &str| s@) =~= gpu_chips());
        let cpu_dir = hwmon_by_any_name(tree, &cpu);
        let gpu_dir = hwmon_by_any_name(tree, &gpu);
        HwState {
            power_level,
            fan_mode: None,
            cooler_boost: None,
            battery_saver: None,
            sensors: Sensors {
                cpu_temp_c: PlatformProfile::temp_from(tree, cpu_dir),
                gpu_temp_c: PlatformProfile::temp_from(tree, gpu_dir),
                // Duty percentages are a vendor EC idea; hwmon reports RPM.
                cpu_fan_percent: None,
                gpu_fan_percent: None,
                fan_rpm: PlatformProfile::read_fan_rpm(tree),
            },
            battery: self.read_battery(tree),
        }
    }

    fn apply(&self, profile: &HwProfile, tree: &Tree) -> (r: Result<Vec<Write>, Error>)
        ensures
            match (
                r,
                pp_plan(
                    *tree,
                    self.profile_path(),
                    self.offered(),
                    self.battery_dir(),
                    self.caps_spec(),
                    *profile,
                ),
            ) {
                (Ok(w), Ok(plan)) => writes_view(w@) == plan,
                (Err(e), Err(ev)) => e@ == ev,
                _ => false,
            },
    {
        let mut writes: Vec<Write> = Vec::new();
        if let Some(level) = profile.power_level {
            match self.value_for(level) {
                Some(value) => {
                    writes.push(Write { path: string_of(&self.profile), value: value.to_owned() });
                },
                None => {
                    return Err(Error::Unsupported("this performance level"));
                },
            }
        }
        if profile.fan_mode.is_some() {
            return Err(Error::Unsupported("fan modes"));
        }
        if profile.cooler_boost.is_some() {
            return Err(Error::Unsupported("cooler boost"));
        }
        if profile.battery_saver.is_some() {
            return Err(Error::Unsupported("battery saver"));
        }
        let mut thresholds = match battery::apply(
            tree,
            opt_slice(&self.battery),
            (self.caps.charge_threshold, self.caps.charge_start_threshold),
            profile,
        ) {
            Ok(w) => w,
            Err(e) => {
                return Err(e);
            },
        };
        let ghost a = writes_view(writes@);
        let ghost b = writes_view(thresholds@);
        writes.append(&mut thresholds);
        assert(writes_view(writes@) =~= a + b);
        Ok(writes)
    }
}

/// The firmware offers one of the level's own names, not only a
/// neighbouring level's name kept as a last resort.
pub open spec fn offers_own_name(level: PowerLevel, choices: Seq<Seq<char>>) -> bool {
    exists|i: int|
        0 <= i < candidates_spec(level).len() && level_of(#[trigger] candidates_spec(level)[i])
            == Some(level) && choices.contains(candidates_spec(level)[i])
}

/// What is offered first is one of the names asked about.
proof fn lemma_first_offered_is_a_name(names: Seq<Seq<char>>, choices: Seq<Seq<char>>)
    ensures
        first_offered(names, choices) matches Some(n) ==> names.contains(n),
    decreases names.len(),
{
    if names.len() > 0 && !choices.contains(names[0]) {
        lemma_first_offered_is_a_name(names.drop_first(), choices);
        if first_offered(names, choices) is Some {
            let n = first_offered(names, choices)->0;
            let k = choose|k: int| 0 <= k < names.drop_first().len() && names.drop_first()[k] == n;
            assert(names[k + 1] == n);
        }
    } else if names.len() > 0 {
        assert(names[0] == names[0]);
    }
}

/// The name written for a level reads back as itself, and as that level
/// whenever the firmware offers one of the level's own names.
proof fn lemma_offered_name(level: PowerLevel, choices: Seq<Seq<char>>)
    requires
        first_offered(candidates_spec(level), choices) is Some,
    ensures
        ({
            let name = first_offered(candidates_spec(level), choices)->0;
            &&& trim(name) == name
            &&& offers_own_name(level, choices) ==> level_of(name) == Some(level)
        }),
{
    reveal_strlit("performance");
    reveal_strlit("balanced-performance");
    reveal_strlit("balanced");
    reveal_strlit("low-power");
    reveal_strlit("quiet");
    reveal_strlit("cool");
    reveal_with_fuel(first_offered, 5);
    let c = candidates_spec(level);
    let name = first_offered(c, choices)->0;
    lemma_first_offered_is_a_name(c, choices);
    assert(forall|i: int| 0 <= i < c.len() ==> trim(#[trigger] c[i]) == c[i]) by {
        assert forall|i: int| 0 <= i < c.len() implies trim(#[trigger] c[i]) == c[i] by {
            lemma_trim_plain(c[i]);
        }
    }
    assert(trim(name) == name) by {
        let k = choose|k: int| 0 <= k < c.len() && c[k] == name;
        assert(trim(c[k]) == c[k]);
    }
    if offers_own_name(level, choices) {
        let i = choose|i: int|
            0 <= i < c.len() && level_of(#[trigger] c[i]) == Some(level) && choices.contains(c[i]);
        assert(level_of(c[i]) == Some(level));
    }
}

/// Reading the state back after carrying out a plan gives the thresholds
/// the profile asked for, and the level it asked for whenever the firmware
/// offers one of that level's own names (otherwise the neighbour written
/// in its place); a setting the profile leaves alone is not touched.
pub proof fn lemma_pp_reads_back(
    tree: Tree,
    profile: Seq<char>,
    choices: Seq<Seq<char>>,
    battery: Option<Seq<char>>,
    mains: Option<Seq<char>>,
    caps: Capabilities,
    p: HwProfile,
    after: Tree,
    r: HwState,
)
    requires
        pp_plan(tree, profile, choices, battery, caps, p) is Ok,
        after_writes(tree, pp_plan(tree, profile, choices, battery, caps, p)->Ok_0, after),
        pp_state(r, after, profile, battery, mains),
        battery is Some ==> profile != battery::end_path(battery->0) && profile
            != battery::start_path(battery->0),
    ensures
        p.power_level is Some ==> r.power_level == level_of(
            first_offered(candidates_spec(p.power_level->0), choices)->0,
        ),
        p.power_level is Some && offers_own_name(p.power_level->0, choices) ==> r.power_level
            == p.power_level,
        p.charge_end_threshold is Some ==> r.battery.charge_end_threshold == p.charge_end_threshold,
        p.charge_start_threshold is Some ==> r.battery.charge_start_threshold
            == p.charge_start_threshold,
        p.power_level is None ==> after.file(profile) == tree.file(profile),
        battery is Some && p.charge_end_threshold is None ==> after.file(
            battery::end_path(battery->0),
        ) == tree.file(battery::end_path(battery->0)),
        battery is Some && p.charge_start_threshold is None ==> after.file(
            battery::start_path(battery->0),
        ) == tree.file(battery::start_path(battery->0)),
{
    let dir = battery->0;
    let steps = battery::threshold_plan(
        tree,
        battery,
        (caps.charge_threshold, caps.charge_start_threshold),
        p,
    )->Ok_0;
    let w = battery::step_writes(dir, steps);
    let level = match p.power_level {
        Some(l) => seq![(profile, first_offered(candidates_spec(l), choices)->0)],
        None => Seq::<(Seq<char>, Seq<char>)>::empty(),
    };
    assert(pp_plan(tree, profile, choices, battery, caps, p)->Ok_0 == level + w);
    if battery is None {
        assert(steps =~= Seq::<(bool, u8)>::empty());
        assert(w =~= Seq::<(Seq<char>, Seq<char>)>::empty());
    }
    assert forall|i: int| 0 <= i < w.len() implies (#[trigger] w[i]).0 != profile by {
        assert(w[i] == battery::step_write(dir, steps[i]));
    }
    lemma_written_concat(tree.file(profile), level, w, profile);
    lemma_written_elsewhere(written(tree.file(profile), level, profile), w, profile);
    assert(after.file(profile) == written(tree.file(profile), level + w, profile));
    assert(written(tree.file(profile), Seq::<(Seq<char>, Seq<char>)>::empty(), profile) == tree.file(
        profile,
    ));
    if let Some(l) = p.power_level {
        assert(level.drop_last() =~= Seq::<(Seq<char>, Seq<char>)>::empty());
        lemma_offered_name(l, choices);
    } else {
        assert(level =~= Seq::<(Seq<char>, Seq<char>)>::empty());
    }
    if battery is Some {
        battery::lemma_thresholds_read_back(
            tree,
            battery,
            (caps.charge_threshold, caps.charge_start_threshold),
            p,
            level,
            after,
        );
        let e = battery::end_path(dir);
        let s = battery::start_path(dir);
        assert forall|i: int| 0 <= i < level.len() implies (#[trigger] level[i]).0 != e
            && level[i].0 != s by {}
        lemma_written_elsewhere(tree.file(e), level, e);
        lemma_written_elsewhere(tree.file(s), level, s);
    }
}

/// Each chip `select` picks reports the wanted value.
proof fn lemma_select_reports(
    tree: Tree,
    class: Seq<char>,
    names: Seq<Seq<char>>,
    attr: Seq<char>,
    wanted: Seq<char>,
)
    ensures
        forall|i: int|
            0 <= i < select(tree, class, names, attr, wanted).len() ==> tree.attr(
                join(#[trigger] select(tree, class, names, attr, wanted)[i], attr),
            ) == Some(wanted),
    decreases names.len(),
{
    if names.len() > 0 {
        lemma_select_reports(tree, class, names.drop_last(), attr, wanted);
    }
}

/// Whether the tree has a hwmon chip reporting `name`.
pub open spec fn has_chip(tree: Tree, name: Seq<char>) -> bool {
    devices_where(tree, "class/hwmon"@, "name"@, name).len() > 0
}

/// `dir` is a chip reporting `name`.
pub open spec fn chip_named(tree: Tree, dir: Option<Seq<char>>, name: Seq<char>) -> bool {
    dir matches Some(d) && tree.attr(join(d, "name"@)) == Some(name)
}

proof fn lemma_first_hwmon_step(tree: Tree, names: Seq<Seq<char>>)
    requires
        names.len() > 0,
    ensures
        has_chip(tree, names[0]) ==> chip_named(tree, first_hwmon(tree, names), names[0]),
        !has_chip(tree, names[0]) ==> first_hwmon(tree, names) == first_hwmon(
            tree,
            names.drop_first(),
        ),
{
    lemma_select_reports(
        tree,
        "class/hwmon"@,
        tree.listing("class/hwmon"@),
        "name"@,
        names[0],
    );
    if has_chip(tree, names[0]) {
        let found = devices_where(tree, "class/hwmon"@, "name"@, names[0]);
        assert(tree.attr(join(found[0], "name"@)) == Some(names[0]));
    }
}

/// The CPU temperature comes from `coretemp` (Intel) where the machine has
/// it, otherwise `k10temp` (AMD), otherwise `zenpower`; with none of them
/// there is no chip to read.
pub proof fn lemma_cpu_chip_preference(tree: Tree)
    ensures
        has_chip(tree, "coretemp"@) ==> chip_named(
            tree,
            first_hwmon(tree, cpu_chips()),
            "coretemp"@,
        ),
        !has_chip(tree, "coretemp"@) && has_chip(tree, "k10temp"@) ==> chip_named(
            tree,
            first_hwmon(tree, cpu_chips()),
            "k10temp"@,
        ),
        !has_chip(tree, "coretemp"@) && !has_chip(tree, "k10temp"@) && has_chip(tree, "zenpower"@)
            ==> chip_named(tree, first_hwmon(tree, cpu_chips()), "zenpower"@),
        !has_chip(tree, "coretemp"@) && !has_chip(tree, "k10temp"@) && !has_chip(
            tree,
            "zenpower"@,
        ) ==> first_hwmon(tree, cpu_chips()) is None,
{
    let n0 = cpu_chips();
    let n1 = n0.drop_first();
    let n2 = n1.drop_first();
    let n3 = n2.drop_first();
    assert(n1 =~= seq!["k10temp"@, "zenpower"@]);
    assert(n2 =~= seq!["zenpower"@]);
    assert(n3 =~= Seq::<Seq<char>>::empty());
    lemma_first_hwmon_step(tree, n0);
    lemma_first_hwmon_step(tree, n1);
    lemma_first_hwmon_step(tree, n2);
    assert(first_hwmon(tree, n3) is None);
}

/// The GPU temperature comes from the first of `amdgpu`, `nouveau`, `i915`
/// and `xe` the machine has; with none of them there is no chip to read.
pub proof fn lemma_gpu_chip_preference(tree: Tree)
    ensures
        has_chip(tree, "amdgpu"@) ==> chip_named(tree, first_hwmon(tree, gpu_chips()), "amdgpu"@),
        !has_chip(tree, "amdgpu"@) && has_chip(tree, "nouveau"@) ==> chip_named(
            tree,
            first_hwmon(tree, gpu_chips()),
            "nouveau"@,
        ),
        !has_chip(tree, "amdgpu"@) && !has_chip(tree, "nouveau"@) && has_chip(tree, "i915"@)
            ==> chip_named(tree, first_hwmon(tree, gpu_chips()), "i915"@),
        !has_chip(tree, "amdgpu"@) && !has_chip(tree, "nouveau"@) && !has_chip(tree, "i915"@)
            && has_chip(tree, "xe"@) ==> chip_named(tree, first_hwmon(tree, gpu_chips()), "xe"@),
        !has_chip(tree, "amdgpu"@) && !has_chip(tree, "nouveau"@) && !has_chip(tree, "i915"@)
            && !has_chip(tree, "xe"@) ==> first_hwmon(tree, gpu_chips()) is None,
{
    let n0 = gpu_chips();
    let n1 = n0.drop_first();
    let n2 = n1.drop_first();
    let n3 = n2.drop_first();
    let n4 = n3.drop_first();
    assert(n1 =~= seq!["nouveau"@, "i915"@, "xe"@]);
    assert(n2 =~= seq!["i915"@, "xe"@]);
    assert(n3 =~= seq!["xe"@]);
    assert(n4 =~= Seq::<Seq<char>>::empty());
    lemma_first_hwmon_step(tree, n0);
    lemma_first_hwmon_step(tree, n1);
    lemma_first_hwmon_step(tree, n2);
    lemma_first_hwmon_step(tree, n3);
    assert(first_hwmon(tree, n4) is None);
}

/// A level's own neutral name, which the kernel documents.
pub open spec fn neutral_name(level: PowerLevel) -> Seq<char> {
    match level {
        PowerLevel::Performance => "performance"@,
        PowerLevel::Balanced => "balanced"@,
        PowerLevel::PowerSaver => "low-power"@,
    }
}

/// When the firmware offers a level's neutral name, that is the name
/// written for it; whatever name is written is one the firmware offers.
pub proof fn lemma_neutral_name_preferred(level: PowerLevel, choices: Seq<Seq<char>>)
    ensures
        choices.contains(neutral_name(level)) ==> first_offered(candidates_spec(level), choices)
            == Some(neutral_name(level)),
        first_offered(candidates_spec(level), choices) matches Some(n) ==> choices.contains(n),
{
    lemma_first_offered_offered(candidates_spec(level), choices);
    if choices.contains(neutral_name(level)) {
        assert(candidates_spec(level)[0] == neutral_name(level));
    }
}

proof fn lemma_first_offered_offered(names: Seq<Seq<char>>, choices: Seq<Seq<char>>)
    ensures
        first_offered(names, choices) matches Some(n) ==> choices.contains(n),
    decreases names.len(),
{
    if names.len() > 0 && !choices.contains(names[0]) {
        lemma_first_offered_offered(names.drop_first(), choices);
    }
}

/// Asking for a level the firmware offers under its neutral name writes
/// exactly that name to the profile attribute, first.
pub proof fn lemma_plan_writes_neutral_name(
    tree: Tree,
    profile: Seq<char>,
    choices: Seq<Seq<char>>,
    battery: Option<Seq<char>>,
    caps: Capabilities,
    p: HwProfile,
)
    requires
        pp_plan(tree, profile, choices, battery, caps, p) is Ok,
        p.power_level is Some,
        choices.contains(neutral_name(p.power_level->0)),
    ensures
        pp_plan(tree, profile, choices, battery, caps, p)->Ok_0.len() > 0,
        pp_plan(tree, profile, choices, battery, caps, p)->Ok_0[0] == (
            profile,
            neutral_name(p.power_level->0),
        ),
{
    lemma_neutral_name_preferred(p.power_level->0, choices);
}

} // verus!
