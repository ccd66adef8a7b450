//! MSI laptops, via the out-of-tree `msi-ec` driver.
//!
//! The charge thresholds on this firmware are coupled: writing the start
//! threshold moves the end one to keep a fixed ten-point gap, and vice versa.
//! Nothing here enforces or undoes that; the pair is read back from the
//! hardware after every write, so both rows simply show what the firmware
//! settled on.
use vstd::prelude::*;

use crate::backend::{Backend, Error, ErrorView, Probe, Write, writes_view};
use crate::battery;
use crate::sysfs::{
    after_writes, devices_where, fans, first_power_supply, first_supply, hwmon_by_name, join,
    join_path, lemma_join_endings_differ, lemma_join_lengths_differ, lemma_written_concat,
    lemma_written_elsewhere, read_fans, written, Tree,
};
use crate::text::{chars_eq, chars_of, lemma_trim_plain, string_of, trim};
use crate::types::{Capabilities, FanMode, HwProfile, HwState, PowerLevel, Sensors};

verus! {

/// The directory of the EC driver's attributes.
pub open spec fn ec() -> Seq<char> {
    "devices/platform/msi-ec"@
}

/// One of the EC driver's attributes.
pub open spec fn ec_attr(name: Seq<char>) -> Seq<char> {
    join(ec(), name)
}

pub open spec fn opt_view(o: Option<Vec<char>>) -> Option<Seq<char>> {
    match o {
        Some(v) => Some(v@),
        None => None,
    }
}

pub struct Msi {
    /// Provides real RPM readings; the EC only reports duty percentages.
    hwmon: Option<Vec<char>>,
    battery: Option<Vec<char>>,
    mains: Option<Vec<char>>,
    caps: Capabilities,
}

/// MSI's word for a neutral power level.
pub open spec fn shift_mode_word(level: PowerLevel) -> Seq<char> {
    match level {
        PowerLevel::Performance => "turbo"@,
        PowerLevel::Balanced => "comfort"@,
        PowerLevel::PowerSaver => "eco"@,
    }
}

pub open spec fn shift_mode_level(raw: Seq<char>) -> Option<PowerLevel> {
    if raw == "turbo"@ {
        Some(PowerLevel::Performance)
    } else if raw == "comfort"@ {
        Some(PowerLevel::Balanced)
    } else if raw == "eco"@ {
        Some(PowerLevel::PowerSaver)
    } else {
        None
    }
}

pub open spec fn fan_mode_word(mode: FanMode) -> Seq<char> {
    match mode {
        FanMode::Auto => "auto"@,
        FanMode::Silent => "silent"@,
        FanMode::Aggressive => "advanced"@,
    }
}

pub open spec fn fan_mode_of(raw: Seq<char>) -> Option<FanMode> {
    if raw == "auto"@ {
        Some(FanMode::Auto)
    } else if raw == "silent"@ {
        Some(FanMode::Silent)
    } else if raw == "advanced"@ {
        Some(FanMode::Aggressive)
    } else {
        None
    }
}

/// MSI spells booleans `on` and `off`.
pub open spec fn switch_word(on: bool) -> Seq<char> {
    if on {
        "on"@
    } else {
        "off"@
    }
}

pub open spec fn switch_of(raw: Seq<char>) -> Option<bool> {
    if raw == "on"@ {
        Some(true)
    } else if raw == "off"@ {
        Some(false)
    } else {
        None
    }
}

/// Writing a level and reading the word back gives the same level.
pub proof fn lemma_shift_mode_round_trip(level: PowerLevel)
    ensures
        shift_mode_level(shift_mode_word(level)) == Some(level),
{
    reveal_strlit("turbo");
    reveal_strlit("comfort");
    reveal_strlit("eco");
    assert("turbo"@.len() != "comfort"@.len());
    assert("turbo"@.len() != "eco"@.len());
    assert("comfort"@.len() != "eco"@.len());
}

/// Writing a fan mode and reading the word back gives the same mode.
pub proof fn lemma_fan_mode_round_trip(mode: FanMode)
    ensures
        fan_mode_of(fan_mode_word(mode)) == Some(mode),
{
    reveal_strlit("auto");
    reveal_strlit("silent");
    reveal_strlit("advanced");
    assert("auto"@.len() != "silent"@.len());
    assert("auto"@.len() != "advanced"@.len());
    assert("silent"@.len() != "advanced"@.len());
}

/// Writing a switch and reading it back gives the same setting.
pub proof fn lemma_switch_round_trip(on: bool)
    ensures
        switch_of(switch_word(on)) == Some(on),
{
    reveal_strlit("on");
    reveal_strlit("off");
    assert("on"@.len() != "off"@.len());
}

/// What the driver's attribute files say this machine can do.
pub open spec fn msi_caps(tree: Tree) -> Capabilities {
    let (end, start) = battery::capabilities_spec(tree, first_supply(tree, "Battery"@));
    Capabilities {
        power_level: true,
        fan_mode: tree.file(ec_attr("fan_mode"@)) is Some,
        cooler_boost: tree.file(ec_attr("cooler_boost"@)) is Some,
        battery_saver: tree.file(ec_attr("super_battery"@)) is Some,
        charge_threshold: end,
        charge_start_threshold: start,
    }
}

/// The hwmon chip that reports fan speeds on these machines.
pub open spec fn msi_hwmon(tree: Tree) -> Option<Seq<char>> {
    let found = devices_where(tree, "class/hwmon"@, "name"@, "msi_wmi_platform"@);
    if found.len() > 0 {
        Some(found[0])
    } else {
        None
    }
}

/// The state read from `tree`, for a machine whose fan chip, battery and
/// mains adapter sit at the given places.
pub open spec fn msi_state(
    r: HwState,
    tree: Tree,
    hwmon: Option<Seq<char>>,
    battery: Option<Seq<char>>,
    mains: Option<Seq<char>>,
) -> bool {
    &&& r.power_level == match tree.attr(ec_attr("shift_mode"@)) {
        Some(v) => shift_mode_level(v),
        None => None,
    }
    &&& r.fan_mode == match tree.attr(ec_attr("fan_mode"@)) {
        Some(v) => fan_mode_of(v),
        None => None,
    }
    &&& r.cooler_boost == match tree.attr(ec_attr("cooler_boost"@)) {
        Some(v) => switch_of(v),
        None => None,
    }
    &&& r.battery_saver == match tree.attr(ec_attr("super_battery"@)) {
        Some(v) => switch_of(v),
        None => None,
    }
    &&& r.sensors.cpu_temp_c == tree.read_u8_spec(ec_attr("cpu/realtime_temperature"@))
    &&& r.sensors.gpu_temp_c == tree.read_u8_spec(ec_attr("gpu/realtime_temperature"@))
    &&& r.sensors.cpu_fan_percent == tree.read_u8_spec(ec_attr("cpu/realtime_fan_speed"@))
    &&& r.sensors.gpu_fan_percent == tree.read_u8_spec(ec_attr("gpu/realtime_fan_speed"@))
    &&& r.sensors.fan_rpm@ == match hwmon {
        Some(d) => fans(tree, d),
        None => Seq::empty(),
    }
    &&& r.battery == battery::battery_spec(tree, battery, mains)
}

/// The vendor-word writes for everything but the charge thresholds, or why
/// the profile cannot be applied.
pub open spec fn msi_switch_plan(caps: Capabilities, p: HwProfile) -> Result<
    Seq<(Seq<char>, Seq<char>)>,
    ErrorView,
> {
    if p.fan_mode is Some && !caps.fan_mode {
        Err(ErrorView::Unsupported("fan modes"@))
    } else if p.cooler_boost is Some && !caps.cooler_boost {
        Err(ErrorView::Unsupported("cooler boost"@))
    } else if p.battery_saver is Some && !caps.battery_saver {
        Err(ErrorView::Unsupported("battery saver"@))
    } else {
        let a = match p.power_level {
            Some(l) => seq![(ec_attr("shift_mode"@), shift_mode_word(l))],
            None => Seq::empty(),
        };
        let b = match p.fan_mode {
            Some(m) => seq![(ec_attr("fan_mode"@), fan_mode_word(m))],
            None => Seq::empty(),
        };
        let c = match p.cooler_boost {
            Some(on) => seq![(ec_attr("cooler_boost"@), switch_word(on))],
            None => Seq::empty(),
        };
        let d = match p.battery_saver {
            Some(on) => seq![(ec_attr("super_battery"@), switch_word(on))],
            None => Seq::empty(),
        };
        Ok(a + b + c + d)
    }
}

/// Everything `apply` writes, in order, or why it writes nothing.
pub open spec fn msi_plan(
    tree: Tree,
    battery: Option<Seq<char>>,
    caps: Capabilities,
    p: HwProfile,
) -> Result<Seq<(Seq<char>, Seq<char>)>, ErrorView> {
    match msi_switch_plan(caps, p) {
        Err(e) => Err(e),
        Ok(w) => match battery::threshold_plan(
            tree,
            battery,
            (caps.charge_threshold, caps.charge_start_threshold),
            p,
        ) {
            Err(e) => Err(e),
            Ok(steps) => Ok(w + battery::step_writes(battery->0, steps)),
        },
    }
}

impl Msi {
    pub closed spec fn hwmon_dir(&self) -> Option<Seq<char>> {
        opt_view(self.hwmon)
    }

    pub closed spec fn battery_dir(&self) -> Option<Seq<char>> {
        opt_view(self.battery)
    }

    pub closed spec fn mains_dir(&self) -> Option<Seq<char>> {
        opt_view(self.mains)
    }

    pub closed spec fn caps_spec(&self) -> Capabilities {
        self.caps
    }

    /// The path of one of the EC driver's attributes.
    pub fn attr(name: &str) -> (r: Vec<char>)
        ensures
            r@ == ec_attr(name@),
    {
        join_path(&chars_of("devices/platform/msi-ec"), name)
    }

    /// Map a neutral power level onto MSI's shift modes.
    pub fn shift_mode_value(level: PowerLevel) -> (r: &'static str)
        ensures
            r@ == shift_mode_word(level),
    {
        match level {
            PowerLevel::Performance => "turbo",
            PowerLevel::Balanced => "comfort",
            PowerLevel::PowerSaver => "eco",
        }
    }

    pub fn parse_shift_mode(raw: &[char]) -> (r: Option<PowerLevel>)
        ensures
            r == shift_mode_level(raw@),
    {
        if chars_eq(raw, &chars_of("turbo")) {
            Some(PowerLevel::Performance)
        } else if chars_eq(raw, &chars_of("comfort")) {
            Some(PowerLevel::Balanced)
        } else if chars_eq(raw, &chars_of("eco")) {
            Some(PowerLevel::PowerSaver)
        } else {
            None
        }
    }

    pub fn fan_mode_value(mode: FanMode) -> (r: &'static str)
        ensures
            r@ == fan_mode_word(mode),
    {
        match mode {
            FanMode::Auto => "auto",
            FanMode::Silent => "silent",
            FanMode::Aggressive => "advanced",
        }
    }

    pub fn parse_fan_mode(raw: &[char]) -> (r: Option<FanMode>)
        ensures
            r == fan_mode_of(raw@),
    {
        if chars_eq(raw, &chars_of("auto")) {
            Some(FanMode::Auto)
        } else if chars_eq(raw, &chars_of("silent")) {
            Some(FanMode::Silent)
        } else if chars_eq(raw, &chars_of("advanced")) {
            Some(FanMode::Aggressive)
        } else {
            None
        }
    }

    /// MSI spells booleans `on` and `off`.
    pub fn parse_switch(raw: &[char]) -> (r: Option<bool>)
        ensures
            r == switch_of(raw@),
    {
        if chars_eq(raw, &chars_of("on")) {
            Some(true)
        } else if chars_eq(raw, &chars_of("off")) {
            Some(false)
        } else {
            None
        }
    }

    fn switch_value(on: bool) -> (r: &'static str)
        ensures
            r@ == switch_word(on),
    {
        if on {
            "on"
        } else {
            "off"
        }
    }

    /// Fan speeds from the hwmon chip, stopping at the first gap; none
    /// without the chip.
    pub fn read_fan_rpm(&self, tree: &Tree) -> (r: Vec<u32>)
        ensures
            r@ == match self.hwmon_dir() {
                Some(d) => fans(*tree, d),
                None => Seq::empty(),
            },
    {
        match &self.hwmon {
            Some(dir) => read_fans(tree, dir),
            None => Vec::new(),
        }
    }
}

fn write_of(path: Vec<char>, value: &str) -> (w: Write)
    ensures
        w.path@ == path@,
        w.value@ == value@,
{
    Write { path: string_of(&path), value: value.to_owned() }
}

fn opt_slice(o: &Option<Vec<char>>) -> (r: Option<&[char]>)
    ensures
        match r {
            Some(s) => *o matches Some(v) && s@ == v@,
            None => *o is None,
        },
{
    match o {
        Some(v) => Some(v.as_slice()),
        None => None,
    }
}

impl Probe for Msi {
    fn probe(tree: &Tree) -> (r: Option<Msi>)
        ensures
            match r {
                Some(m) => {
                    &&& tree.file(ec_attr("shift_mode"@)) is Some
                    &&& m.caps_spec() == msi_caps(*tree)
                    &&& m.battery_dir() == first_supply(*tree, "Battery"@)
                    &&& m.mains_dir() == first_supply(*tree, "Mains"@)
                    &&& m.hwmon_dir() == msi_hwmon(*tree)
                },
                None => tree.file(ec_attr("shift_mode"@)) is None,
            },
    {
        // shift_mode is the attribute the whole backend is built around;
        // without it we are looking at a kernel driver too old to be useful.
        if !tree.has_file(&Msi::attr("shift_mode")) {
            return None;
        }
        let battery = first_power_supply(tree, "Battery");
        let (can_end, can_start) = battery::capabilities(tree, opt_slice(&battery));
        let caps = Capabilities {
            power_level: true,
            fan_mode: tree.has_file(&Msi::attr("fan_mode")),
            cooler_boost: tree.has_file(&Msi::attr("cooler_boost")),
            battery_saver: tree.has_file(&Msi::attr("super_battery")),
            charge_threshold: can_end,
            charge_start_threshold: can_start,
        };
        Some(Msi {
            hwmon: hwmon_by_name(tree, "msi_wmi_platform"),
            mains: first_power_supply(tree, "Mains"),
            battery,
            caps,
        })
    }
}

impl Backend for Msi {
    fn name(&self) -> (r: &'static str)
        ensures
            r@ == "msi-ec"@,
    {
        "msi-ec"
    }

    /// The firmware version.
    fn model(&self, tree: &Tree) -> (r: Option<String>)
        ensures
            match r {
                Some(s) => tree.attr(ec_attr("fw_version"@)) == Some(s@),
                None => tree.attr(ec_attr("fw_version"@)) is None,
            },
    {
        match tree.read_opt(&Msi::attr("fw_version")) {
            Some(v) => Some(string_of(&v)),
            None => None,
        }
    }

    fn capabilities(&self) -> (r: Capabilities)
        ensures
            r == self.caps_spec(),
    {
        self.caps
    }

    fn read_state(&self, tree: &Tree) -> (r: HwState)
        ensures
            msi_state(r, *tree, self.hwmon_dir(), self.battery_dir(), self.mains_dir()),
    {
        let power_level = match tree.read_opt(&Msi::attr("shift_mode")) {
            Some(v) => Msi::parse_shift_mode(&v),
            None => None,
        };
        let fan_mode = match tree.read_opt(&Msi::attr("fan_mode")) {
            Some(v) => Msi::parse_fan_mode(&v),
            None => None,
        };
        let cooler_boost = match tree.read_opt(&Msi::attr("cooler_boost")) {
            Some(v) => Msi::parse_switch(&v),
            None => None,
        };
        let battery_saver = match tree.read_opt(&Msi::attr("super_battery")) {
            Some(v) => Msi::parse_switch(&v),
            None => None,
        };
        HwState {
            power_level,
            fan_mode,
            cooler_boost,
            battery_saver,
            sensors: Sensors {
                cpu_temp_c: tree.read_u8(&Msi::attr("cpu/realtime_temperature")),
                gpu_temp_c: tree.read_u8(&Msi::attr("gpu/realtime_temperature")),
                cpu_fan_percent: tree.read_u8(&Msi::attr("cpu/realtime_fan_speed")),
                gpu_fan_percent: tree.read_u8(&Msi::attr("gpu/realtime_fan_speed")),
                fan_rpm: self.read_fan_rpm(tree),
            },
            battery: battery::read(tree, opt_slice(&self.battery), opt_slice(&self.mains)),
        }
    }

    fn apply(&self, profile: &HwProfile, tree: &Tree) -> (r: Result<Vec<Write>, Error>)
        ensures
            match (r, msi_plan(*tree, self.battery_dir(), self.caps_spec(), *profile)) {
                (Ok(w), Ok(plan)) => writes_view(w@) == plan,
                (Err(e), Err(ev)) => e@ == ev,
                _ => false,
            },
    {
        let mut writes = match self.switch_writes(profile) {
            Ok(w) => w,
            Err(e) => {
                return Err(e);
            },
        };
        let thresholds = match battery::apply(
            tree,
            opt_slice(&self.battery),
            (self.caps.charge_threshold, self.caps.charge_start_threshold),
            profile,
        ) {
            Ok(w) => w,
            Err(e) => {
                return Err(e);
            },
        };
        let ghost tv = writes_view(thresholds@);
        let ghost sv = writes_view(writes@);
        let mut rest = thresholds;
        writes.append(&mut rest);
        proof {
            assert(writes_view(writes@) =~= sv + tv);
        }
        Ok(writes)
    }
}

impl Msi {
    /// The vendor-word writes, after checking each one is supported.
    fn switch_writes(&self, profile: &HwProfile) -> (r: Result<Vec<Write>, Error>)
        ensures
            match (r, msi_switch_plan(self.caps_spec(), *profile)) {
                (Ok(w), Ok(plan)) => writes_view(w@) == plan,
                (Err(e), Err(ev)) => e@ == ev,
                _ => false,
            },
    {
        if profile.fan_mode.is_some() && !self.caps.fan_mode {
            return Err(Error::Unsupported("fan modes"));
        }
        if profile.cooler_boost.is_some() && !self.caps.cooler_boost {
            return Err(Error::Unsupported("cooler boost"));
        }
        if profile.battery_saver.is_some() && !self.caps.battery_saver {
            return Err(Error::Unsupported("battery saver"));
        }
        let ghost p = *profile;
        let ghost a = match p.power_level {
            Some(l) => seq![(ec_attr("shift_mode"@), shift_mode_word(l))],
            None => Seq::<(Seq<char>, Seq<char>)>::empty(),
        };
        let ghost b = match p.fan_mode {
            Some(m) => seq![(ec_attr("fan_mode"@), fan_mode_word(m))],
            None => Seq::<(Seq<char>, Seq<char>)>::empty(),
        };
        let ghost c = match p.cooler_boost {
            Some(on) => seq![(ec_attr("cooler_boost"@), switch_word(on))],
            None => Seq::<(Seq<char>, Seq<char>)>::empty(),
        };
        let ghost d = match p.battery_saver {
            Some(on) => seq![(ec_attr("super_battery"@), switch_word(on))],
            None => Seq::<(Seq<char>, Seq<char>)>::empty(),
        };
        let mut writes: Vec<Write> = Vec::new();
        assert(writes_view(writes@) =~= Seq::<(Seq<char>, Seq<char>)>::empty());
        if let Some(level) = profile.power_level {
            let w = write_of(Msi::attr("shift_mode"), Msi::shift_mode_value(level));
            writes.push(w);
        }
        assert(writes_view(writes@) =~= a);
        if let Some(mode) = profile.fan_mode {
            let ghost before = writes_view(writes@);
            let w = write_of(Msi::attr("fan_mode"), Msi::fan_mode_value(mode));
            writes.push(w);
            assert(writes_view(writes@) =~= before.push((w.path@, w.value@)));
        }
        assert(writes_view(writes@) =~= a + b);
        if let Some(on) = profile.cooler_boost {
            let ghost before = writes_view(writes@);
            let w = write_of(Msi::attr("cooler_boost"), Msi::switch_value(on));
            writes.push(w);
            assert(writes_view(writes@) =~= before.push((w.path@, w.value@)));
        }
        assert(writes_view(writes@) =~= a + b + c);
        if let Some(on) = profile.battery_saver {
            let ghost before = writes_view(writes@);
            let w = write_of(Msi::attr("super_battery"), Msi::switch_value(on));
            writes.push(w);
            assert(writes_view(writes@) =~= before.push((w.path@, w.value@)));
        }
        assert(writes_view(writes@) =~= a + b + c + d);
        Ok(writes)
    }
}

/// A lower-case word reads back as itself.
proof fn lemma_word_plain(s: Seq<char>)
    requires
        s.len() > 0,
        'a' <= s[0] <= 'z',
        'a' <= s.last() <= 'z',
    ensures
        trim(s) == s,
{
    lemma_trim_plain(s);
}

/// At most one write, made on top of `x`.
proof fn lemma_written_part(x: Option<Seq<char>>, part: Seq<(Seq<char>, Seq<char>)>, path: Seq<char>)
    requires
        part.len() <= 1,
    ensures
        written(x, part, path) == if part.len() == 1 && part[0].0 == path {
            Some(part[0].1)
        } else {
            x
        },
{
    assert(written(x, Seq::<(Seq<char>, Seq<char>)>::empty(), path) == x);
    if part.len() == 1 {
        assert(part.drop_last() =~= Seq::<(Seq<char>, Seq<char>)>::empty());
        assert(part.last() == part[0]);
    } else {
        assert(part =~= Seq::<(Seq<char>, Seq<char>)>::empty());
    }
}

/// The vendor writes, field by field, each at most one write.
pub open spec fn switch_parts(p: HwProfile) -> Seq<Seq<(Seq<char>, Seq<char>)>> {
    seq![
        match p.power_level {
            Some(l) => seq![(ec_attr("shift_mode"@), shift_mode_word(l))],
            None => Seq::empty(),
        },
        match p.fan_mode {
            Some(m) => seq![(ec_attr("fan_mode"@), fan_mode_word(m))],
            None => Seq::empty(),
        },
        match p.cooler_boost {
            Some(on) => seq![(ec_attr("cooler_boost"@), switch_word(on))],
            None => Seq::empty(),
        },
        match p.battery_saver {
            Some(on) => seq![(ec_attr("super_battery"@), switch_word(on))],
            None => Seq::empty(),
        },
    ]
}

/// The four vendor attributes are four different files, none of them a
/// battery threshold file.
proof fn lemma_ec_paths_distinct(dir: Seq<char>)
    ensures
        ec_attr("shift_mode"@) != ec_attr("fan_mode"@),
        ec_attr("shift_mode"@) != ec_attr("cooler_boost"@),
        ec_attr("shift_mode"@) != ec_attr("super_battery"@),
        ec_attr("fan_mode"@) != ec_attr("cooler_boost"@),
        ec_attr("fan_mode"@) != ec_attr("super_battery"@),
        ec_attr("cooler_boost"@) != ec_attr("super_battery"@),
        forall|n: Seq<char>|
            n == "shift_mode"@ || n == "fan_mode"@ || n == "cooler_boost"@ || n == "super_battery"@
                ==> ec_attr(n) != battery::end_path(dir) && ec_attr(n) != battery::start_path(dir),
{
    reveal_strlit("shift_mode");
    reveal_strlit("fan_mode");
    reveal_strlit("cooler_boost");
    reveal_strlit("super_battery");
    reveal_strlit("charge_control_end_threshold");
    reveal_strlit("charge_control_start_threshold");
    lemma_join_lengths_differ(ec(), "shift_mode"@, "fan_mode"@);
    lemma_join_lengths_differ(ec(), "shift_mode"@, "cooler_boost"@);
    lemma_join_lengths_differ(ec(), "shift_mode"@, "super_battery"@);
    lemma_join_lengths_differ(ec(), "fan_mode"@, "cooler_boost"@);
    lemma_join_lengths_differ(ec(), "fan_mode"@, "super_battery"@);
    lemma_join_lengths_differ(ec(), "cooler_boost"@, "super_battery"@);
    let names = seq!["shift_mode"@, "fan_mode"@, "cooler_boost"@, "super_battery"@];
    assert forall|n: Seq<char>|
        n == "shift_mode"@ || n == "fan_mode"@ || n == "cooler_boost"@ || n == "super_battery"@
            implies ec_attr(n) != battery::end_path(dir) && ec_attr(n) != battery::start_path(dir) by {
        lemma_join_endings_differ(ec(), n, dir, "charge_control_end_threshold"@);
        lemma_join_endings_differ(ec(), n, dir, "charge_control_start_threshold"@);
    }
}

/// Reading the state back after carrying out a plan gives every setting the
/// profile asked for, and every attribute of a setting it leaves alone keeps
/// what it held: fields left unset are not touched.
pub proof fn lemma_msi_reads_back(
    tree: Tree,
    hwmon: Option<Seq<char>>,
    battery: Option<Seq<char>>,
    mains: Option<Seq<char>>,
    caps: Capabilities,
    p: HwProfile,
    after: Tree,
    r: HwState,
)
    requires
        msi_plan(tree, battery, caps, p) is Ok,
        after_writes(tree, msi_plan(tree, battery, caps, p)->Ok_0, after),
        msi_state(r, after, hwmon, battery, mains),
    ensures
        p.power_level is Some ==> r.power_level == p.power_level,
        p.fan_mode is Some ==> r.fan_mode == p.fan_mode,
        p.cooler_boost is Some ==> r.cooler_boost == p.cooler_boost,
        p.battery_saver is Some ==> r.battery_saver == p.battery_saver,
        p.charge_end_threshold is Some ==> r.battery.charge_end_threshold == p.charge_end_threshold,
        p.charge_start_threshold is Some ==> r.battery.charge_start_threshold
            == p.charge_start_threshold,
        p.power_level is None ==> after.file(ec_attr("shift_mode"@)) == tree.file(
            ec_attr("shift_mode"@),
        ),
        p.fan_mode is None ==> after.file(ec_attr("fan_mode"@)) == tree.file(ec_attr("fan_mode"@)),
        p.cooler_boost is None ==> after.file(ec_attr("cooler_boost"@)) == tree.file(
            ec_attr("cooler_boost"@),
        ),
        p.battery_saver is None ==> after.file(ec_attr("super_battery"@)) == tree.file(
            ec_attr("super_battery"@),
        ),
        battery is Some && p.charge_end_threshold is None ==> after.file(
            battery::end_path(battery->0),
        ) == tree.file(battery::end_path(battery->0)),
        battery is Some && p.charge_start_threshold is None ==> after.file(
            battery::start_path(battery->0),
        ) == tree.file(battery::start_path(battery->0)),
{
    let parts = switch_parts(p);
    let v = parts[0] + parts[1] + parts[2] + parts[3];
    assert(msi_switch_plan(caps, p) == Ok::<_, ErrorView>(v));
    let steps = battery::threshold_plan(
        tree,
        battery,
        (caps.charge_threshold, caps.charge_start_threshold),
        p,
    )->Ok_0;
    let w = battery::step_writes(battery->0, steps);
    assert(msi_plan(tree, battery, caps, p)->Ok_0 == v + w);
    let dir = battery->0;
    lemma_ec_paths_distinct(dir);
    // The threshold writes touch only the two threshold files.
    assert forall|i: int| 0 <= i < w.len() implies (#[trigger] w[i]).0 == battery::end_path(dir)
        || w[i].0 == battery::start_path(dir) by {
        assert(w[i] == battery::step_write(dir, steps[i]));
    }
    if battery is None {
        assert(steps =~= Seq::<(bool, u8)>::empty());
    }
    let names = seq!["shift_mode"@, "fan_mode"@, "cooler_boost"@, "super_battery"@];
    assert forall|k: int| 0 <= k < 4 implies {
        let path = ec_attr(#[trigger] names[k]);
        after.file(path) == written(tree.file(path), v, path)
    } by {
        let path = ec_attr(names[k]);
        assert(path != battery::end_path(dir) && path != battery::start_path(dir));
        lemma_written_concat(tree.file(path), v, w, path);
        lemma_written_elsewhere(written(tree.file(path), v, path), w, path);
        assert(after.file(path) == written(tree.file(path), v + w, path));
    }
    assert forall|k: int| 0 <= k < 4 implies {
        let path = ec_attr(#[trigger] names[k]);
        written(tree.file(path), v, path) == if parts[k].len() == 1 {
            Some(parts[k][0].1)
        } else {
            tree.file(path)
        }
    } by {
        let path = ec_attr(names[k]);
        let x = tree.file(path);
        lemma_written_concat(x, parts[0] + parts[1] + parts[2], parts[3], path);
        lemma_written_concat(x, parts[0] + parts[1], parts[2], path);
        lemma_written_concat(x, parts[0], parts[1], path);
        lemma_written_part(x, parts[0], path);
        let x1 = written(x, parts[0], path);
        lemma_written_part(x1, parts[1], path);
        let x2 = written(x1, parts[1], path);
        lemma_written_part(x2, parts[2], path);
        let x3 = written(x2, parts[2], path);
        lemma_written_part(x3, parts[3], path);
        reveal_strlit("shift_mode");
        reveal_strlit("fan_mode");
        reveal_strlit("cooler_boost");
        reveal_strlit("super_battery");
    }
    assert(ec_attr(names[0]) == ec_attr("shift_mode"@));
    assert(ec_attr(names[1]) == ec_attr("fan_mode"@));
    assert(ec_attr(names[2]) == ec_attr("cooler_boost"@));
    assert(ec_attr(names[3]) == ec_attr("super_battery"@));
    reveal_strlit("turbo");
    reveal_strlit("comfort");
    reveal_strlit("eco");
    reveal_strlit("auto");
    reveal_strlit("silent");
    reveal_strlit("advanced");
    reveal_strlit("on");
    reveal_strlit("off");
    if let Some(l) = p.power_level {
        lemma_word_plain(shift_mode_word(l));
        lemma_shift_mode_round_trip(l);
    }
    if let Some(m) = p.fan_mode {
        lemma_word_plain(fan_mode_word(m));
        lemma_fan_mode_round_trip(m);
    }
    if let Some(on) = p.cooler_boost {
        lemma_word_plain(switch_word(on));
        lemma_switch_round_trip(on);
    }
    if let Some(on) = p.battery_saver {
        lemma_word_plain(switch_word(on));
        lemma_switch_round_trip(on);
    }
    if battery is Some {
        battery::lemma_thresholds_read_back(
            tree,
            battery,
            (caps.charge_threshold, caps.charge_start_threshold),
            p,
            v,
            after,
        );
        let e = battery::end_path(dir);
        let s = battery::start_path(dir);
        assert forall|i: int| 0 <= i < v.len() implies (#[trigger] v[i]).0 != e && v[i].0 != s by {
            let k = if i < parts[0].len() {
                0int
            } else if i < parts[0].len() + parts[1].len() {
                1int
            } else if i < parts[0].len() + parts[1].len() + parts[2].len() {
                2int
            } else {
                3int
            };
            assert(v[i].0 == ec_attr(names[k]));
        }
        lemma_written_elsewhere(tree.file(e), v, e);
        lemma_written_elsewhere(tree.file(s), v, s);
    }
}

} // verus!
