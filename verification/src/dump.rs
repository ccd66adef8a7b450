//! What `dump-fixture` captures of a machine.
//!
//! An explicit list rather than a recursive copy: sysfs is full of things
//! that identify a machine (serial numbers, MAC addresses, UUIDs) and a
//! fixture ends up in a public repository. Copying the files is the
//! caller's job; which ones, relative to the sysfs root, is decided here.
use vstd::prelude::*;

use crate::text::string_views;

verus! {

/// The vendor EC attributes worth capturing.
pub open spec fn ec_attrs() -> Seq<Seq<char>> {
    seq![
        "shift_mode"@,
        "fan_mode"@,
        "cooler_boost"@,
        "super_battery"@,
        "fw_version"@,
        "available_shift_modes"@,
        "available_fan_modes"@,
        "cpu/realtime_temperature"@,
        "cpu/realtime_fan_speed"@,
        "gpu/realtime_temperature"@,
        "gpu/realtime_fan_speed"@,
    ]
}

/// The attributes worth capturing of every power supply.
pub open spec fn supply_attrs() -> Seq<Seq<char>> {
    seq![
        "type"@,
        "online"@,
        "capacity"@,
        "charge_control_end_threshold"@,
        "charge_control_start_threshold"@,
    ]
}

/// The attributes worth capturing of every hwmon chip.
pub open spec fn hwmon_attrs() -> Seq<Seq<char>> {
    seq!["name"@, "fan1_input"@, "fan2_input"@, "fan3_input"@, "fan4_input"@]
}

/// `dir/` before each of `attrs`.
pub open spec fn each_under(dir: Seq<char>, attrs: Seq<Seq<char>>) -> Seq<Seq<char>> {
    attrs.map_values(|a: Seq<char>| dir + "/"@ + a)
}

/// Each of `attrs` of each of `devices` under `class`, device by device.
pub open spec fn per_device(class: Seq<char>, devices: Seq<Seq<char>>, attrs: Seq<Seq<char>>) -> Seq<
    Seq<char>,
>
    decreases devices.len(),
{
    if devices.len() == 0 {
        Seq::empty()
    } else {
        per_device(class, devices.drop_last(), attrs) + each_under(
            class + "/"@ + devices.last(),
            attrs,
        )
    }
}

/// Everything to capture: the EC's attributes, then those of each hwmon chip
/// and of each power supply, given the device names found under
/// `class/hwmon` and `class/power_supply`.
pub open spec fn capture_spec(hwmon: Seq<Seq<char>>, supplies: Seq<Seq<char>>) -> Seq<Seq<char>> {
    each_under("devices/platform/msi-ec"@, ec_attrs()) + per_device(
        "class/hwmon"@,
        hwmon,
        hwmon_attrs(),
    ) + per_device("class/power_supply"@, supplies, supply_attrs())
}

fn ec_attr_list() -> (r: Vec<&'static str>)
    ensures
        r@.map_values(|s: &str| s@) == ec_attrs(),
{
    let r = vec![
        "shift_mode",
        "fan_mode",
        "cooler_boost",
        "super_battery",
        "fw_version",
        "available_shift_modes",
        "available_fan_modes",
        "cpu/realtime_temperature",
        "cpu/realtime_fan_speed",
        "gpu/realtime_temperature",
        "gpu/realtime_fan_speed",
    ];
    assert(r@.map_values(|s: &str| s@) =~= ec_attrs());
    r
}

fn supply_attr_list() -> (r: Vec<&'static str>)
    ensures
        r@.map_values(|s: &str| s@) == supply_attrs(),
{
    let r = vec![
        "type",
        "online",
        "capacity",
        "charge_control_end_threshold",
        "charge_control_start_threshold",
    ];
    assert(r@.map_values(|s: &str| s@) =~= supply_attrs());
    r
}

fn hwmon_attr_list() -> (r: Vec<&'static str>)
    ensures
        r@.map_values(|s: &str| s@) == hwmon_attrs(),
{
    let r = vec!["name", "fan1_input", "fan2_input", "fan3_input", "fan4_input"];
    assert(r@.map_values(|s: &str| s@) =~= hwmon_attrs());
    r
}

/// Appends `dir/attr` for each of `attrs`.
fn push_under(out: &mut Vec<String>, dir: &str, attrs: &Vec<&'static str>)
    ensures
        string_views(final(out)@) == string_views(old(out)@) + each_under(
            dir@,
            attrs@.map_values(|s: &str| s@),
        ),
{
    let ghost start = string_views(out@);
    let ghost names = attrs@.map_values(|s: &str| s@);
    let mut i: usize = 0;
    while i < attrs.len()
        invariant
            i <= attrs.len(),
            names == attrs@.map_values(|s: &str| s@),
            string_views(out@) == start + each_under(dir@, names.take(i as int)),
        decreases attrs.len() - i,
    {
        let mut p = dir.to_owned();
        p.append("/");
        p.append(attrs[i]);
        let ghost before = string_views(out@);
        out.push(p);
        proof {
            assert(names[i as int] == attrs@[i as int]@);
            assert(names.take(i + 1) =~= names.take(i as int).push(names[i as int]));
            assert(each_under(dir@, names.take(i + 1)) =~= each_under(dir@, names.take(i as int)).push(
                dir@ + "/"@ + names[i as int],
            ));
            assert(string_views(out@) =~= before.push(p@));
        }
        i += 1;
    }
    assert(names.take(attrs.len() as int) =~= names);
}

/// Appends `class/device/attr` for each device and attribute.
fn push_per_device(out: &mut Vec<String>, class: &str, devices: &[String], attrs: &Vec<&'static str>)
    ensures
        string_views(final(out)@) == string_views(old(out)@) + per_device(
            class@,
            string_views(devices@),
            attrs@.map_values(|s: &str| s@),
        ),
{
    let ghost start = string_views(out@);
    let ghost names = attrs@.map_values(|s: &str| s@);
    let ghost devs = string_views(devices@);
    let mut i: usize = 0;
    while i < devices.len()
        invariant
            i <= devices.len(),
            names == attrs@.map_values(|s: &str| s@),
            devs == string_views(devices@),
            string_views(out@) == start + per_device(class@, devs.take(i as int), names),
        decreases devices.len() - i,
    {
        let mut dir = class.to_owned();
        dir.append("/");
        dir.append(devices[i].as_str());
        let ghost before = string_views(out@);
        push_under(out, dir.as_str(), attrs);
        proof {
            assert(devs[i as int] == devices@[i as int]@);
            let t = devs.take(i + 1);
            assert(t.drop_last() =~= devs.take(i as int));
            assert(t.last() == devs[i as int]);
            assert(dir@ == class@ + "/"@ + t.last());
        }
        i += 1;
    }
    assert(devs.take(devices.len() as int) =~= devs);
}

/// The attributes to copy, relative to the sysfs root, given the device
/// names under `class/hwmon` and `class/power_supply`.
pub fn capture_paths(hwmon: &[String], supplies: &[String]) -> (r: Vec<String>)
    ensures
        string_views(r@) == capture_spec(string_views(hwmon@), string_views(supplies@)),
{
    let mut out: Vec<String> = Vec::new();
    assert(string_views(out@) =~= Seq::<Seq<char>>::empty());
    push_under(&mut out, "devices/platform/msi-ec", &ec_attr_list());
    push_per_device(&mut out, "class/hwmon", hwmon, &hwmon_attr_list());
    push_per_device(&mut out, "class/power_supply", supplies, &supply_attr_list());
    out
}

/// Whether `path` names one of the listed attributes: it ends in `/` and a
/// listed attribute's name.
pub open spec fn names_listed_attribute(path: Seq<char>) -> bool {
    exists|a: Seq<char>|
        (ec_attrs().contains(a) || hwmon_attrs().contains(a) || supply_attrs().contains(a))
            && #[trigger] ends_with(path, "/"@ + a)
}

pub open spec fn ends_with(s: Seq<char>, suffix: Seq<char>) -> bool {
    suffix.len() <= s.len() && s.subrange(s.len() - suffix.len(), s.len() as int) == suffix
}

proof fn lemma_each_under_listed(dir: Seq<char>, attrs: Seq<Seq<char>>, i: int)
    requires
        0 <= i < attrs.len(),
    ensures
        ends_with(each_under(dir, attrs)[i], "/"@ + attrs[i]),
{
    let p = each_under(dir, attrs)[i];
    let suffix = "/"@ + attrs[i];
    assert(p == dir + suffix);
    assert(p.subrange(p.len() - suffix.len(), p.len() as int) =~= suffix);
}

/// `path` ends in `/` and one of `attrs`.
pub open spec fn ends_in_one_of(path: Seq<char>, attrs: Seq<Seq<char>>) -> bool {
    exists|j: int| 0 <= j < attrs.len() && #[trigger] ends_with(path, "/"@ + attrs[j])
}

proof fn lemma_per_device_listed(class: Seq<char>, devices: Seq<Seq<char>>, attrs: Seq<Seq<char>>)
    ensures
        forall|i: int|
            0 <= i < per_device(class, devices, attrs).len() ==> ends_in_one_of(
                #[trigger] per_device(class, devices, attrs)[i],
                attrs,
            ),
    decreases devices.len(),
{
    if devices.len() > 0 {
        let rest = per_device(class, devices.drop_last(), attrs);
        let last = each_under(class + "/"@ + devices.last(), attrs);
        lemma_per_device_listed(class, devices.drop_last(), attrs);
        let all = per_device(class, devices, attrs);
        assert(all == rest + last);
        assert forall|i: int| 0 <= i < all.len() implies ends_in_one_of(#[trigger] all[i], attrs) by {
            if i < rest.len() {
                assert(all[i] == rest[i]);
                assert(ends_in_one_of(rest[i], attrs));
            } else {
                let k = i - rest.len();
                assert(all[i] == last[k]);
                lemma_each_under_listed(class + "/"@ + devices.last(), attrs, k);
                assert(ends_with(all[i], "/"@ + attrs[k]));
            }
        }
    }
}

/// Nothing is captured but the listed attributes: every path names one of
/// them, which is what keeps serial numbers and other identifiers out of a
/// fixture.
pub proof fn lemma_only_listed_attributes(hwmon: Seq<Seq<char>>, supplies: Seq<Seq<char>>)
    ensures
        forall|i: int|
            0 <= i < capture_spec(hwmon, supplies).len() ==> names_listed_attribute(
                #[trigger] capture_spec(hwmon, supplies)[i],
            ),
{
    let ec_part = each_under("devices/platform/msi-ec"@, ec_attrs());
    let hw_part = per_device("class/hwmon"@, hwmon, hwmon_attrs());
    let su_part = per_device("class/power_supply"@, supplies, supply_attrs());
    lemma_per_device_listed("class/hwmon"@, hwmon, hwmon_attrs());
    lemma_per_device_listed("class/power_supply"@, supplies, supply_attrs());
    let all = capture_spec(hwmon, supplies);
    assert(all == ec_part + hw_part + su_part);
    assert forall|i: int| 0 <= i < all.len() implies names_listed_attribute(#[trigger] all[i]) by {
        if i < ec_part.len() {
            assert(all[i] == ec_part[i]);
            lemma_each_under_listed("devices/platform/msi-ec"@, ec_attrs(), i);
            assert(ec_attrs().contains(ec_attrs()[i]));
        } else if i < ec_part.len() + hw_part.len() {
            let k = i - ec_part.len();
            assert(all[i] == hw_part[k]);
            assert(ends_in_one_of(hw_part[k], hwmon_attrs()));
            let j = choose|j: int| 0 <= j < hwmon_attrs().len() && #[trigger] ends_with(
                hw_part[k],
                "/"@ + hwmon_attrs()[j],
            );
            assert(hwmon_attrs().contains(hwmon_attrs()[j]));
        } else {
            let k = i - ec_part.len() - hw_part.len();
            assert(all[i] == su_part[k]);
            assert(ends_in_one_of(su_part[k], supply_attrs()));
            let j = choose|j: int| 0 <= j < supply_attrs().len() && #[trigger] ends_with(
                su_part[k],
                "/"@ + supply_attrs()[j],
            );
            assert(supply_attrs().contains(supply_attrs()[j]));
        }
    }
}

} // verus!
