//! The MSI backend, exercised against the attributes of a real machine.

use omarchy_power::backend::{Backend, Error, Probe, Write};
use omarchy_power::backends::msi::Msi;
use omarchy_power::detect::detect_in;
use omarchy_power::sysfs::Tree;
use omarchy_power::types::{FanMode, HwProfile, PowerLevel};

/// The attributes of an MSI Katana (firmware 1587EMS1.106) that the backend
/// reads.
fn fixture() -> Tree {
    let mut tree = Tree::new();
    for (path, value) in [
        ("devices/platform/msi-ec/shift_mode", "comfort\n"),
        ("devices/platform/msi-ec/fan_mode", "auto\n"),
        ("devices/platform/msi-ec/cooler_boost", "off\n"),
        ("devices/platform/msi-ec/super_battery", "off\n"),
        ("devices/platform/msi-ec/fw_version", "1587EMS1.106\n"),
        ("devices/platform/msi-ec/cpu/realtime_temperature", "66\n"),
        ("devices/platform/msi-ec/gpu/realtime_temperature", "51\n"),
        ("devices/platform/msi-ec/cpu/realtime_fan_speed", "70\n"),
        ("devices/platform/msi-ec/gpu/realtime_fan_speed", "40\n"),
        ("class/hwmon/hwmon5/name", "msi_wmi_platform\n"),
        ("class/hwmon/hwmon5/fan1_input", "3555\n"),
        ("class/hwmon/hwmon5/fan2_input", "3555\n"),
        ("class/hwmon/hwmon5/fan3_input", "0\n"),
        ("class/hwmon/hwmon5/fan4_input", "0\n"),
        ("class/hwmon/hwmon2/name", "acpitz\n"),
        ("class/power_supply/BAT1/type", "Battery\n"),
        ("class/power_supply/BAT1/capacity", "99\n"),
        ("class/power_supply/BAT1/charge_control_end_threshold", "80\n"),
        ("class/power_supply/BAT1/charge_control_start_threshold", "70\n"),
        ("class/power_supply/ADP1/type", "Mains\n"),
        ("class/power_supply/ADP1/online", "1\n"),
    ] {
        tree.insert(path, value);
    }
    tree
}

fn read(tree: &Tree, path: &str) -> String {
    let path: Vec<char> = path.chars().collect();
    tree.read_opt(&path).unwrap().into_iter().collect()
}

fn perform(tree: &mut Tree, writes: &[Write]) {
    for w in writes {
        tree.insert(&w.path, &w.value);
    }
}

#[test]
fn detects_msi_from_a_captured_tree() {
    let tree = fixture();
    let backend = detect_in(&tree).expect("fixture should be recognised");
    assert_eq!(backend.name(), "msi-ec");
    assert_eq!(backend.model(&tree).as_deref(), Some("1587EMS1.106"));
}

#[test]
fn reports_no_backend_for_unrelated_hardware() {
    assert!(matches!(detect_in(&Tree::new()), Err(Error::NoBackend)));
}

#[test]
fn capabilities_follow_the_attributes_that_exist() {
    let caps = Msi::probe(&fixture()).unwrap().capabilities();
    assert!(caps.power_level);
    assert!(caps.fan_mode);
    assert!(caps.cooler_boost);
    assert!(caps.battery_saver);
    assert!(caps.charge_threshold);
}

#[test]
fn missing_attributes_turn_into_missing_capabilities() {
    let mut tree = fixture();
    tree.remove("devices/platform/msi-ec/cooler_boost");

    let backend = Msi::probe(&tree).unwrap();
    assert!(!backend.capabilities().cooler_boost);

    // ...and asking for it fails loudly instead of writing to a missing file.
    let err = backend
        .apply(&HwProfile { cooler_boost: Some(true), ..HwProfile::default() }, &tree)
        .unwrap_err();
    assert!(matches!(err, Error::Unsupported("cooler boost")));
}

#[test]
fn reads_the_vendor_vocabulary_into_neutral_terms() {
    let tree = fixture();
    let state = Msi::probe(&tree).unwrap().read_state(&tree);

    assert_eq!(state.power_level, Some(PowerLevel::Balanced)); // "comfort"
    assert_eq!(state.fan_mode, Some(FanMode::Auto));
    assert_eq!(state.cooler_boost, Some(false)); // "off"
    assert_eq!(state.battery_saver, Some(false));
    assert_eq!(state.sensors.cpu_temp_c, Some(66));
    assert_eq!(state.sensors.gpu_temp_c, Some(51));
    assert_eq!(state.sensors.cpu_fan_percent, Some(70));
    assert_eq!(state.battery.capacity_percent, Some(99));
    assert_eq!(state.battery.charge_end_threshold, Some(80));
    assert_eq!(state.battery.on_ac, Some(true));
}

#[test]
fn fan_rpm_keeps_idle_fans_and_stops_at_the_first_gap() {
    let mut tree = fixture();
    // A fifth fan past a gap is not part of the run.
    tree.insert("class/hwmon/hwmon5/fan6_input", "1200\n");
    let state = Msi::probe(&tree).unwrap().read_state(&tree);
    // Four fans exist; the two idle ones report 0 and must not be dropped.
    assert_eq!(state.sensors.fan_rpm, vec![3555, 3555, 0, 0]);
}

#[test]
fn applying_a_profile_writes_the_vendor_words() {
    let mut tree = fixture();
    let backend = Msi::probe(&tree).unwrap();

    let writes = backend
        .apply(
            &HwProfile {
                power_level: Some(PowerLevel::PowerSaver),
                fan_mode: Some(FanMode::Aggressive),
                battery_saver: Some(true),
                charge_end_threshold: Some(75),
                ..HwProfile::default()
            },
            &tree,
        )
        .unwrap();
    perform(&mut tree, &writes);

    assert_eq!(read(&tree, "devices/platform/msi-ec/shift_mode"), "eco");
    assert_eq!(read(&tree, "devices/platform/msi-ec/fan_mode"), "advanced");
    assert_eq!(read(&tree, "devices/platform/msi-ec/super_battery"), "on");
    assert_eq!(read(&tree, "class/power_supply/BAT1/charge_control_end_threshold"), "75");
}

#[test]
fn fields_left_unset_are_not_touched() {
    let mut tree = fixture();
    let backend = Msi::probe(&tree).unwrap();

    let writes = backend
        .apply(&HwProfile { power_level: Some(PowerLevel::Performance), ..HwProfile::default() }, &tree)
        .unwrap();
    assert_eq!(writes.len(), 1);
    perform(&mut tree, &writes);

    assert_eq!(read(&tree, "devices/platform/msi-ec/shift_mode"), "turbo");
    assert_eq!(read(&tree, "devices/platform/msi-ec/fan_mode"), "auto");
    assert_eq!(read(&tree, "devices/platform/msi-ec/cooler_boost"), "off");
}

#[test]
fn absurd_charge_thresholds_are_refused_before_reaching_the_kernel() {
    let tree = fixture();
    let backend = Msi::probe(&tree).unwrap();

    let err = backend
        .apply(&HwProfile { charge_end_threshold: Some(5), ..HwProfile::default() }, &tree)
        .unwrap_err();
    assert!(matches!(err, Error::BadValue("charge threshold", _)));
    // The old value survives a rejected write.
    assert_eq!(read(&tree, "class/power_supply/BAT1/charge_control_end_threshold"), "80");
}

#[test]
fn the_vendor_words_name_each_level_and_mode() {
    assert_eq!(Msi::shift_mode_value(PowerLevel::Performance), "turbo");
    assert_eq!(Msi::shift_mode_value(PowerLevel::Balanced), "comfort");
    assert_eq!(Msi::shift_mode_value(PowerLevel::PowerSaver), "eco");
    assert_eq!(Msi::fan_mode_value(FanMode::Silent), "silent");
    for level in [PowerLevel::Performance, PowerLevel::Balanced, PowerLevel::PowerSaver] {
        let word: Vec<char> = Msi::shift_mode_value(level).chars().collect();
        assert_eq!(Msi::parse_shift_mode(&word), Some(level));
    }
    for mode in [FanMode::Auto, FanMode::Silent, FanMode::Aggressive] {
        let word: Vec<char> = Msi::fan_mode_value(mode).chars().collect();
        assert_eq!(Msi::parse_fan_mode(&word), Some(mode));
    }
    let on: Vec<char> = "on".chars().collect();
    let other: Vec<char> = "maybe".chars().collect();
    assert_eq!(Msi::parse_switch(&on), Some(true));
    assert_eq!(Msi::parse_switch(&other), None);
}

#[test]
fn cooler_boost_is_written_as_on_and_off() {
    let mut tree = fixture();
    let backend = Msi::probe(&tree).unwrap();
    let writes = backend
        .apply(&HwProfile { cooler_boost: Some(true), ..HwProfile::default() }, &tree)
        .unwrap();
    perform(&mut tree, &writes);
    assert_eq!(read(&tree, "devices/platform/msi-ec/cooler_boost"), "on");
    let state = backend.read_state(&tree);
    assert_eq!(state.cooler_boost, Some(true));
}

#[test]
fn a_tree_without_shift_mode_is_not_msi() {
    let mut tree = fixture();
    tree.remove("devices/platform/msi-ec/shift_mode");
    assert!(Msi::probe(&tree).is_none());
}
