//! The kernel-interface backend, exercised against two trees written from the
//! kernel's documentation.

use omarchy_power::backend::{Backend, Error, Probe, Write};
use omarchy_power::backends::platform_profile::PlatformProfile;
use omarchy_power::detect::detect_in;
use omarchy_power::sysfs::Tree;
use omarchy_power::types::{FanMode, HwProfile, PowerLevel};

fn build(entries: &[(&str, &str)]) -> Tree {
    let mut tree = Tree::new();
    for (path, value) in entries {
        tree.insert(path, value);
    }
    tree
}

/// The original ACPI file, a coretemp chip, a fan on another chip, and a
/// battery with both thresholds, running on battery.
fn acpi() -> Tree {
    build(&[
        ("firmware/acpi/platform_profile", "balanced\n"),
        ("firmware/acpi/platform_profile_choices", "low-power balanced performance\n"),
        ("class/hwmon/hwmon0/name", "coretemp\n"),
        ("class/hwmon/hwmon0/temp1_input", "48000\n"),
        ("class/hwmon/hwmon1/name", "thinkpad\n"),
        ("class/hwmon/hwmon1/fan1_input", "2412\n"),
        ("class/power_supply/AC/type", "Mains\n"),
        ("class/power_supply/AC/online", "0\n"),
        ("class/power_supply/BAT0/type", "Battery\n"),
        ("class/power_supply/BAT0/capacity", "71\n"),
        ("class/power_supply/BAT0/charge_control_end_threshold", "80\n"),
        ("class/power_supply/BAT0/charge_control_start_threshold", "75\n"),
    ])
}

/// The class interface beside the compatibility file, the two deliberately
/// disagreeing, and a battery without threshold files.
fn class() -> Tree {
    build(&[
        ("class/platform-profile/platform-profile-0/name", "amd-pmf\n"),
        ("class/platform-profile/platform-profile-0/profile", "low-power\n"),
        ("class/platform-profile/platform-profile-0/choices", "low-power balanced performance\n"),
        ("firmware/acpi/platform_profile", "performance\n"),
        ("firmware/acpi/platform_profile_choices", "low-power balanced performance\n"),
        ("class/power_supply/BAT0/type", "Battery\n"),
        ("class/power_supply/BAT0/capacity", "55\n"),
    ])
}

fn read(tree: &Tree, path: &str) -> String {
    let path: Vec<char> = path.chars().collect();
    tree.read_opt(&path).unwrap().into_iter().collect()
}

fn perform(tree: &mut Tree, writes: &[Write]) {
    for w in writes {
        tree.insert(&w.path, &w.value);
    }
}

#[test]
fn detects_a_machine_the_kernel_already_covers() {
    let backend = detect_in(&acpi()).expect("should be recognised");
    assert_eq!(backend.name(), "platform-profile");
}

#[test]
fn the_firmware_handler_is_reported_as_the_model() {
    // Only the class interface names its handler.
    let tree = class();
    let backend = detect_in(&tree).unwrap();
    assert_eq!(backend.model(&tree).as_deref(), Some("amd-pmf"));

    let tree = acpi();
    let backend = detect_in(&tree).unwrap();
    assert_eq!(backend.model(&tree), None);
}

#[test]
fn the_newer_class_interface_wins_over_the_file_kept_for_compatibility() {
    let tree = class();
    let state = detect_in(&tree).unwrap().read_state(&tree);
    assert_eq!(state.power_level, Some(PowerLevel::PowerSaver));
}

#[test]
fn only_what_the_kernel_defines_is_claimed_as_a_capability() {
    let caps = PlatformProfile::probe(&acpi()).unwrap().capabilities();
    assert!(caps.power_level);
    assert!(caps.charge_threshold);
    assert!(caps.charge_start_threshold);
    // No standard interface exposes these, so they must not be offered.
    assert!(!caps.fan_mode);
    assert!(!caps.cooler_boost);
    assert!(!caps.battery_saver);
}

#[test]
fn a_battery_without_a_threshold_file_loses_only_that_capability() {
    let caps = PlatformProfile::probe(&class()).unwrap().capabilities();
    assert!(caps.power_level);
    assert!(!caps.charge_threshold);
}

#[test]
fn sensors_come_from_hwmon_in_whole_degrees() {
    let tree = acpi();
    let state = detect_in(&tree).unwrap().read_state(&tree);

    // 48000 millidegrees from coretemp.
    assert_eq!(state.sensors.cpu_temp_c, Some(48));
    assert_eq!(state.sensors.gpu_temp_c, None, "no GPU chip in this tree");
    assert_eq!(state.sensors.fan_rpm, vec![2412]);
    // Duty percentages are a vendor EC idea and stay absent.
    assert_eq!(state.sensors.cpu_fan_percent, None);
    assert_eq!(state.battery.capacity_percent, Some(71));
    assert_eq!(state.battery.charge_end_threshold, Some(80));
    assert_eq!(state.battery.on_ac, Some(false));
}

#[test]
fn applying_a_level_writes_a_name_this_firmware_actually_offers() {
    let mut tree = acpi();
    let backend = PlatformProfile::probe(&tree).unwrap();

    let writes = backend
        .apply(&HwProfile { power_level: Some(PowerLevel::PowerSaver), ..HwProfile::default() }, &tree)
        .unwrap();
    perform(&mut tree, &writes);
    assert_eq!(read(&tree, "firmware/acpi/platform_profile"), "low-power");

    let writes = backend
        .apply(&HwProfile { power_level: Some(PowerLevel::Performance), ..HwProfile::default() }, &tree)
        .unwrap();
    perform(&mut tree, &writes);
    assert_eq!(read(&tree, "firmware/acpi/platform_profile"), "performance");
}

#[test]
fn a_firmware_without_the_obvious_name_gets_the_next_best_one() {
    let mut tree = acpi();
    tree.insert("firmware/acpi/platform_profile_choices", "quiet balanced performance\n");

    let backend = PlatformProfile::probe(&tree).unwrap();
    let writes = backend
        .apply(&HwProfile { power_level: Some(PowerLevel::PowerSaver), ..HwProfile::default() }, &tree)
        .unwrap();
    perform(&mut tree, &writes);
    assert_eq!(read(&tree, "firmware/acpi/platform_profile"), "quiet");
}

#[test]
fn balanced_performance_reads_as_balanced_rather_than_as_full_power() {
    let mut tree = acpi();
    tree.insert("firmware/acpi/platform_profile", "balanced-performance\n");
    let state = PlatformProfile::probe(&tree).unwrap().read_state(&tree);
    assert_eq!(state.power_level, Some(PowerLevel::Balanced));
}

#[test]
fn a_profile_we_have_no_name_for_reads_as_nothing_rather_than_as_a_guess() {
    let mut tree = acpi();
    // `custom` means the firmware follows its own settings.
    tree.insert("firmware/acpi/platform_profile", "custom\n");
    let state = PlatformProfile::probe(&tree).unwrap().read_state(&tree);
    assert_eq!(state.power_level, None);
}

#[test]
fn asking_for_what_this_layer_cannot_do_fails_before_any_write() {
    let tree = acpi();
    let backend = PlatformProfile::probe(&tree).unwrap();
    let result = backend.apply(&HwProfile { fan_mode: Some(FanMode::Silent), ..HwProfile::default() }, &tree);
    assert!(matches!(result, Err(Error::Unsupported("fan modes"))));
}

#[test]
fn a_switch_offering_nothing_we_recognise_is_not_claimed() {
    let mut tree = acpi();
    tree.insert("firmware/acpi/platform_profile_choices", "mystery-mode another-one\n");
    assert!(
        PlatformProfile::probe(&tree).is_none(),
        "a backend whose every key press would fail is worse than none"
    );
}

#[test]
fn a_vendor_driver_is_preferred_over_the_generic_interface() {
    let mut tree = acpi();
    tree.insert("devices/platform/msi-ec/shift_mode", "comfort\n");
    let backend = detect_in(&tree).unwrap();
    assert_eq!(
        backend.name(),
        "msi-ec",
        "the vendor driver reaches fan modes the generic one cannot"
    );
}

#[test]
fn the_candidate_names_go_from_best_to_last_resort() {
    assert_eq!(
        PlatformProfile::candidates(PowerLevel::PowerSaver),
        vec!["low-power", "quiet", "cool", "balanced"]
    );
    assert_eq!(
        PlatformProfile::candidates(PowerLevel::Performance),
        vec!["performance", "balanced-performance", "balanced"]
    );
}

#[test]
fn a_level_the_firmware_cannot_reach_is_unsupported() {
    let mut tree = acpi();
    tree.insert("firmware/acpi/platform_profile_choices", "low-power\n");
    let backend = PlatformProfile::probe(&tree).unwrap();
    let result = backend.apply(&HwProfile { power_level: Some(PowerLevel::Performance), ..HwProfile::default() }, &tree);
    assert!(matches!(result, Err(Error::Unsupported("this performance level"))));
}

#[test]
fn a_negative_reading_is_no_reading() {
    let mut tree = acpi();
    tree.insert("class/hwmon/hwmon0/temp1_input", "-5000\n");
    let state = PlatformProfile::probe(&tree).unwrap().read_state(&tree);
    assert_eq!(state.sensors.cpu_temp_c, None);
}
