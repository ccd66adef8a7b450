//! Charge thresholds, which both backends share through `battery`.
//!
//! The pair is the interesting part: the kernel refuses a start threshold at
//! or above the end one, so which of the two moves first matters.

use omarchy_power::backend::{Backend, Error, Probe, Write};
use omarchy_power::backends::msi::Msi;
use omarchy_power::sysfs::Tree;
use omarchy_power::types::HwProfile;

const BAT: &str = "class/power_supply/BAT1";

/// The attributes of an MSI Katana (firmware 1587EMS1.106) that the backends
/// read.
fn fixture() -> Tree {
    let mut tree = Tree::new();
    for (path, value) in [
        ("devices/platform/msi-ec/shift_mode", "comfort\n"),
        ("devices/platform/msi-ec/fan_mode", "auto\n"),
        ("devices/platform/msi-ec/cooler_boost", "off\n"),
        ("devices/platform/msi-ec/super_battery", "off\n"),
        ("devices/platform/msi-ec/fw_version", "1587EMS1.106\n"),
        ("class/power_supply/BAT1/type", "Battery\n"),
        ("class/power_supply/BAT1/capacity", "99\n"),
        ("class/power_supply/BAT1/charge_control_end_threshold", "80\n"),
        ("class/power_supply/BAT1/charge_control_start_threshold", "70\n"),
        ("class/power_supply/ADP1/type", "Mains\n"),
        ("class/power_supply/ADP1/online", "1\n"),
    ] {
        tree.insert(path, value);
    }
    tree
}

fn chars(s: &str) -> Vec<char> {
    s.chars().collect()
}

fn read(tree: &Tree, attr: &str) -> String {
    let path = format!("{BAT}/{attr}");
    tree.read_opt(&chars(&path)).unwrap().into_iter().collect()
}

/// Carries out the writes a plan asks for, in order.
fn perform(tree: &mut Tree, writes: &[Write]) {
    for w in writes {
        tree.insert(&w.path, &w.value);
    }
}

fn apply(tree: &mut Tree, profile: HwProfile) -> Result<Vec<Write>, Error> {
    let backend = Msi::probe(tree).unwrap();
    let result = backend.apply(&profile, tree);
    if let Ok(writes) = &result {
        perform(tree, writes);
    }
    result
}

#[test]
fn both_halves_of_the_limit_are_reported() {
    let tree = fixture();
    let state = Msi::probe(&tree).unwrap().read_state(&tree);
    assert_eq!(state.battery.charge_end_threshold, Some(80));
    assert_eq!(state.battery.charge_start_threshold, Some(70));
}

#[test]
fn a_driver_without_a_start_file_loses_only_that_capability() {
    let mut tree = fixture();
    tree.remove("class/power_supply/BAT1/charge_control_start_threshold");

    let caps = Msi::probe(&tree).unwrap().capabilities();
    assert!(caps.charge_threshold, "the end threshold is still there");
    assert!(!caps.charge_start_threshold);
}

#[test]
fn asking_for_a_start_threshold_the_driver_lacks_fails_rather_than_writing() {
    let mut tree = fixture();
    tree.remove("class/power_supply/BAT1/charge_control_start_threshold");

    let result = apply(
        &mut tree,
        HwProfile { charge_start_threshold: Some(70), ..HwProfile::default() },
    );
    assert!(matches!(result, Err(Error::Unsupported("a start threshold"))));
}

#[test]
fn raising_the_pair_moves_the_end_first() {
    let mut tree = fixture();
    let writes = apply(
        &mut tree,
        HwProfile {
            charge_end_threshold: Some(95),
            charge_start_threshold: Some(85),
            ..HwProfile::default()
        },
    )
    .unwrap();

    assert_eq!(read(&tree, "charge_control_end_threshold"), "95");
    assert_eq!(read(&tree, "charge_control_start_threshold"), "85");
    // Writing start=85 while the end is still 80 is what the kernel refuses.
    assert_eq!(writes.len(), 2);
    assert!(writes[0].path.ends_with("charge_control_end_threshold"));
    assert!(writes[1].path.ends_with("charge_control_start_threshold"));
}

#[test]
fn lowering_the_pair_moves_the_start_first() {
    let mut tree = fixture();
    let writes = apply(
        &mut tree,
        HwProfile {
            charge_end_threshold: Some(60),
            charge_start_threshold: Some(50),
            ..HwProfile::default()
        },
    )
    .unwrap();

    assert_eq!(read(&tree, "charge_control_end_threshold"), "60");
    assert_eq!(read(&tree, "charge_control_start_threshold"), "50");
    assert_eq!(writes.len(), 2);
    assert!(writes[0].path.ends_with("charge_control_start_threshold"));
    assert!(writes[1].path.ends_with("charge_control_end_threshold"));
}

#[test]
fn a_start_at_or_above_the_end_is_refused_before_anything_is_written() {
    let mut tree = fixture();
    // The end threshold in the fixture is 80.
    let result = apply(
        &mut tree,
        HwProfile { charge_start_threshold: Some(80), ..HwProfile::default() },
    );
    assert!(
        matches!(result, Err(Error::BadValue("charge start threshold", _))),
        "got {result:?}"
    );
    assert_eq!(read(&tree, "charge_control_start_threshold"), "70", "hardware was touched anyway");
}

#[test]
fn the_half_left_alone_still_counts_towards_the_check() {
    let mut tree = fixture();
    // Start stays at 70, so an end of 65 would invert the pair.
    let result = apply(
        &mut tree,
        HwProfile { charge_end_threshold: Some(65), ..HwProfile::default() },
    );
    assert!(matches!(result, Err(Error::BadValue(..))), "got {result:?}");
    assert_eq!(read(&tree, "charge_control_end_threshold"), "80");
}

#[test]
fn a_threshold_outside_the_accepted_range_never_reaches_the_kernel() {
    let mut tree = fixture();
    let result = apply(
        &mut tree,
        HwProfile { charge_start_threshold: Some(5), ..HwProfile::default() },
    );
    assert!(matches!(result, Err(Error::BadValue(..))));
    assert_eq!(read(&tree, "charge_control_start_threshold"), "70");
}

#[test]
fn an_inverted_pair_is_named_with_both_numbers() {
    let mut tree = fixture();
    let err = apply(
        &mut tree,
        HwProfile { charge_start_threshold: Some(85), ..HwProfile::default() },
    )
    .unwrap_err();
    assert_eq!(
        err.message(),
        "charge start threshold does not accept the value 85 (must be below the end threshold of 80)"
    );
}

#[test]
fn the_accepted_range_includes_both_ends() {
    let mut tree = fixture();
    assert!(apply(
        &mut tree,
        HwProfile {
            charge_end_threshold: Some(100),
            charge_start_threshold: Some(20),
            ..HwProfile::default()
        },
    )
    .is_ok());
    let err = apply(
        &mut tree,
        HwProfile { charge_end_threshold: Some(101), ..HwProfile::default() },
    )
    .unwrap_err();
    assert_eq!(err.message(), "charge threshold does not accept the value 101 (expected 20-100)");
}

#[test]
fn a_machine_without_a_battery_has_no_thresholds_to_set() {
    let mut tree = fixture();
    tree.remove("class/power_supply/BAT1/type");
    let err = apply(
        &mut tree,
        HwProfile { charge_end_threshold: Some(80), ..HwProfile::default() },
    )
    .unwrap_err();
    assert!(matches!(err, Error::Unsupported("charge thresholds")));
}
