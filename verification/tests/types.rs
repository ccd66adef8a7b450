use omarchy_power::sysfs::{
    devices_of, first_power_supply, hwmon_by_name, join_path, power_supplies_of_type, read_fans, Tree,
};
use omarchy_power::types::{FanMode, HwProfile, PowerLevel};

#[test]
fn levels_and_modes_round_trip_through_their_names() {
    for level in [PowerLevel::Performance, PowerLevel::Balanced, PowerLevel::PowerSaver] {
        assert_eq!(PowerLevel::from_name(level.as_str()), Some(level));
    }
    for mode in [FanMode::Auto, FanMode::Silent, FanMode::Aggressive] {
        assert_eq!(FanMode::from_name(mode.as_str()), Some(mode));
    }
    assert_eq!(PowerLevel::from_name("power_saver"), None);
    assert_eq!(FanMode::from_name("quiet"), None);
}

#[test]
fn cycling_wraps_and_starts_from_the_first() {
    assert_eq!(PowerLevel::next(None), PowerLevel::Performance);
    assert_eq!(PowerLevel::next(Some(PowerLevel::Performance)), PowerLevel::Balanced);
    assert_eq!(PowerLevel::next(Some(PowerLevel::PowerSaver)), PowerLevel::Performance);
    assert_eq!(FanMode::next(Some(FanMode::Aggressive)), FanMode::Auto);
}

#[test]
fn an_empty_profile_sets_nothing() {
    assert!(HwProfile::default().is_empty());
    assert!(!HwProfile { charge_start_threshold: Some(70), ..HwProfile::default() }.is_empty());
}

fn chars(s: &str) -> Vec<char> {
    s.chars().collect()
}

#[test]
fn a_tree_answers_from_what_was_put_into_it() {
    let mut tree = Tree::new();
    tree.insert("class/power_supply/BAT1/type", "Battery\n");
    tree.insert("class/power_supply/AC/type", "Mains\n");
    tree.insert("class/power_supply/BAT0/type", "Battery\n");
    tree.insert("class/power_supply/BAT0/capacity", " 42 \n");
    assert_eq!(tree.len(), 4);
    assert_eq!(tree.read_u8(&chars("class/power_supply/BAT0/capacity")), Some(42));
    assert_eq!(tree.read_u8(&chars("class/power_supply/BAT0/missing")), None);
    assert_eq!(
        devices_of(&tree, &chars("class/power_supply")),
        vec![chars("class/power_supply/AC"), chars("class/power_supply/BAT0"), chars("class/power_supply/BAT1")]
    );
    assert_eq!(
        power_supplies_of_type(&tree, "Battery"),
        vec![chars("class/power_supply/BAT0"), chars("class/power_supply/BAT1")]
    );
    assert_eq!(first_power_supply(&tree, "Mains"), Some(chars("class/power_supply/AC")));
    tree.remove("class/power_supply/BAT0/capacity");
    assert!(!tree.has_file(&chars("class/power_supply/BAT0/capacity")));
    assert_eq!(join_path(&chars("a/b"), "c"), chars("a/b/c"));
}

#[test]
fn a_chip_is_found_by_the_name_it_reports() {
    let mut tree = Tree::new();
    tree.insert("class/hwmon/hwmon3/name", "coretemp\n");
    tree.insert("class/hwmon/hwmon3/fan1_input", "900\n");
    tree.insert("class/hwmon/hwmon3/fan2_input", "not a number\n");
    tree.insert("class/hwmon/hwmon4/name", "acpitz\n");
    let chip = hwmon_by_name(&tree, "coretemp").unwrap();
    assert_eq!(chip, chars("class/hwmon/hwmon3"));
    assert_eq!(hwmon_by_name(&tree, "k10temp"), None);
    // The run of fans stops at the first unreadable one.
    assert_eq!(read_fans(&tree, &chip), vec![900]);
}
