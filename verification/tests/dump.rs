use omarchy_power::dump::capture_paths;

#[test]
fn only_the_listed_attributes_are_captured() {
    let paths = capture_paths(&["hwmon5".to_owned()], &["BAT1".to_owned(), "ADP1".to_owned()]);
    assert_eq!(paths.len(), 11 + 5 + 2 * 5);
    assert_eq!(paths[0], "devices/platform/msi-ec/shift_mode");
    assert_eq!(paths[10], "devices/platform/msi-ec/gpu/realtime_fan_speed");
    assert_eq!(paths[11], "class/hwmon/hwmon5/name");
    assert_eq!(paths[15], "class/hwmon/hwmon5/fan4_input");
    assert_eq!(paths[16], "class/power_supply/BAT1/type");
    assert_eq!(paths[25], "class/power_supply/ADP1/charge_control_start_threshold");
    assert!(!paths.iter().any(|p| p.contains("serial")));
}

#[test]
fn a_machine_without_devices_still_captures_the_ec() {
    assert_eq!(capture_paths(&[], &[]).len(), 11);
}
