use omarchy_power::config::{Config, Thermal};
use omarchy_power::detect::detect_in;
use omarchy_power::engine::{decide, overlay, Engine, Inputs, ThermalGuard};
use omarchy_power::sysfs::Tree;
use omarchy_power::types::{FanMode, HwProfile, PowerLevel};

fn config() -> Config {
    Config::default()
}

#[test]
fn a_profile_maps_straight_through_when_nothing_else_applies() {
    let profile = decide(
        &config(),
        &Inputs { ppd_profile: Some("power-saver".to_owned()), ..Inputs::default() },
    );
    assert_eq!(profile.power_level, Some(PowerLevel::PowerSaver));
    assert_eq!(profile.fan_mode, Some(FanMode::Silent));
    assert_eq!(profile.battery_saver, Some(true));
}

#[test]
fn the_battery_overlay_only_replaces_what_it_sets() {
    let mut config = config();
    config.on_battery = HwProfile { power_level: Some(PowerLevel::PowerSaver), ..HwProfile::default() };

    let profile = decide(
        &config,
        &Inputs { ppd_profile: Some("performance".to_owned()), on_battery: true, ..Inputs::default() },
    );
    assert_eq!(profile.power_level, Some(PowerLevel::PowerSaver));
    assert_eq!(profile.fan_mode, Some(FanMode::Aggressive), "the profile's own fan mode should survive");
}

#[test]
fn nothing_may_keep_the_fans_quiet_while_overheating() {
    let profile = decide(
        &config(),
        &Inputs { ppd_profile: Some("power-saver".to_owned()), thermal_tripped: true, ..Inputs::default() },
    );
    assert_eq!(profile.fan_mode, Some(FanMode::Aggressive));
    // ...but the rest of the quiet profile is left alone.
    assert_eq!(profile.power_level, Some(PowerLevel::PowerSaver));
}

#[test]
fn an_unknown_profile_changes_nothing() {
    let profile = decide(
        &config(),
        &Inputs { ppd_profile: Some("hyperdrive".to_owned()), ..Inputs::default() },
    );
    assert!(profile.is_empty());
}

#[test]
fn overheating_forces_the_fans_even_without_a_profile() {
    let profile = decide(&config(), &Inputs { thermal_tripped: true, ..Inputs::default() });
    assert_eq!(profile, HwProfile { fan_mode: Some(FanMode::Aggressive), ..HwProfile::default() });
}

#[test]
fn an_overlay_leaves_unset_fields_alone() {
    let mut base = HwProfile {
        power_level: Some(PowerLevel::Performance),
        fan_mode: Some(FanMode::Auto),
        charge_end_threshold: Some(80),
        ..HwProfile::default()
    };
    overlay(&mut base, &HwProfile { fan_mode: Some(FanMode::Silent), ..HwProfile::default() });
    assert_eq!(
        base,
        HwProfile {
            power_level: Some(PowerLevel::Performance),
            fan_mode: Some(FanMode::Silent),
            charge_end_threshold: Some(80),
            ..HwProfile::default()
        }
    );
}

fn guard() -> ThermalGuard {
    ThermalGuard::new(Thermal { enabled: true, high_c: 90, low_c: 80, cooldown_s: 30 })
}

const SECOND: u64 = 1000;

#[test]
fn the_guard_trips_at_the_high_mark() {
    let mut guard = guard();
    let now = 5 * SECOND;
    assert!(!guard.update(Some(89), now));
    assert!(guard.update(Some(90), now));
}

#[test]
fn the_guard_holds_until_it_has_been_cool_for_long_enough() {
    let mut guard = guard();
    let start = 7 * SECOND;
    guard.update(Some(95), start);

    // Cool enough, but not for long enough yet.
    assert!(guard.update(Some(75), start));
    assert!(guard.update(Some(75), start + 29 * SECOND));
    assert!(!guard.update(Some(75), start + 30 * SECOND));
}

#[test]
fn a_temperature_between_the_marks_does_not_start_the_cooldown() {
    let mut guard = guard();
    let start = 0;
    guard.update(Some(95), start);

    // 85 is below the trip point but above the release point.
    assert!(guard.update(Some(85), start));
    assert!(guard.update(Some(85), start + 600 * SECOND));
}

#[test]
fn a_brief_dip_does_not_count_towards_the_cooldown() {
    let mut guard = guard();
    let start = 100 * SECOND;
    guard.update(Some(95), start);

    assert!(guard.update(Some(75), start));
    assert!(guard.update(Some(88), start + 10 * SECOND));
    // The clock restarts from here, so the original deadline is not enough.
    assert!(guard.update(Some(75), start + 20 * SECOND));
    assert!(guard.update(Some(75), start + 45 * SECOND));
    assert!(!guard.update(Some(75), start + 51 * SECOND));
}

#[test]
fn losing_the_sensor_holds_the_current_verdict() {
    let mut guard = guard();
    let now = 3 * SECOND;
    guard.update(Some(95), now);
    assert!(guard.update(None, now + 3600 * SECOND), "a missing reading is not evidence of cooling");
}

#[test]
fn a_disabled_guard_never_trips() {
    let mut guard = ThermalGuard::new(Thermal { enabled: false, ..Thermal::default() });
    assert!(!guard.update(Some(120), 0));
}

fn katana() -> Tree {
    let mut tree = Tree::new();
    for (path, value) in [
        ("devices/platform/msi-ec/shift_mode", "comfort\n"),
        ("devices/platform/msi-ec/fan_mode", "auto\n"),
        ("devices/platform/msi-ec/cooler_boost", "off\n"),
        ("devices/platform/msi-ec/super_battery", "off\n"),
        ("devices/platform/msi-ec/cpu/realtime_temperature", "95\n"),
    ] {
        tree.insert(path, value);
    }
    tree
}

#[test]
fn an_unchanged_decision_costs_no_writes() {
    let tree = katana();
    let mut engine = Engine::new(detect_in(&tree).unwrap(), config());

    let first = engine.set_ppd_profile(Some("balanced".to_owned()), &tree);
    let writes = first.unwrap().unwrap();
    assert!(!writes.is_empty());
    assert!(engine.reconcile(&tree).is_none());
    assert!(engine.set_on_battery(false, &tree).is_none());
}

#[test]
fn a_failed_write_is_tried_again_on_the_next_event() {
    let tree = katana();
    let mut engine = Engine::new(detect_in(&tree).unwrap(), config());

    assert!(engine.set_ppd_profile(Some("balanced".to_owned()), &tree).is_some());
    engine.write_failed();
    assert!(engine.reconcile(&tree).unwrap().is_ok());
}

#[test]
fn no_profile_means_no_writes() {
    let tree = katana();
    let mut engine = Engine::new(detect_in(&tree).unwrap(), config());
    assert!(engine.reconcile(&tree).is_none());
    assert!(engine.set_ppd_profile(Some("hyperdrive".to_owned()), &tree).is_none());
}

#[test]
fn the_thermal_tick_reads_the_sensor_and_forces_the_fans() {
    let tree = katana();
    let mut engine = Engine::new(detect_in(&tree).unwrap(), config());
    assert!(engine.set_ppd_profile(Some("power-saver".to_owned()), &tree).is_some());

    let writes = engine.tick_thermal(&tree, 0).unwrap().unwrap();
    assert!(writes.iter().any(|w| w.path.ends_with("fan_mode") && w.value == "advanced"));
}

#[test]
fn the_battery_overlay_carries_a_start_threshold_too() {
    let mut config = config();
    config.on_battery = HwProfile { charge_start_threshold: Some(60), ..HwProfile::default() };
    let profile = decide(
        &config,
        &Inputs { ppd_profile: Some("balanced".to_owned()), on_battery: true, ..Inputs::default() },
    );
    assert_eq!(profile.charge_start_threshold, Some(60));
    assert_eq!(profile.fan_mode, Some(FanMode::Auto));

    let mut base = HwProfile { charge_start_threshold: Some(70), ..HwProfile::default() };
    overlay(&mut base, &HwProfile { charge_start_threshold: Some(50), ..HwProfile::default() });
    assert_eq!(base.charge_start_threshold, Some(50));
}

#[test]
fn following_events_keeps_the_engines_own_configuration() {
    let tree = katana();
    let mut config = config();
    config.on_battery = HwProfile { power_level: Some(PowerLevel::PowerSaver), ..HwProfile::default() };
    let mut engine = Engine::new(detect_in(&tree).unwrap(), config);
    assert!(engine.set_ppd_profile(Some("performance".to_owned()), &tree).is_some());
    let writes = engine.set_on_battery(true, &tree).unwrap().unwrap();
    // The battery overlay from the engine's own configuration decides.
    assert!(writes.iter().any(|w| w.path.ends_with("shift_mode") && w.value == "eco"));
}
