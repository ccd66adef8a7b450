use omarchy_power::config::{Config, Thermal};
use omarchy_power::types::{FanMode, HwProfile, PowerLevel};

#[test]
fn defaults_cover_every_profile_power_profiles_daemon_ships() {
    let config = Config::default();
    for name in ["performance", "balanced", "power-saver"] {
        assert!(config.for_profile(name).is_some(), "{name} unmapped");
    }
}

#[test]
fn an_unknown_profile_maps_to_nothing_rather_than_a_guess() {
    assert_eq!(Config::default().for_profile("turbo-plus"), None);
}

#[test]
fn the_shipped_power_saver_quietens_and_saves() {
    assert_eq!(
        Config::default().for_profile("power-saver"),
        Some(HwProfile {
            power_level: Some(PowerLevel::PowerSaver),
            fan_mode: Some(FanMode::Silent),
            battery_saver: Some(true),
            ..HwProfile::default()
        })
    );
}

#[test]
fn the_first_entry_for_a_name_is_the_one_that_counts() {
    let quiet = HwProfile { fan_mode: Some(FanMode::Silent), ..HwProfile::default() };
    let loud = HwProfile { fan_mode: Some(FanMode::Aggressive), ..HwProfile::default() };
    let config = Config {
        profiles: vec![("balanced".to_owned(), quiet), ("balanced".to_owned(), loud)],
        ..Config::default()
    };
    assert_eq!(config.for_profile("balanced"), Some(quiet));
}

#[test]
fn the_thermal_defaults_trip_at_ninety_and_release_at_eighty() {
    let thermal = Thermal::default();
    assert!(thermal.enabled);
    assert_eq!(thermal.high_c, 90);
    assert_eq!(thermal.low_c, 80);
    assert_eq!(thermal.cooldown_s, 30);
    assert_eq!(Config::default().thermal, thermal);
    assert_eq!(Config::default().on_battery, HwProfile::default());
}

#[test]
fn a_table_that_names_a_profile_twice_is_refused() {
    let quiet = HwProfile { fan_mode: Some(FanMode::Silent), ..HwProfile::default() };
    let twice = vec![("balanced".to_owned(), quiet), ("balanced".to_owned(), quiet)];
    assert_eq!(Config::new(twice, HwProfile::default(), Thermal::default()), None);

    let once = vec![("balanced".to_owned(), quiet), ("power-saver".to_owned(), quiet)];
    let config = Config::new(once, HwProfile::default(), Thermal::default()).unwrap();
    assert_eq!(config.for_profile("power-saver"), Some(quiet));
    assert_eq!(config.profiles.len(), 2);
}
