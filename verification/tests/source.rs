use omarchy_power::backend::Error;
use omarchy_power::gpu::Gpu;
use omarchy_power::iface::{action_for, bus_error, setting_profile, BusError, Setting};
use omarchy_power::source::{Command, Source};
use omarchy_power::sysfs::Tree;
use omarchy_power::types::{Capabilities, FanMode, HwProfile, PowerLevel};
use omarchy_power::wire::state_to_dict;
use omarchy_power::iface::authorization;
use omarchy_power::iface::{fan_mode_setting, power_level_setting};

fn katana() -> Tree {
    let mut tree = Tree::new();
    for (path, value) in [
        ("devices/platform/msi-ec/shift_mode", "comfort\n"),
        ("devices/platform/msi-ec/fw_version", "1587EMS1.106\n"),
    ] {
        tree.insert(path, value);
    }
    tree
}

const NOT_RUNNING: &str =
    "omarchy-powerd is not running: start it with `systemctl start omarchy-powerd`";

#[test]
fn without_a_daemon_the_view_is_read_only() {
    let tree = katana();
    let source = Source::local(&tree).unwrap();
    assert!(source.is_read_only());
    assert_eq!(source.backend_name(), "msi-ec");
    assert_eq!(source.model(&tree).as_deref(), Some("1587EMS1.106"));
    assert!(source.charge_conflicts().is_empty());
    assert_eq!(source.set_power_level(PowerLevel::Performance), Err(NOT_RUNNING.to_owned()));
    assert_eq!(source.set_cooler_boost(true), Err(NOT_RUNNING.to_owned()));

    let (state, gpu) = source.snapshot(&state_to_dict(&Default::default()), &tree);
    assert_eq!(state.power_level, Some(PowerLevel::Balanced));
    assert_eq!(gpu, Gpu::default());
}

#[test]
fn unrelated_hardware_has_no_local_view() {
    assert!(matches!(Source::local(&Tree::new()), Err(Error::NoBackend)));
}

#[test]
fn through_the_daemon_changes_become_commands() {
    let source = Source::daemon(
        "msi-ec".to_owned(),
        String::new(),
        Capabilities::default(),
        vec!["tlp.service".to_owned()],
    );
    assert!(!source.is_read_only());
    assert_eq!(source.model(&Tree::new()), None);
    assert_eq!(source.charge_conflicts(), vec!["tlp.service".to_owned()]);
    assert_eq!(
        source.set_power_level(PowerLevel::PowerSaver),
        Ok(Command::SetPowerLevel("power-saver".to_owned()))
    );
    assert_eq!(source.set_fan_mode(FanMode::Silent), Ok(Command::SetFanMode("silent".to_owned())));
    assert_eq!(source.set_charge_end_threshold(85), Ok(Command::SetChargeEndThreshold(85)));
}

#[test]
fn charge_thresholds_have_their_own_polkit_action() {
    assert_eq!(action_for(Setting::ChargeEndThreshold(80)), "org.omarchy.power1.set-charge-threshold");
    assert_eq!(action_for(Setting::ChargeStartThreshold(70)), "org.omarchy.power1.set-charge-threshold");
    assert_eq!(action_for(Setting::FanMode(FanMode::Auto)), "org.omarchy.power1.set-profile");
}

#[test]
fn a_setting_changes_exactly_one_field() {
    assert_eq!(
        setting_profile(Setting::ChargeStartThreshold(70)),
        HwProfile { charge_start_threshold: Some(70), ..HwProfile::default() }
    );
    assert_eq!(
        setting_profile(Setting::PowerLevel(PowerLevel::Balanced)),
        HwProfile { power_level: Some(PowerLevel::Balanced), ..HwProfile::default() }
    );
}

#[test]
fn hardware_failures_map_onto_standard_bus_errors() {
    assert_eq!(bus_error(&Error::Unsupported("fan modes")), BusError::NotSupported);
    assert_eq!(bus_error(&Error::BadValue("charge threshold", "5".to_owned())), BusError::InvalidArgs);
    assert_eq!(
        bus_error(&Error::Write { path: "x".to_owned(), reason: "EACCES".to_owned() }),
        BusError::Failed
    );
}

#[test]
fn polkit_decides_only_when_it_is_there() {
    assert_eq!(authorization(None, "org.omarchy.power1.set-profile"), Ok(()));
    assert_eq!(authorization(Some(true), "org.omarchy.power1.set-profile"), Ok(()));
    assert_eq!(
        authorization(Some(false), "org.omarchy.power1.set-profile"),
        Err("not authorized for org.omarchy.power1.set-profile".to_owned())
    );
}

#[test]
fn a_setter_refuses_a_name_it_does_not_know() {
    assert_eq!(power_level_setting("power-saver"), Ok(Setting::PowerLevel(PowerLevel::PowerSaver)));
    assert_eq!(power_level_setting("turbo"), Err("unknown power level `turbo`".to_owned()));
    assert_eq!(fan_mode_setting("silent"), Ok(Setting::FanMode(FanMode::Silent)));
    assert_eq!(fan_mode_setting("quiet"), Err("unknown fan mode `quiet`".to_owned()));
}
