use omarchy_power::display::{
    battery_text, charge_text, conflict_text, fan_mode_text, fans_text, footer_hint, heat,
    power_level_text, switch_text, temp_text, Heat,
};
use omarchy_power::types::{Battery, FanMode, HwState, PowerLevel};
use omarchy_power::display::state_rows;
use omarchy_power::types::Capabilities;
use omarchy_power::display::gauge_percent;
use omarchy_power::display::{footer_line, Status, Tone};

fn state() -> HwState {
    HwState {
        power_level: Some(PowerLevel::Balanced),
        battery: Battery {
            capacity_percent: Some(99),
            on_ac: Some(true),
            charge_end_threshold: Some(80),
            ..Battery::default()
        },
        ..HwState::default()
    }
}

#[test]
fn shows_hardware_state_and_sensors() {
    let state = state();
    assert_eq!(power_level_text(state.power_level), "balanced");
    assert_eq!(battery_text(&state), "99% (on AC)");
    assert_eq!(charge_text(&state), "80%");
    assert_eq!(fans_text(&[3555, 3555, 0, 0]), "fan1: 3555 rpm  fan2: 3555 rpm  fan3: 0 rpm  fan4: 0 rpm");
    assert_eq!(temp_text("CPU", Some(66), Some(70)), "CPU  66°C  fan 70%");
}

#[test]
fn unsupported_hardware_reads_as_such_rather_than_as_zero() {
    let state = HwState::default();
    assert_eq!(switch_text(state.cooler_boost), "unsupported");
    assert_eq!(charge_text(&state), "unsupported");
    assert_eq!(temp_text("GPU", None, None), "GPU  unavailable");
    assert_eq!(fans_text(&[]), "no tachometer readings");
    assert_eq!(battery_text(&state), "?");
    assert_eq!(fan_mode_text(None), "unknown");
    assert_eq!(fan_mode_text(Some(FanMode::Aggressive)), "aggressive");
    assert_eq!(power_level_text(Some(PowerLevel::PowerSaver)), "power saver");
}

#[test]
fn the_footer_explains_why_keys_do_nothing_without_a_daemon() {
    let hint = footer_hint(true);
    assert!(hint.contains("omarchy-powerd is not running"));
    assert!(!hint.contains("p/f cycle"));
    assert!(footer_hint(false).contains("p/f cycle"));
}

#[test]
fn a_unit_that_overwrites_the_charge_limit_is_named_on_screen() {
    assert_eq!(conflict_text(&[]), None);
    assert_eq!(
        conflict_text(&["battery-charge-threshold.service".to_owned(), "tlp.service".to_owned()])
            .as_deref(),
        Some("!    battery-charge-threshold.service, tlp.service also sets the charge limit")
    );
}

#[test]
fn gauges_warm_at_seventy_five_and_run_hot_at_eighty_eight() {
    assert_eq!(heat(74), Heat::Cool);
    assert_eq!(heat(75), Heat::Warm);
    assert_eq!(heat(87), Heat::Warm);
    assert_eq!(heat(88), Heat::Hot);
}

#[test]
fn the_state_panel_doubles_as_the_legend() {
    let caps = Capabilities { power_level: true, charge_threshold: true, ..Capabilities::default() };
    let rows = state_rows(&state(), caps);
    let keys: Vec<&str> = rows.iter().map(|r| r.key).collect();
    assert_eq!(keys, ["p", "f", "b", "s", "-/+", ""]);
    assert_eq!(rows[0].label, "Power level");
    assert_eq!(rows[0].value, "balanced");
    assert!(rows[0].supported);
    // A row the machine lacks stays, muted.
    assert_eq!(rows[2].value, "unsupported");
    assert!(!rows[2].supported);
    assert_eq!(rows[4].value, "80%");
    assert_eq!(rows[5].value, "99% (on AC)");
    assert!(rows[5].supported);
}

#[test]
fn a_gauge_fills_at_a_hundred_degrees() {
    assert_eq!(gauge_percent(66), 66);
    assert_eq!(gauge_percent(100), 100);
    assert_eq!(gauge_percent(120), 100);
}

#[test]
fn a_failure_takes_over_the_footer_but_keeps_the_last_snapshot() {
    let failed = Status::failed("reading shift_mode: EIO".to_owned());
    let (footer, tone) = footer_line(Some(&failed), false);
    assert!(footer.contains("EIO"), "error not shown");
    assert_eq!(tone, Tone::Failed);
    // The panel is drawn from the last snapshot, whatever the footer says.
    let rows = state_rows(&state(), Capabilities::default());
    assert_eq!(rows[0].value, "balanced", "last known state was dropped");

    let done = Status::ok("fan mode: auto".to_owned());
    assert_eq!(footer_line(Some(&done), true), (" fan mode: auto".to_owned(), Tone::Done));
    assert_eq!(footer_line(None, true).1, Tone::Hint);
    assert!(footer_line(None, true).0.contains("read-only"));
}

#[test]
fn the_header_names_the_backend_and_its_firmware() {
    let mut tree = omarchy_power::sysfs::Tree::new();
    tree.insert("devices/platform/msi-ec/shift_mode", "comfort\n");
    tree.insert("devices/platform/msi-ec/fw_version", "1587EMS1.106\n");
    let source = omarchy_power::source::Source::local(&tree).unwrap();
    assert_eq!(source.backend_name(), "msi-ec", "backend name missing");
    assert_eq!(source.model(&tree).as_deref(), Some("1587EMS1.106"), "firmware version missing");
    let rows = state_rows(&source.snapshot(&omarchy_power::wire::WireDict::new(), &tree).0, source.capabilities());
    assert_eq!(rows[0].value, "balanced", "power level missing");
}
