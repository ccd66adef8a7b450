use omarchy_power::actions::{for_key, Action, Key};
use omarchy_power::types::{Battery, Capabilities, FanMode, HwState, PowerLevel};

fn caps() -> Capabilities {
    Capabilities {
        power_level: true,
        fan_mode: true,
        cooler_boost: true,
        battery_saver: true,
        charge_threshold: true,
        charge_start_threshold: true,
    }
}

fn state() -> HwState {
    HwState {
        power_level: Some(PowerLevel::Balanced),
        fan_mode: Some(FanMode::Auto),
        cooler_boost: Some(false),
        battery_saver: Some(false),
        battery: Battery { charge_end_threshold: Some(80), ..Battery::default() },
        ..HwState::default()
    }
}

fn press(c: char, state: &HwState, caps: Capabilities) -> Action {
    for_key(Key::Char(c), state, caps)
}

#[test]
fn cycling_advances_from_the_current_value_and_wraps() {
    let mut state = state();
    assert_eq!(press('p', &state, caps()), Action::SetPowerLevel(PowerLevel::PowerSaver));

    state.power_level = Some(PowerLevel::PowerSaver);
    assert_eq!(
        press('p', &state, caps()),
        Action::SetPowerLevel(PowerLevel::Performance),
        "cycle should wrap around"
    );
}

#[test]
fn toggles_flip_whatever_the_hardware_reports() {
    let mut state = state();
    assert_eq!(press('b', &state, caps()), Action::SetCoolerBoost(true));

    state.cooler_boost = Some(true);
    assert_eq!(press('b', &state, caps()), Action::SetCoolerBoost(false));
}

#[test]
fn keys_for_missing_hardware_report_that_rather_than_failing_later() {
    let state = state();
    let none = Capabilities::default();

    assert_eq!(press('b', &state, none), Action::Unsupported("cooler boost"));
    assert_eq!(press('f', &state, none), Action::Unsupported("fan modes"));
    assert_eq!(press('+', &state, none), Action::Unsupported("charge thresholds"));
}

#[test]
fn the_charge_limit_steps_and_stops_at_the_ends() {
    let mut state = state();
    assert_eq!(press('+', &state, caps()), Action::SetChargeThreshold(85));
    assert_eq!(press('-', &state, caps()), Action::SetChargeThreshold(75));

    state.battery.charge_end_threshold = Some(100);
    assert_eq!(
        press('+', &state, caps()),
        Action::SetChargeThreshold(100),
        "should clamp instead of overflowing"
    );

    state.battery.charge_end_threshold = Some(20);
    assert_eq!(press('-', &state, caps()), Action::SetChargeThreshold(20));
}

#[test]
fn an_unknown_current_value_starts_the_cycle_rather_than_doing_nothing() {
    let state = HwState::default();
    assert_eq!(press('p', &state, caps()), Action::SetPowerLevel(PowerLevel::Performance));
}

#[test]
fn unrelated_keys_are_ignored() {
    let state = state();
    assert_eq!(press('x', &state, caps()), Action::Ignored);
    assert_eq!(for_key(Key::Enter, &state, caps()), Action::Ignored);
}

#[test]
fn quitting_and_refreshing_need_no_hardware() {
    let state = HwState::default();
    let none = Capabilities::default();
    assert_eq!(for_key(Key::Esc, &state, none), Action::Quit);
    assert_eq!(press('Q', &state, none), Action::Quit);
    assert_eq!(press('r', &state, none), Action::Refresh);
}

#[test]
fn fan_modes_cycle_auto_silent_aggressive() {
    let mut state = state();
    assert_eq!(press('f', &state, caps()), Action::SetFanMode(FanMode::Silent));
    state.fan_mode = Some(FanMode::Aggressive);
    assert_eq!(press('F', &state, caps()), Action::SetFanMode(FanMode::Auto));
}

#[test]
fn without_a_charge_reading_the_key_is_ignored() {
    let state = HwState::default();
    assert_eq!(press('+', &state, caps()), Action::Ignored);
}
