use omarchy_power::gpu::Gpu;
use omarchy_power::types::{Battery, Capabilities, FanMode, HwState, PowerLevel, Sensors};
use omarchy_power::wire::{
    caps_from_dict, caps_to_dict, gpu_from_dict, gpu_into_dict, state_from_dict, state_to_dict,
    WireValue,
};

fn sample() -> HwState {
    HwState {
        power_level: Some(PowerLevel::PowerSaver),
        fan_mode: Some(FanMode::Silent),
        cooler_boost: Some(false),
        battery_saver: Some(true),
        sensors: Sensors {
            cpu_temp_c: Some(66),
            gpu_temp_c: Some(51),
            cpu_fan_percent: Some(70),
            gpu_fan_percent: Some(40),
            fan_rpm: vec![3555, 3555, 0, 0],
        },
        battery: Battery {
            capacity_percent: Some(99),
            charge_end_threshold: Some(80),
            charge_start_threshold: Some(75),
            on_ac: Some(true),
        },
    }
}

#[test]
fn a_full_snapshot_survives_the_round_trip() {
    let state = sample();
    assert_eq!(state_from_dict(&state_to_dict(&state)), state);
}

#[test]
fn absent_readings_are_omitted_rather_than_sent_as_zero() {
    let dict = state_to_dict(&HwState::default());

    assert!(dict.get("cpu-temp-c").is_none());
    assert!(dict.get("power-level").is_none());
    assert_eq!(state_from_dict(&dict), HwState::default());
}

#[test]
fn a_machine_without_tachometers_says_so_explicitly() {
    let dict = state_to_dict(&HwState::default());
    assert!(dict.get("fan-rpm").is_some(), "fan list should always be sent");
    assert!(state_from_dict(&dict).sensors.fan_rpm.is_empty());
}

#[test]
fn unknown_keys_from_a_newer_daemon_are_ignored() {
    let mut dict = state_to_dict(&sample());
    dict.insert("gpu-power-limit-w", WireValue::U32(115));

    assert_eq!(state_from_dict(&dict), sample());
}

#[test]
fn capabilities_round_trip() {
    let caps = Capabilities {
        power_level: true,
        fan_mode: true,
        cooler_boost: false,
        battery_saver: true,
        charge_threshold: false,
        charge_start_threshold: true,
    };
    assert_eq!(caps_from_dict(&caps_to_dict(&caps)), caps);
}

#[test]
fn the_gpu_readings_ride_along_without_disturbing_the_snapshot() {
    let mut dict = state_to_dict(&sample());
    let gpu = Gpu { power_w: Some(13), power_limit_w: None, clock_mhz: Some(1057) };
    gpu_into_dict(&mut dict, &gpu);
    assert_eq!(gpu_from_dict(&dict), gpu);
    assert!(dict.get("gpu-power-limit-w").is_none());
    assert_eq!(state_from_dict(&dict), sample());
}

#[test]
fn a_value_of_the_wrong_type_reads_as_absent() {
    let mut dict = state_to_dict(&sample());
    dict.insert("cpu-temp-c", WireValue::U32(66));
    dict.insert("power-level", WireValue::Str("turbo".to_owned()));
    let state = state_from_dict(&dict);
    assert_eq!(state.sensors.cpu_temp_c, None);
    assert_eq!(state.power_level, None);
    assert_eq!(state.fan_mode, Some(FanMode::Silent));
}

#[test]
fn a_missing_capability_key_is_a_missing_capability() {
    let mut dict = caps_to_dict(&Capabilities::default());
    dict.insert("fan-mode", WireValue::U8(1));
    assert_eq!(caps_from_dict(&dict), Capabilities::default());
}

#[test]
fn a_capability_map_holds_the_six_flags_and_nothing_else() {
    let dict = caps_to_dict(&Capabilities::default());
    assert_eq!(dict.entries().len(), 6);
    assert!(dict.get("fan-rpm").is_none());
    assert_eq!(dict.get("charge-start-threshold"), Some(&WireValue::Bool(false)));
}
