use omarchy_power::gpu::{parse, Gpu, GpuReader};

#[test]
fn a_normal_row_parses() {
    let gpu = parse("13.12, 115.00, 1057\n").unwrap();
    assert_eq!(gpu.power_w, Some(13));
    assert_eq!(gpu.power_limit_w, Some(115));
    assert_eq!(gpu.clock_mhz, Some(1057));
}

#[test]
fn a_dynamic_boost_laptop_reports_no_fixed_limit_rather_than_zero() {
    let gpu = parse("13.12, [N/A], 1057").unwrap();
    assert_eq!(gpu.power_w, Some(13));
    assert_eq!(gpu.power_limit_w, None);
}

#[test]
fn the_first_gpu_wins_when_there_are_several() {
    let gpu = parse("40.0, 115.00, 2100\n5.0, 60.00, 300\n").unwrap();
    assert_eq!(gpu.power_w, Some(40));
}

#[test]
fn nothing_at_all_is_absence_rather_than_a_row_of_zeroes() {
    assert_eq!(parse(""), None);
    assert!(parse("[N/A], [N/A], [N/A]").unwrap().is_empty());
}

#[test]
fn a_truncated_row_keeps_what_it_could_read() {
    let gpu = parse("13.12").unwrap();
    assert_eq!(gpu.power_w, Some(13));
    assert_eq!(gpu.clock_mhz, None);
}

#[test]
fn a_machine_without_an_nvidia_gpu_reads_as_empty_rather_than_failing() {
    // Whatever the machine has, the reading is something; the second read
    // within the time to live comes from the cache and agrees with the first.
    let mut reader = GpuReader::new();
    assert_eq!(reader.read(1_000), None);
    let first = reader.record(1_000, None);
    assert_eq!(first, Gpu::default());
    assert_eq!(reader.read(1_500), Some(first));
}

#[test]
fn halves_round_up_and_blank_lines_are_skipped() {
    let gpu = parse("\n  \n 12.5 , 60.49 , 300\n").unwrap();
    assert_eq!(gpu.power_w, Some(13));
    assert_eq!(gpu.power_limit_w, Some(60));
    assert_eq!(gpu.clock_mhz, Some(300));
}

#[test]
fn absurd_wattages_are_clamped_and_garbage_is_absent() {
    let gpu = parse("99999999.9, -3.0, abc").unwrap();
    assert_eq!(gpu.power_w, Some(u16::MAX));
    assert_eq!(gpu.power_limit_w, Some(0));
    assert_eq!(gpu.clock_mhz, None);
    assert_eq!(parse("1.2.3, x").unwrap().power_w, None);
}

#[test]
fn the_cache_expires_after_two_seconds() {
    let mut reader = GpuReader::new();
    let g = Gpu { power_w: Some(10), power_limit_w: None, clock_mhz: Some(900) };
    assert_eq!(reader.record(5_000, Some(g)), g);
    assert_eq!(reader.read(6_999), Some(g));
    assert_eq!(reader.read(7_000), None);
}

#[test]
fn the_driver_is_asked_for_the_enforced_limit() {
    assert_eq!(omarchy_power::gpu::query_fields(), "power.draw,enforced.power.limit,clocks.gr");
}

#[test]
fn only_plain_decimal_wattages_are_readings() {
    let gpu = parse("1e2, inf, 1057").unwrap();
    assert_eq!(gpu.power_w, None);
    assert_eq!(gpu.power_limit_w, None);
    assert_eq!(gpu.clock_mhz, Some(1057));
    assert_eq!(parse("12.5, -3.2, 7").unwrap().power_w, Some(13));
    assert_eq!(parse("12.5, -3.2, 7").unwrap().power_limit_w, Some(0));
    assert_eq!(parse("99999.9, .5, 7").unwrap().power_w, Some(u16::MAX));
    assert_eq!(parse("99999.9, .5, 7").unwrap().power_limit_w, Some(1));
}
