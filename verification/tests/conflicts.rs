use omarchy_power::conflicts::{enabled_writers, unit_name};

fn file(path: &str, state: &str) -> (String, String) {
    (path.to_owned(), state.to_owned())
}

#[test]
fn an_enabled_writer_is_reported_by_name() {
    let files = [file("/usr/lib/systemd/system/battery-charge-threshold.service", "enabled")];
    assert_eq!(enabled_writers(&files), ["battery-charge-threshold.service"]);
}

#[test]
fn an_installed_but_disabled_unit_is_not_a_conflict() {
    let files = [
        file("/usr/lib/systemd/system/tlp.service", "disabled"),
        file("/usr/lib/systemd/system/battery-charge-threshold.service", "static"),
    ];
    assert!(enabled_writers(&files).is_empty());
}

#[test]
fn several_writers_come_back_in_a_stable_order() {
    let files = [
        file("/etc/systemd/system/tlp.service", "enabled"),
        file("/usr/lib/systemd/system/battery-charge-threshold.service", "enabled-runtime"),
    ];
    assert_eq!(enabled_writers(&files), ["battery-charge-threshold.service", "tlp.service"]);
}

#[test]
fn a_unit_we_do_not_know_about_is_ignored_even_when_it_matches_a_pattern() {
    let files = [file("/etc/systemd/system/battery-life.service", "enabled")];
    assert!(enabled_writers(&files).is_empty());
}

#[test]
fn a_unit_enabled_in_two_places_is_named_once() {
    let files = [
        file("/etc/systemd/system/tlp.service", "enabled"),
        file("/usr/lib/systemd/system/tlp.service", "enabled"),
    ];
    assert_eq!(enabled_writers(&files), ["tlp.service"]);
}

#[test]
fn the_unit_name_is_the_last_path_component_of_a_known_writer() {
    assert_eq!(unit_name("/etc/systemd/system/tlp.service").as_deref(), Some("tlp.service"));
    assert_eq!(unit_name("tlp.service").as_deref(), Some("tlp.service"));
    assert_eq!(unit_name("/etc/systemd/system/battery-life.service"), None);
}

#[test]
fn systemd_is_asked_about_exactly_the_known_writers() {
    assert_eq!(omarchy_power::conflicts::known_writers(), ["battery-charge-threshold.service", "tlp.service"]);
}
