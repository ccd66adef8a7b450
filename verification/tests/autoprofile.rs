use omarchy_power::autoprofile::{active_class, class_in_reply, Hold, HoldStep, Rules};

/// The rules of a file holding a default of `balanced` and three classes, as
/// the file is read: keyed by pattern, in pattern order.
fn rules() -> Rules {
    Rules::new(
        Some("balanced".to_owned()),
        vec![
            ("foot".to_owned(), "power-saver".to_owned()),
            ("steam_app_*".to_owned(), "performance".to_owned()),
            ("steam_app_570".to_owned(), "power-saver".to_owned()),
        ],
    )
    .unwrap()
}

#[test]
fn an_exact_class_wins_over_the_pattern_that_also_matches() {
    assert_eq!(rules().profile_for("steam_app_570").as_deref(), Some("power-saver"));
    assert_eq!(rules().profile_for("steam_app_2280").as_deref(), Some("performance"));
}

#[test]
fn anything_unlisted_falls_back_to_the_default() {
    assert_eq!(rules().profile_for("zen-browser").as_deref(), Some("balanced"));
}

#[test]
fn without_a_default_an_unlisted_window_holds_nothing() {
    let rules = Rules::new(None, vec![("foot".to_owned(), "power-saver".to_owned())]).unwrap();
    assert_eq!(rules.profile_for("zen-browser"), None);
    assert_eq!(rules.profile_for("foot").as_deref(), Some("power-saver"));
}

#[test]
fn rules_out_of_pattern_order_are_not_a_table() {
    assert!(Rules::new(
        None,
        vec![
            ("steam_app_570".to_owned(), "power-saver".to_owned()),
            ("steam_app_*".to_owned(), "performance".to_owned()),
        ],
    )
    .is_none());
    assert!(Rules::new(
        None,
        vec![("foot".to_owned(), "a".to_owned()), ("foot".to_owned(), "b".to_owned())],
    )
    .is_none());
}

#[test]
fn the_class_is_read_up_to_the_first_comma() {
    assert_eq!(
        active_class("activewindow>>foot,vim README.md, line 3").as_deref(),
        Some("foot")
    );
}

#[test]
fn closing_the_last_window_reports_an_empty_class() {
    assert_eq!(active_class("activewindow>>,").as_deref(), Some(""));
    assert_eq!(rules().profile_for("").as_deref(), Some("balanced"));
}

#[test]
fn the_focused_class_is_read_out_of_the_compositors_reply() {
    let reply = "Window 55cd -> vim README.md:\n\tmapped: 1\n\tclass: foot\n\tinitialClass: foot\n";
    assert_eq!(class_in_reply(reply).as_deref(), Some("foot"));
}

#[test]
fn no_focused_window_reads_as_nothing_rather_than_an_empty_class() {
    assert_eq!(class_in_reply("Invalid\n"), None);
    assert_eq!(class_in_reply("\tclass: \n"), None);
}

#[test]
fn other_compositor_events_are_ignored() {
    assert_eq!(active_class("workspace>>2"), None);
    // The v2 event carries an address, not a class.
    assert_eq!(active_class("activewindowv2>>55cdbe1740c0"), None);
}

#[test]
fn a_star_matches_any_class_with_that_prefix() {
    let pattern: Vec<char> = "steam_app_*".chars().collect();
    let yes: Vec<char> = "steam_app_1".chars().collect();
    let no: Vec<char> = "steam".chars().collect();
    assert!(omarchy_power::autoprofile::matches(&pattern, &yes));
    assert!(!omarchy_power::autoprofile::matches(&pattern, &no));
    let exact: Vec<char> = "foot".chars().collect();
    let longer: Vec<char> = "footer".chars().collect();
    assert!(!omarchy_power::autoprofile::matches(&exact, &longer));
}

#[test]
fn following_a_window_releases_the_old_hold_before_taking_a_new_one() {
    let mut hold = Hold::new();
    assert_eq!(hold.follow(Some("performance")), HoldStep { release: None, hold: Some("performance".to_owned()) });
    hold.held(7, "performance");
    // The same profile again changes nothing.
    assert_eq!(hold.follow(Some("performance")), HoldStep { release: None, hold: None });
    assert_eq!(hold.follow(Some("power-saver")), HoldStep { release: Some(7), hold: Some("power-saver".to_owned()) });
    hold.held(8, "power-saver");
    assert_eq!(hold.follow(None), HoldStep { release: Some(8), hold: None });
    assert_eq!(hold.follow(None), HoldStep { release: None, hold: None });
}

#[test]
fn an_exact_key_beats_a_pattern_of_the_same_length() {
    let rules = Rules::new(
        None,
        vec![
            ("foo".to_owned(), "power-saver".to_owned()),
            ("foo*".to_owned(), "performance".to_owned()),
        ],
    )
    .unwrap();
    assert_eq!(rules.profile_for("foo").as_deref(), Some("power-saver"));
    assert_eq!(rules.profile_for("foobar").as_deref(), Some("performance"));
}
