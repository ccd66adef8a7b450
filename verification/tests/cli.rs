use omarchy_power::actions::Action;
use omarchy_power::cli::{describe, lacking, on_off, outcome, Cli, Footer};
use omarchy_power::display::Status;
use omarchy_power::types::PowerLevel;
use omarchy_power::cli::{react, Reaction};

#[test]
fn a_status_clears_itself_after_a_while() {
    let mut footer = Footer::new(0);
    footer.set(Status::ok("power level: balanced".to_owned()), 10_000);

    footer.expire(10_000);
    assert!(footer.status.is_some(), "should linger long enough to read");

    footer.expire(10_000 + 4_000 + 1_000);
    assert!(footer.status.is_none(), "should not stay forever");
}

#[test]
fn a_status_lingers_exactly_four_seconds() {
    let mut footer = Footer::new(0);
    footer.set(Status::failed("x".to_owned()), 1_000);
    footer.expire(5_000);
    assert!(footer.status.is_some());
    footer.expire(5_001);
    assert!(footer.status.is_none());
}

#[test]
fn the_command_line_picks_the_view_the_dump_or_help() {
    assert_eq!(Cli::parse(&[]), Ok(Cli::Tui));
    assert_eq!(
        Cli::parse(&["dump-fixture".to_owned()]),
        Ok(Cli::DumpFixture("omarchy-power-fixture".to_owned()))
    );
    assert_eq!(
        Cli::parse(&["dump-fixture".to_owned(), "/tmp/x".to_owned()]),
        Ok(Cli::DumpFixture("/tmp/x".to_owned()))
    );
    assert_eq!(Cli::parse(&["--help".to_owned()]), Ok(Cli::Help));
    assert_eq!(
        Cli::parse(&["frobnicate".to_owned()]),
        Err("unknown command `frobnicate` (try --help)".to_owned())
    );
}

#[test]
fn the_footer_names_what_a_key_did() {
    assert_eq!(
        describe(Action::SetPowerLevel(PowerLevel::Balanced)).as_deref(),
        Some("power level: balanced")
    );
    assert_eq!(describe(Action::SetChargeThreshold(85)).as_deref(), Some("charge limit: 85%"));
    assert_eq!(describe(Action::SetCoolerBoost(true)).as_deref(), Some("cooler boost: on"));
    assert_eq!(describe(Action::Quit), None);
    assert_eq!(on_off(false), "off");
}

#[test]
fn a_failure_carries_the_daemons_own_words() {
    let status = outcome("fan mode: silent".to_owned(), Err("EIO".to_owned()));
    assert!(status.failed);
    assert_eq!(status.text, "fan mode: silent failed: EIO");
    let status = outcome("fan mode: silent".to_owned(), Ok(()));
    assert!(!status.failed);
    assert_eq!(status.text, "fan mode: silent");
    let status = lacking("cooler boost");
    assert!(status.failed);
    assert_eq!(status.text, "this machine has no cooler boost");
}

#[test]
fn each_action_gets_the_reaction_the_view_needs() {
    assert_eq!(react(Action::Quit), Reaction::Quit);
    assert_eq!(react(Action::Refresh), Reaction::Nothing);
    assert_eq!(react(Action::Ignored), Reaction::Nothing);
    assert_eq!(
        react(Action::Unsupported("fan modes")),
        Reaction::Show(Status::failed("this machine has no fan modes".to_owned()))
    );
    assert_eq!(react(Action::SetBatterySaver(false)), Reaction::Send("battery saver: off".to_owned()));
}
