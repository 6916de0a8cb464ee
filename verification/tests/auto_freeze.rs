use gezellij::auto_freeze::{decide, format_secs, AutoFreeze, NO_CGROUPS_WARNING};
use gezellij::cgroups::FreezeSummary;
use gezellij::time::Duration;

fn unarmed(threshold: Duration) -> AutoFreeze {
    AutoFreeze::new("test-session-that-does-not-exist".to_string(), threshold)
}

fn panes(total: usize, frozen: usize) -> Result<Option<FreezeSummary>, String> {
    Ok(Some(FreezeSummary { total, frozen }))
}

fn at(secs: u64) -> Duration {
    Duration::from_secs(secs)
}

#[test]
fn idle_clock_starts_when_the_last_client_leaves_and_stops_on_attach() {
    let mut auto_freeze = unarmed(Duration::from_secs(600));
    assert_eq!(auto_freeze.idle_for(at(1)), None, "starts out not idle");

    auto_freeze.set_has_clients(false, at(2));
    let first = auto_freeze.idle_for(at(3)).expect("idle clock running");
    assert_eq!(first, at(1));
    // a second "no clients" must not restart the clock
    auto_freeze.set_has_clients(false, at(4));
    assert!(!auto_freeze.idle_for(at(5)).unwrap().is_shorter_than(&first));
    assert_eq!(auto_freeze.idle_for(at(5)), Some(at(3)));

    auto_freeze.set_has_clients(true, at(6));
    assert_eq!(auto_freeze.idle_for(at(7)), None, "attached: not idle");
}

#[test]
fn attaching_clears_the_froze_this_period_marker() {
    let mut auto_freeze = unarmed(Duration::from_secs(1));
    auto_freeze.set_has_clients(false, at(1));
    auto_freeze.freeze(true, Ok(Some((1, 0))));
    assert!(auto_freeze.we_froze());
    auto_freeze.set_has_clients(true, at(2));
    assert!(!auto_freeze.we_froze());
}

#[test]
fn decide_freezes_only_an_idle_unfrozen_session_we_have_not_frozen_yet() {
    let threshold = Duration::from_secs(60);
    let long = Duration::from_secs(61);
    let short = Duration::from_secs(59);

    // idle past the threshold, not frozen, we have not frozen it: freeze
    assert_eq!(decide(Some(long), false, false, threshold), Some(true));
    // not idle long enough yet
    assert_eq!(decide(Some(short), false, false, threshold), None);
    // already frozen: nothing to do
    assert_eq!(decide(Some(long), true, true, threshold), None);
    // we froze it and somebody thawed it by hand while still detached: leave it thawed
    assert_eq!(decide(Some(long), false, true, threshold), None);
    // attached and frozen by us (an attach path that did not thaw inline): thaw
    assert_eq!(decide(None, true, true, threshold), Some(false));
    // attached and frozen by the user: leave it frozen
    assert_eq!(decide(None, true, false, threshold), None);
    // attached and running: nothing to do
    assert_eq!(decide(None, false, false, threshold), None);
    // exactly at the threshold counts
    assert_eq!(decide(Some(threshold), false, false, threshold), Some(true));
}

#[test]
fn a_session_without_cgroups_is_never_touched() {
    // no groups: every operation is a no-op that must not panic
    let mut auto_freeze = unarmed(Duration::from_millis(1));
    auto_freeze.set_has_clients(false, at(1));
    let outcome = auto_freeze.tick(Some(false), Ok(None), at(2));
    assert_eq!(outcome.action, None);
    assert_eq!(outcome.warning, None);
    let outcome = auto_freeze.thaw_now(Ok(None));
    assert_eq!((outcome.action, outcome.warning), (None, None));
    assert!(!auto_freeze.we_froze());
    let report = auto_freeze.freeze(true, Ok(None));
    assert_eq!((report.info, report.warning), (None, None));
    assert!(!auto_freeze.we_froze());
}

#[test]
fn a_session_thawed_by_hand_stays_thawed_until_somebody_was_there() {
    let mut supervisor = unarmed(at(60));
    supervisor.set_has_clients(false, at(0));
    assert_eq!(supervisor.tick(Some(false), Ok(Some(false)), at(59)).action, None);
    assert_eq!(
        supervisor.tick(Some(false), Ok(Some(false)), at(60)).action,
        Some(true)
    );
    supervisor.freeze(true, Ok(Some((2, 0))));
    assert_eq!(supervisor.tick(Some(false), Ok(Some(true)), at(75)).action, None);
    // thawed by hand
    assert_eq!(supervisor.tick(Some(false), Ok(Some(false)), at(90)).action, None);
    assert_eq!(supervisor.tick(None, Ok(Some(false)), at(900)).action, None);
    // somebody attaches and leaves
    assert_eq!(supervisor.on_attach(panes(2, 0), at(1000)).action, None);
    supervisor.clients_changed(Some(false), at(1010));
    assert_eq!(supervisor.tick(Some(false), Ok(Some(false)), at(1069)).action, None);
    assert_eq!(
        supervisor.tick(Some(false), Ok(Some(false)), at(1070)).action,
        Some(true)
    );
}

#[test]
fn attaching_thaws_at_once_and_a_missed_attach_is_made_good() {
    let mut supervisor = unarmed(at(60));
    supervisor.set_has_clients(false, at(0));
    supervisor.freeze(true, Ok(Some((1, 0))));
    assert_eq!(supervisor.on_attach(panes(1, 1), at(100)).action, Some(false));
    assert_eq!(supervisor.idle_for(at(101)), None);

    let mut missed = unarmed(at(60));
    missed.set_has_clients(false, at(0));
    missed.freeze(true, Ok(Some((1, 0))));
    assert_eq!(
        missed.tick(Some(true), Ok(Some(true)), at(100)).action,
        Some(false)
    );
    // frozen by hand while attached
    let mut by_hand = unarmed(at(60));
    assert_eq!(by_hand.tick(Some(true), Ok(Some(true)), at(100)).action, None);
}

#[test]
fn freezing_is_reported_for_the_log() {
    let mut supervisor = AutoFreeze::new("main".to_string(), at(600));
    let report = supervisor.freeze(true, Ok(Some((3, 1))));
    assert_eq!(
        report.info.unwrap(),
        "auto-freeze: froze 3 pane(s) of 'main' after 600s without an attached client; it will thaw when you attach"
    );
    assert_eq!(
        report.warning.unwrap(),
        "auto-freeze: 1 pane(s) of 'main' could not be frozen"
    );
    assert!(supervisor.we_froze());
    let report = supervisor.freeze(false, Ok(Some((4, 0))));
    assert_eq!(
        report.info.unwrap(),
        "auto-freeze: thawed 4 pane(s) of 'main'"
    );
    assert_eq!(report.warning, None);
    assert!(!supervisor.we_froze());
    let report = supervisor.freeze(true, Ok(Some((0, 0))));
    assert_eq!((report.info, report.warning), (None, None));
    assert!(!supervisor.we_froze());
    let report = supervisor.freeze(false, Err("no such file".to_string()));
    assert_eq!(
        report.warning.unwrap(),
        "auto-freeze: could not thaw 'main': no such file"
    );
    let outcome = supervisor.tick(Some(true), Err("denied".to_string()), at(1));
    assert_eq!(outcome.action, None);
    assert_eq!(
        outcome.warning.unwrap(),
        "auto-freeze: could not read the freezer state of 'main': denied"
    );
}

#[test]
fn a_supervisor_needs_cgroups() {
    let (supervisor, line) = AutoFreeze::spawn(true, "main".to_string(), at(600));
    assert!(supervisor.is_some());
    assert_eq!(
        line,
        "auto-freeze armed for session 'main': freezing after 600s without an attached client"
    );
    let (supervisor, line) = AutoFreeze::spawn(false, "main".to_string(), at(600));
    assert!(supervisor.is_none());
    assert_eq!(line, NO_CGROUPS_WARNING);
    assert_eq!(format_secs(Duration::new(7, 999_999_999)), "7s");
}

#[test]
fn attaching_thaws_a_session_that_is_only_partly_frozen() {
    let mut supervisor = AutoFreeze::new("main".to_string(), at(60));
    supervisor.set_has_clients(false, at(0));
    supervisor.freeze(true, Ok(Some((1, 1))));
    let outcome = supervisor.on_attach(panes(2, 1), at(100));
    assert_eq!((outcome.action, outcome.warning), (Some(false), None));
    assert_eq!(supervisor.idle_for(at(101)), None);
    assert!(!supervisor.we_froze());
    // frozen by hand, pane by pane: attaching thaws it all the same
    assert_eq!(supervisor.on_attach(panes(3, 1), at(102)).action, Some(false));
    assert_eq!(supervisor.on_attach(panes(3, 0), at(103)).action, None);
    assert_eq!(supervisor.on_attach(panes(0, 0), at(104)).action, None);
    assert_eq!(supervisor.on_attach(Ok(None), at(105)).action, None);
}

#[test]
fn attaching_to_a_session_that_cannot_be_read_is_reported() {
    let mut supervisor = AutoFreeze::new("main".to_string(), at(60));
    supervisor.set_has_clients(false, at(0));
    let outcome = supervisor.on_attach(Err("denied".to_string()), at(1));
    assert_eq!(outcome.action, None);
    assert_eq!(
        outcome.warning.unwrap(),
        "auto-freeze: could not read the freezer state of 'main': denied"
    );
    assert_eq!(supervisor.idle_for(at(2)), None);
}
