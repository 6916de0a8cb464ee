use gezellij::client_activity::{humanise, ClientActivity};
use gezellij::time::Duration;

#[test]
fn park_unpark_and_forget() {
    let now = Duration::from_secs(100);
    let mut activity = ClientActivity::new();
    activity.seed(7, now);
    assert_eq!(activity.idle_for_many(&[7], now).len(), 1);
    assert!(!activity.is_parked(7));
    activity.park(7, 3);
    assert!(activity.is_parked(7));
    assert_eq!(activity.parked_client_count(), 1);
    assert_eq!(activity.unpark(7, now), Some(3));
    assert!(!activity.is_parked(7));
    assert_eq!(activity.unpark(7, now), None);

    activity.seed(11, now);
    activity.park(11, 1);
    activity.forget(11);
    assert!(activity.idle_for_many(&[11], now).is_empty());
    assert!(!activity.is_parked(11));
}

#[test]
fn durations_read_the_way_a_human_would_say_them() {
    assert_eq!(humanise(Duration::from_secs(0)), "0s");
    assert_eq!(humanise(Duration::from_secs(12)), "12s");
    assert_eq!(humanise(Duration::from_secs(59)), "59s");
    assert_eq!(humanise(Duration::from_secs(60)), "1m");
    assert_eq!(humanise(Duration::from_secs(4 * 60 + 30)), "4m");
    assert_eq!(humanise(Duration::from_secs(60 * 60)), "1h");
    assert_eq!(humanise(Duration::from_secs(2 * 3600 + 10 * 60)), "2h 10m");
    assert_eq!(humanise(Duration::from_secs(24 * 3600)), "1d");
    assert_eq!(
        humanise(Duration::from_secs(3 * 24 * 3600 + 4 * 3600)),
        "3d 4h"
    );
}

#[test]
fn idle_times_are_counted_from_the_last_input() {
    let mut activity = ClientActivity::default();
    activity.seed(1, Duration::from_secs(10));
    activity.seed(2, Duration::from_secs(20));
    activity.record_input(1, Duration::from_secs(30));
    let idle = activity.idle_for_many(&[1, 2, 3, 1], Duration::from_secs(25));
    assert_eq!(idle.len(), 2);
    // a clock that seems to run backwards counts as no time at all
    assert_eq!(idle[&1], Duration::from_secs(0));
    assert_eq!(idle[&2], Duration::from_secs(5));
}

#[test]
fn a_parked_client_goes_back_whatever_the_others_do() {
    let now = Duration::from_secs(0);
    let mut activity = ClientActivity::new();
    activity.park(1, 5);
    activity.park(2, 6);
    activity.unpark(2, now);
    activity.forget(3);
    activity.record_input(1, now);
    assert_eq!(activity.parked_client_count(), 1);
    assert_eq!(activity.unpark(1, now), Some(5));
    assert_eq!(activity.parked_client_count(), 0);
    assert_eq!(activity.unpark(1, now), None);
    assert_eq!(activity.parked_client_count(), 0);
    // parking a client twice counts it once
    activity.park(2, 6);
    activity.park(2, 7);
    assert_eq!(activity.parked_client_count(), 1);
    assert_eq!(activity.unpark(2, now), Some(7));
    assert_eq!(activity.idle_for_many(&[2], now).len(), 1);
}
