use clipboard_sync::log::Level;
use clipboard_sync::supervisor::ChildHandle;
use clipboard_sync::supervisor::WaitObservation;
use clipboard_sync::supervisor::watchdog_check_level;
use clipboard_sync::supervisor::watchdog_expired;
use clipboard_sync::zombies::parse_child_pids;

#[test]
fn watchdog_fires_at_the_ceiling() {
    // A child that never exits is terminated once the ceiling has
    // elapsed: with a 2 s ceiling the decision flips between 2.0 s and
    // the next watchdog tick.
    let child = ChildHandle {
        pid: 4242,
        spawned_ms: 10_000,
    };
    assert!(!watchdog_expired(&child, 10_000, 2_000));
    assert!(!watchdog_expired(&child, 11_999, 2_000));
    assert!(watchdog_expired(&child, 12_000, 2_000));
    assert!(watchdog_expired(&child, 12_400, 2_000));
    // A clock reading from before the spawn never fires the watchdog.
    assert!(!watchdog_expired(&child, 9_000, 2_000));
}

#[test]
fn watchdog_status_check_severities() {
    assert_eq!(
        watchdog_check_level(&WaitObservation::StillAlive),
        Level::Debug
    );
    assert_eq!(
        watchdog_check_level(&WaitObservation::AlreadyExited),
        Level::Warn
    );
    assert_eq!(
        watchdog_check_level(&WaitObservation::StatusUnavailable),
        Level::Error
    );
}

#[test]
fn parses_one_pid_per_line() {
    assert_eq!(parse_child_pids("123\n456"), vec![123, 456]);
    assert_eq!(parse_child_pids("123\n456\n"), vec![123, 456]);
    assert_eq!(parse_child_pids("7"), vec![7]);
}

#[test]
fn empty_listing_has_no_pids() {
    assert_eq!(parse_child_pids(""), Vec::<u32>::new());
    assert_eq!(parse_child_pids("\n\n"), Vec::<u32>::new());
}

#[test]
fn unparsable_lines_are_dropped() {
    assert_eq!(parse_child_pids("12\nnope\n34"), vec![12, 34]);
    assert_eq!(parse_child_pids("12 \n 34"), Vec::<u32>::new());
    assert_eq!(parse_child_pids("-5\n6"), vec![6]);
}

#[test]
fn plus_sign_and_range_limits() {
    assert_eq!(parse_child_pids("+15"), vec![15]);
    assert_eq!(parse_child_pids("4294967295"), vec![u32::MAX]);
    assert_eq!(parse_child_pids("4294967296"), Vec::<u32>::new());
    assert_eq!(parse_child_pids("0007"), vec![7]);
}
