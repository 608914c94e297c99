use ciw::input::{map_key, Action, KeyCode, KeyPress};
use ciw::poller::{backoff_delay, job_fetch_error, retry_message, PollOutcome, PollerState, MAX_BACKOFF_SECS};

#[test]
fn poller_backoff_zero_failures_returns_base() {
    assert_eq!(backoff_delay(10, 0), 10);
}

#[test]
fn poller_backoff_one_failure_doubles() {
    assert_eq!(backoff_delay(10, 1), 20);
}

#[test]
fn poller_backoff_two_failures_quadruples() {
    assert_eq!(backoff_delay(10, 2), 40);
}

#[test]
fn poller_backoff_capped_at_max() {
    assert_eq!(backoff_delay(10, 10), MAX_BACKOFF_SECS);
}

#[test]
fn poller_backoff_large_failure_count_saturates() {
    assert_eq!(backoff_delay(10, 100), MAX_BACKOFF_SECS);
}

#[test]
fn poller_backoff_base_one() {
    assert_eq!(backoff_delay(1, 5), 32);
}

#[test]
fn backoff_base_zero_stays_zero() {
    assert_eq!(backoff_delay(0, 5), 0);
}

#[test]
fn backoff_is_monotone_in_failures() {
    let mut prev = 0;
    for f in 0..70u32 {
        let d = backoff_delay(7, f);
        assert!(d >= prev);
        assert!(d <= MAX_BACKOFF_SECS);
        prev = d;
    }
}

#[test]
fn poller_state_resets_on_success() {
    let mut p = PollerState::new();
    assert!(p.record(PollOutcome::Failure));
    assert!(p.record(PollOutcome::Failure));
    assert_eq!(p.next_delay(10), 40);
    assert!(p.record(PollOutcome::Success));
    assert_eq!(p.next_delay(10), 10);
    assert!(!p.record(PollOutcome::ChannelClosed));
}

#[test]
fn poller_messages() {
    assert_eq!(retry_message(40), "Poll failed, retrying in 40s");
    assert_eq!(job_fetch_error("timeout", "refused"), "timeout (retry also failed: refused)");
}

fn press(code: KeyCode) -> KeyPress {
    KeyPress { code, ctrl: false, press: true }
}

#[test]
fn key_map_tree_mode() {
    assert_eq!(map_key(press(KeyCode::Char('q')), false, false, false, false), Action::Quit);
    assert_eq!(map_key(press(KeyCode::Esc), true, false, false, false), Action::DismissError);
    assert_eq!(map_key(press(KeyCode::Esc), false, false, false, false), Action::Quit);
    assert_eq!(map_key(press(KeyCode::Char('r')), false, true, false, false), Action::NoAction);
    assert_eq!(map_key(press(KeyCode::Char('r')), false, false, false, false), Action::Refresh);
    assert_eq!(map_key(press(KeyCode::Char('3')), false, false, false, false), Action::QuickSelect(3));
    assert_eq!(map_key(press(KeyCode::Char('0')), false, false, false, false), Action::NoAction);
    assert_eq!(
        map_key(KeyPress { code: KeyCode::Char('q'), ctrl: false, press: false }, false, false, false, false),
        Action::NoAction
    );
}

#[test]
fn key_map_overlay_modes() {
    assert_eq!(map_key(press(KeyCode::Char('G')), false, false, true, false), Action::ScrollToBottom);
    assert_eq!(map_key(press(KeyCode::Char('e')), false, false, true, false), Action::CloseOverlay);
    assert_eq!(map_key(press(KeyCode::Char('d')), false, false, false, true), Action::CloseOverlay);
    assert_eq!(
        map_key(KeyPress { code: KeyCode::Char('c'), ctrl: true, press: true }, false, false, true, false),
        Action::Quit
    );
}
