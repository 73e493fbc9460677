use rustpass::clipboard::{time_since, ClipboardTimer, CLIPBOARD_TIMEOUT};

const SECOND: u128 = 1_000_000_000;

#[test]
fn timeout_is_thirty_seconds() {
    assert_eq!(CLIPBOARD_TIMEOUT, 30 * SECOND);
    assert_eq!(ClipboardTimer::new().timeout, 30 * SECOND);
}

#[test]
fn idle_timer_clears_nothing() {
    let timer = ClipboardTimer::new();
    assert_eq!(timer.set_at, None);
    assert!(!timer.should_clear(0));
    assert!(!timer.should_clear(u128::MAX));
}

#[test]
fn armed_timer_clears_at_the_timeout() {
    let mut timer = ClipboardTimer::new();
    timer.arm(5 * SECOND);
    assert!(!timer.should_clear(5 * SECOND));
    assert!(!timer.should_clear(35 * SECOND - 1));
    assert!(timer.should_clear(35 * SECOND));
    assert!(timer.should_clear(500 * SECOND));
}

#[test]
fn a_second_copy_starts_the_countdown_over() {
    let mut timer = ClipboardTimer::new();
    timer.arm(0);
    timer.arm(20 * SECOND);
    assert!(!timer.should_clear(49 * SECOND));
    assert!(timer.should_clear(50 * SECOND));
}

#[test]
fn copied_text_is_cleared_once() {
    let mut timer = ClipboardTimer::new();
    timer.arm(0);
    let mut cleared = Vec::new();
    for second in 0..100u128 {
        if timer.should_clear(second * SECOND) {
            timer.reset();
            cleared.push(second);
        }
    }
    assert_eq!(cleared, vec![30]);
}

#[test]
fn a_clock_that_runs_back_has_no_time_passed() {
    assert_eq!(time_since(10, 4), 0);
    assert_eq!(time_since(4, 10), 6);
    let mut timer = ClipboardTimer::new();
    timer.arm(100 * SECOND);
    assert!(!timer.should_clear(1));
}
