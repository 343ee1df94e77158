use claude_code_proxy::rate::{RateWindow, WINDOW_NANOS};

#[test]
fn admits_up_to_the_limit_within_a_minute() {
    let mut window = RateWindow::new();
    assert!(window.try_admit(0, 2));
    assert!(window.try_admit(10, 2));
    assert!(!window.try_admit(20, 2));
    assert!(!window.try_admit(WINDOW_NANOS - 1, 2));
    // the first request leaves the window exactly one minute later
    assert!(window.try_admit(WINDOW_NANOS, 2));
    assert!(!window.try_admit(WINDOW_NANOS + 5, 2));
    assert!(window.try_admit(WINDOW_NANOS + 10, 2));
}

#[test]
fn zero_limit_admits_nothing() {
    let mut window = RateWindow::new();
    assert!(!window.try_admit(0, 0));
    assert!(!window.try_admit(5 * WINDOW_NANOS, 0));
}

#[test]
fn old_requests_are_dropped_only_from_the_front() {
    let mut window = RateWindow::new();
    assert!(window.try_admit(5 * WINDOW_NANOS, 3));
    assert!(window.try_admit(0, 3));
    // the front entry is still inside at this time, so the expired one behind it stays
    assert!(window.try_admit(5 * WINDOW_NANOS + 1, 3));
    assert!(!window.try_admit(5 * WINDOW_NANOS + 2, 3));
}
