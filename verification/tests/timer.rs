use streambreak::timer::{State, Timer};
use streambreak::api::{timer_start_request, timer_start_request_at};

#[test]
fn test_new_timer_is_idle() {
    let t = Timer::new(30);
    assert_eq!(t.state(), State::Idle);
    let s = t.status();
    assert_eq!(s.elapsed_ms, 0);
    assert!(!s.popup_visible);
}

#[test]
fn test_start_changes_to_counting() {
    let mut t = Timer::new(30);
    t.start();
    assert_eq!(t.state(), State::Counting);
}

#[test]
fn test_show_and_hide() {
    let mut t = Timer::new(30);
    t.start();
    t.show();
    assert_eq!(t.state(), State::Showing);
    assert!(t.status().popup_visible);
    t.mark_hidden();
    assert_eq!(t.state(), State::Idle);
    assert!(!t.status().popup_visible);
}

#[test]
fn test_status_mode_strings() {
    let mut t = Timer::new(30);
    assert_eq!(t.status().mode, "idle");
    t.start();
    assert_eq!(t.status().mode, "counting");
    t.show();
    assert_eq!(t.status().mode, "showing");
    t.mark_hidden();
    assert_eq!(t.status().mode, "idle");
}

#[test]
fn threshold_fires_only_once_it_is_reached() {
    let mut t = Timer::new(30);
    assert!(!t.check_threshold_at(100));
    assert_eq!(t.state(), State::Idle);
    t.start();
    assert!(!t.check_threshold_at(29));
    assert_eq!(t.state(), State::Counting);
    assert!(t.check_threshold_at(30));
    assert_eq!(t.state(), State::Triggered);
    assert_eq!(t.status().mode, "triggered");
    assert!(!t.check_threshold_at(1000));
    assert_eq!(t.state(), State::Triggered);
}

#[test]
fn zero_threshold_fires_on_first_check() {
    let mut t = Timer::new(0);
    t.start();
    assert!(t.check_threshold());
    assert_eq!(t.state(), State::Triggered);
}

#[test]
fn fresh_start_does_not_fire_a_long_threshold() {
    let mut t = Timer::new(3600);
    t.start();
    assert!(!t.check_threshold());
    assert_eq!(t.state(), State::Counting);
}

#[test]
fn status_reports_elapsed_only_when_started() {
    let mut t = Timer::new(30);
    assert_eq!(t.status_at(1234).elapsed_ms, 0);
    t.start();
    let s = t.status_at(1234);
    assert_eq!(s.elapsed_ms, 1234);
    assert_eq!(s.mode, "counting");
    assert!(!s.popup_visible);
    t.show();
    assert_eq!(t.status_at(99).elapsed_ms, 99);
    t.mark_hidden();
    assert_eq!(t.status_at(99).elapsed_ms, 0);
}

#[test]
fn timer_start_request_shows_after_threshold() {
    let mut t = Timer::new(30);
    assert!(!timer_start_request_at(&mut t, 500));
    assert_eq!(t.state(), State::Counting);
    assert!(!timer_start_request_at(&mut t, 10));
    assert_eq!(t.state(), State::Counting);
    assert!(timer_start_request_at(&mut t, 30));
    assert_eq!(t.state(), State::Showing);
    assert!(!timer_start_request_at(&mut t, 100));
    assert_eq!(t.state(), State::Counting);
}

#[test]
fn timer_start_request_starts_an_idle_timer() {
    let mut t = Timer::new(30);
    assert!(!timer_start_request(&mut t));
    assert_eq!(t.state(), State::Counting);
}

#[test]
fn zero_threshold_fires_once_and_keeps_the_clock() {
    let mut t = Timer::new(0);
    t.start();
    assert!(t.check_threshold());
    assert_eq!(t.state(), State::Triggered);
    assert_eq!(t.status().mode, "triggered");
    assert!(!t.status().popup_visible);
    assert!(!t.check_threshold());
    assert_eq!(t.state(), State::Triggered);
}

#[test]
fn zero_threshold_start_request_shows() {
    let mut t = Timer::new(0);
    t.start();
    assert!(timer_start_request(&mut t));
    assert_eq!(t.state(), State::Showing);
}
