//! What a press decides.

use focus_launcher::backend::WindowId;
use focus_launcher::decision::{decide, Decision};

fn id(s: &str) -> WindowId {
    s.to_string()
}

#[test]
fn no_windows_means_launch() {
    assert_eq!(decide(&[], None, true, true), Decision::Launch);
}

#[test]
fn background_window_gets_activated() {
    let windows = vec![id("w1")];
    assert_eq!(
        decide(&windows, None, true, true),
        Decision::Activate(id("w1"))
    );
}

#[test]
fn focused_lone_window_gets_minimized_when_enabled() {
    let windows = vec![id("w1")];
    assert_eq!(
        decide(&windows, Some(&id("w1")), true, true),
        Decision::Minimize(id("w1"))
    );
}

#[test]
fn focused_lone_window_is_noop_when_minimize_disabled() {
    let windows = vec![id("w1")];
    assert_eq!(decide(&windows, Some(&id("w1")), true, false), Decision::NoOp);
}

#[test]
fn focused_window_cycles_to_next_when_enabled() {
    let windows = vec![id("w1"), id("w2"), id("w3")];
    assert_eq!(
        decide(&windows, Some(&id("w1")), true, true),
        Decision::Activate(id("w2"))
    );
    // wraps around
    assert_eq!(
        decide(&windows, Some(&id("w3")), true, true),
        Decision::Activate(id("w1"))
    );
}

#[test]
fn focused_window_is_noop_when_cycle_disabled_and_multiple_exist() {
    let windows = vec![id("w1"), id("w2")];
    assert_eq!(decide(&windows, Some(&id("w1")), false, true), Decision::NoOp);
}

#[test]
fn active_window_belonging_to_a_different_app_activates_first_match() {
    let windows = vec![id("w1"), id("w2")];
    assert_eq!(
        decide(&windows, Some(&id("other-app-window")), true, true),
        Decision::Activate(id("w1"))
    );
}

#[test]
fn presses_visit_every_window_and_come_back() {
    let windows = vec![id("w1"), id("w2"), id("w3")];
    let mut active = id("w2");
    let mut visited = Vec::new();
    for _ in 0..3 {
        match decide(&windows, Some(&active), true, true) {
            Decision::Activate(next) => active = next,
            other => panic!("expected a window to activate, got {other:?}"),
        }
        visited.push(active.clone());
    }
    assert_eq!(visited, vec![id("w3"), id("w1"), id("w2")]);
}

#[test]
fn a_lone_focused_window_is_minimized_even_where_cycling_is_off() {
    let windows = vec![id("w1")];
    assert_eq!(
        decide(&windows, Some(&id("w1")), false, true),
        Decision::Minimize(id("w1"))
    );
}

#[test]
fn several_windows_cycle_even_where_minimizing_is_off() {
    let windows = vec![id("w1"), id("w2")];
    assert_eq!(
        decide(&windows, Some(&id("w2")), true, false),
        Decision::Activate(id("w1"))
    );
}
