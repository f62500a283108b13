//! Whole runs of a key, against a desktop that records what it is asked.

use focus_launcher::apps::AppEntry;
use focus_launcher::backend::{BackendError, WindowId};
use focus_launcher::run::{start, Goal, Progress, Reply, Request, RunOutcome};
use focus_launcher::settings::FocusOrLaunchSettings;
use std::collections::HashMap;

fn app(id: &str, class: &str) -> AppEntry {
    AppEntry {
        id: id.to_string(),
        name: id.to_string(),
        window_class: class.to_string(),
        exec_line: format!("{id}-binary"),
        path: format!("/usr/share/applications/{id}.desktop"),
    }
}

fn settings(app: &str, cycle: bool, minimize: bool) -> FocusOrLaunchSettings {
    FocusOrLaunchSettings {
        app: Some(app.to_string()),
        class_override: None,
        cycle_windows: cycle,
        minimize_when_focused: minimize,
        name_override: None,
        icon_override: None,
        exec_override: None,
        custom_args: None,
        close_all_windows_on_hold: false,
    }
}

fn ids(list: &[&str]) -> Vec<WindowId> {
    list.iter().map(|s| s.to_string()).collect()
}

/// A desktop with set answers that records what it is asked.
#[derive(Default)]
struct RecordingDesktop {
    windows: Vec<WindowId>,
    /// Where set, the windows of each class, in place of `windows`.
    windows_by_class: Option<HashMap<String, Vec<WindowId>>>,
    active: Option<WindowId>,
    active_fails: bool,
    list_windows_err: Option<fn() -> BackendError>,
    /// Fail only the second search for windows.
    second_list_fails: bool,
    action_fails: bool,
    launch_fails: bool,
    close_fails_for: Vec<WindowId>,
    searches: Vec<String>,
    activate_calls: Vec<WindowId>,
    minimize_calls: Vec<WindowId>,
    close_calls: Vec<WindowId>,
    launches: Vec<(String, Option<String>)>,
}

impl RecordingDesktop {
    fn action(&self) -> Reply {
        if self.action_fails {
            Reply::Done(Err(BackendError::CommandFailed("refused".to_string())))
        } else {
            Reply::Done(Ok(()))
        }
    }

    fn answer(&mut self, request: Request) -> Reply {
        match request {
            Request::ListWindows(class) => {
                self.searches.push(class.clone());
                if let Some(err) = self.list_windows_err {
                    return Reply::Windows(Err(err()));
                }
                if self.second_list_fails && self.searches.len() == 2 {
                    return Reply::Windows(Err(BackendError::CommandFailed("late".to_string())));
                }
                Reply::Windows(Ok(match &self.windows_by_class {
                    Some(map) => map.get(&class).cloned().unwrap_or_default(),
                    None => self.windows.clone(),
                }))
            }
            Request::ActiveWindow => Reply::Active(if self.active_fails {
                Err(BackendError::CommandFailed("no focus".to_string()))
            } else {
                Ok(self.active.clone())
            }),
            Request::Activate(id) => {
                self.activate_calls.push(id);
                self.action()
            }
            Request::Minimize(id) => {
                self.minimize_calls.push(id);
                self.action()
            }
            Request::Close(id) => {
                self.close_calls.push(id.clone());
                Reply::Done(if self.close_fails_for.contains(&id) {
                    Err(BackendError::CommandFailed(format!("could not close {id}")))
                } else {
                    Ok(())
                })
            }
            Request::Launch { exec_line, args } => {
                self.launches.push((exec_line, args));
                Reply::Launched(if self.launch_fails {
                    Err("cannot spawn".to_string())
                } else {
                    Ok(())
                })
            }
        }
    }

    fn run(
        &mut self,
        goal: Goal,
        settings: &FocusOrLaunchSettings,
        apps: &[AppEntry],
    ) -> RunOutcome {
        let mut progress = start(goal, settings, apps);
        loop {
            match progress {
                Progress::Finished(outcome) => return outcome,
                Progress::Ask(run, request) => {
                    let reply = self.answer(request);
                    assert!(run.accepts(&reply));
                    progress = run.step(reply);
                }
            }
        }
    }

    fn focus_or_launch(
        &mut self,
        settings: &FocusOrLaunchSettings,
        apps: &[AppEntry],
    ) -> RunOutcome {
        self.run(Goal::FocusOrLaunch, settings, apps)
    }

    fn close_all(&mut self, settings: &FocusOrLaunchSettings, apps: &[AppEntry]) -> RunOutcome {
        self.run(Goal::CloseAll, settings, apps)
    }
}

fn no_wmctrl() -> BackendError {
    BackendError::Unavailable("no wmctrl".to_string())
}

fn broken() -> BackendError {
    BackendError::CommandFailed("broken".to_string())
}

fn firefox() -> Vec<AppEntry> {
    vec![app("org.mozilla.firefox", "firefox")]
}

fn chrome() -> Vec<AppEntry> {
    vec![app("chrome-abc-Default", "crx_abc")]
}

#[test]
fn orchestrate_launches_when_no_window_is_open() {
    let mut desktop = RecordingDesktop::default();
    let settings = settings("org.mozilla.firefox", true, true);

    let outcome = desktop.focus_or_launch(&settings, &firefox());

    assert_eq!(outcome, RunOutcome::Launched);
    assert!(desktop.activate_calls.is_empty());
    assert!(desktop.minimize_calls.is_empty());
    assert_eq!(
        desktop.launches,
        vec![("org.mozilla.firefox-binary".to_string(), None)]
    );
}

#[test]
fn orchestrate_activates_a_background_window() {
    let mut desktop = RecordingDesktop {
        windows: ids(&["w1"]),
        active: None,
        ..Default::default()
    };
    let settings = settings("org.mozilla.firefox", true, true);

    let outcome = desktop.focus_or_launch(&settings, &firefox());

    assert_eq!(outcome, RunOutcome::Activated("w1".to_string()));
    assert_eq!(desktop.activate_calls, ids(&["w1"]));
}

#[test]
fn orchestrate_cycles_to_next_window_when_focused_with_several_open() {
    let mut desktop = RecordingDesktop {
        windows: ids(&["w1", "w2"]),
        active: Some("w1".to_string()),
        ..Default::default()
    };
    let settings = settings("org.mozilla.firefox", true, true);

    let outcome = desktop.focus_or_launch(&settings, &firefox());

    assert_eq!(outcome, RunOutcome::Activated("w2".to_string()));
    assert_eq!(desktop.activate_calls, ids(&["w2"]));
}

#[test]
fn orchestrate_minimizes_a_focused_lone_window() {
    let mut desktop = RecordingDesktop {
        windows: ids(&["w1"]),
        active: Some("w1".to_string()),
        ..Default::default()
    };
    let settings = settings("org.mozilla.firefox", true, true);

    let outcome = desktop.focus_or_launch(&settings, &firefox());

    assert_eq!(outcome, RunOutcome::Minimized("w1".to_string()));
    assert_eq!(desktop.minimize_calls, ids(&["w1"]));
}

#[test]
fn orchestrate_reports_backend_unavailable_without_launching() {
    let mut desktop = RecordingDesktop {
        list_windows_err: Some(no_wmctrl),
        ..Default::default()
    };
    let settings = settings("org.mozilla.firefox", true, true);

    let outcome = desktop.focus_or_launch(&settings, &firefox());

    assert_eq!(
        outcome,
        RunOutcome::BackendUnavailable("no wmctrl".to_string())
    );
    assert!(desktop.activate_calls.is_empty());
    assert!(desktop.launches.is_empty());
}

#[test]
fn orchestrate_falls_back_to_entry_id_when_startup_wm_class_matches_nothing() {
    let mut windows_by_class = HashMap::new();
    windows_by_class.insert("crx_abc".to_string(), vec![]);
    windows_by_class.insert("chrome-abc-Default".to_string(), ids(&["w1"]));
    let mut desktop = RecordingDesktop {
        windows_by_class: Some(windows_by_class),
        ..Default::default()
    };
    let settings = settings("chrome-abc-Default", true, true);

    let outcome = desktop.focus_or_launch(&settings, &chrome());

    assert_eq!(outcome, RunOutcome::Activated("w1".to_string()));
    assert_eq!(desktop.searches, vec!["crx_abc", "chrome-abc-Default"]);
}

#[test]
fn orchestrate_launches_when_neither_class_nor_id_fallback_matches() {
    let mut desktop = RecordingDesktop {
        windows_by_class: Some(HashMap::new()),
        ..Default::default()
    };
    let settings = settings("chrome-abc-Default", true, true);

    let outcome = desktop.focus_or_launch(&settings, &chrome());

    assert_eq!(outcome, RunOutcome::Launched);
}

#[test]
fn orchestrate_does_not_fall_back_when_class_was_explicitly_overridden() {
    let mut windows_by_class = HashMap::new();
    windows_by_class.insert("chrome-abc-Default".to_string(), ids(&["w1"]));
    let mut desktop = RecordingDesktop {
        windows_by_class: Some(windows_by_class),
        ..Default::default()
    };
    let mut settings = settings("chrome-abc-Default", true, true);
    settings.class_override = Some("some-typo".to_string());

    let outcome = desktop.focus_or_launch(&settings, &chrome());

    assert_eq!(outcome, RunOutcome::Launched);
    assert_eq!(desktop.searches, vec!["some-typo"]);
}

#[test]
fn an_override_is_respected_though_it_is_the_applications_own_class() {
    let desktop = || RecordingDesktop {
        windows_by_class: Some(HashMap::from([(
            "chrome-abc-Default".to_string(),
            ids(&["w1"]),
        )])),
        ..Default::default()
    };
    let mut settings = settings("chrome-abc-Default", true, true);
    settings.class_override = Some("crx_abc".to_string());

    let mut pressed = desktop();
    assert_eq!(pressed.focus_or_launch(&settings, &chrome()), RunOutcome::Launched);
    assert_eq!(pressed.searches, vec!["crx_abc"]);
    let mut held = desktop();
    assert_eq!(held.close_all(&settings, &chrome()), RunOutcome::NoOp);
    assert_eq!(held.searches, vec!["crx_abc"]);

    // An empty one is none.
    settings.class_override = Some(String::new());
    let mut pressed = desktop();
    assert_eq!(
        pressed.focus_or_launch(&settings, &chrome()),
        RunOutcome::Activated("w1".to_string())
    );
}

#[test]
fn orchestrate_reports_no_app_selected() {
    let mut desktop = RecordingDesktop::default();
    let settings = FocusOrLaunchSettings::default();

    let outcome = desktop.focus_or_launch(&settings, &firefox());

    assert_eq!(outcome, RunOutcome::NoAppSelected);
}

#[test]
fn orchestrate_close_all_closes_every_matching_window() {
    let mut desktop = RecordingDesktop {
        windows: ids(&["w1", "w2"]),
        ..Default::default()
    };
    let settings = settings("org.mozilla.firefox", true, true);

    let outcome = desktop.close_all(&settings, &firefox());

    assert_eq!(outcome, RunOutcome::ClosedAll(ids(&["w1", "w2"])));
    assert_eq!(desktop.close_calls, ids(&["w1", "w2"]));
}

#[test]
fn orchestrate_close_all_is_a_no_op_when_nothing_is_open() {
    let mut desktop = RecordingDesktop::default();
    let settings = settings("org.mozilla.firefox", true, true);

    let outcome = desktop.close_all(&settings, &firefox());

    assert_eq!(outcome, RunOutcome::NoOp);
    assert!(desktop.close_calls.is_empty());
}

#[test]
fn orchestrate_close_all_reports_no_app_selected() {
    let mut desktop = RecordingDesktop::default();
    let settings = FocusOrLaunchSettings::default();

    let outcome = desktop.close_all(&settings, &firefox());

    assert_eq!(outcome, RunOutcome::NoAppSelected);
}

#[test]
fn orchestrate_close_all_reports_windows_that_failed_to_close() {
    let mut desktop = RecordingDesktop {
        windows: ids(&["w1", "w2"]),
        close_fails_for: ids(&["w2"]),
        ..Default::default()
    };
    let settings = settings("org.mozilla.firefox", true, true);

    let outcome = desktop.close_all(&settings, &firefox());

    assert_eq!(
        outcome,
        RunOutcome::CloseFailed(vec![(
            "w2".to_string(),
            "backend command failed: could not close w2".to_string()
        )])
    );
    // Both windows are still attempted, even after one failure.
    assert_eq!(desktop.close_calls, ids(&["w1", "w2"]));
}

#[test]
fn orchestrate_close_all_reports_backend_unavailable() {
    let mut desktop = RecordingDesktop {
        list_windows_err: Some(no_wmctrl),
        ..Default::default()
    };
    let settings = settings("org.mozilla.firefox", true, true);

    let outcome = desktop.close_all(&settings, &firefox());

    assert_eq!(
        outcome,
        RunOutcome::BackendUnavailable("no wmctrl".to_string())
    );
}

#[test]
fn orchestrate_close_all_falls_back_to_entry_id_when_startup_wm_class_matches_nothing() {
    let mut windows_by_class = HashMap::new();
    windows_by_class.insert("crx_abc".to_string(), vec![]);
    windows_by_class.insert("chrome-abc-Default".to_string(), ids(&["w1"]));
    let mut desktop = RecordingDesktop {
        windows_by_class: Some(windows_by_class),
        ..Default::default()
    };
    let settings = settings("chrome-abc-Default", true, true);

    let outcome = desktop.close_all(&settings, &chrome());

    assert_eq!(outcome, RunOutcome::ClosedAll(ids(&["w1"])));
}

#[test]
fn a_search_that_failed_ends_the_run() {
    let mut desktop = RecordingDesktop {
        list_windows_err: Some(broken),
        ..Default::default()
    };
    let settings = settings("chrome-abc-Default", true, true);

    let outcome = desktop.focus_or_launch(&settings, &chrome());
    assert_eq!(outcome, RunOutcome::ListWindowsFailed("broken".to_string()));
    let outcome = desktop.close_all(&settings, &chrome());
    assert_eq!(outcome, RunOutcome::ListWindowsFailed("broken".to_string()));
    assert!(desktop.launches.is_empty());
    assert_eq!(desktop.searches, vec!["crx_abc", "crx_abc"]);
}

#[test]
fn a_second_search_that_failed_counts_as_no_window() {
    let mut desktop = RecordingDesktop {
        second_list_fails: true,
        ..Default::default()
    };
    let settings = settings("chrome-abc-Default", true, true);

    let outcome = desktop.focus_or_launch(&settings, &chrome());

    assert_eq!(outcome, RunOutcome::Launched);
    assert_eq!(desktop.searches, vec!["crx_abc", "chrome-abc-Default"]);
}

#[test]
fn an_unknown_focus_activates_the_first_window() {
    let mut desktop = RecordingDesktop {
        windows: ids(&["w1", "w2"]),
        active: Some("w1".to_string()),
        active_fails: true,
        ..Default::default()
    };
    let settings = settings("org.mozilla.firefox", true, true);

    let outcome = desktop.focus_or_launch(&settings, &firefox());

    assert_eq!(outcome, RunOutcome::Activated("w1".to_string()));
}

#[test]
fn a_press_without_anything_to_do_asks_for_nothing_more() {
    let mut desktop = RecordingDesktop {
        windows: ids(&["w1", "w2"]),
        active: Some("w1".to_string()),
        ..Default::default()
    };
    let settings = settings("org.mozilla.firefox", false, true);

    let outcome = desktop.focus_or_launch(&settings, &firefox());

    assert_eq!(outcome, RunOutcome::NoOp);
    assert!(desktop.activate_calls.is_empty());
    assert!(desktop.minimize_calls.is_empty());
    assert!(desktop.launches.is_empty());
}

#[test]
fn windows_that_refuse_are_reported() {
    let mut desktop = RecordingDesktop {
        windows: ids(&["w1"]),
        action_fails: true,
        ..Default::default()
    };
    let settings = settings("org.mozilla.firefox", true, true);

    assert_eq!(
        desktop.focus_or_launch(&settings, &firefox()),
        RunOutcome::ActivateFailed(
            "w1".to_string(),
            "backend command failed: refused".to_string()
        )
    );
    desktop.active = Some("w1".to_string());
    assert_eq!(
        desktop.focus_or_launch(&settings, &firefox()),
        RunOutcome::MinimizeFailed(
            "w1".to_string(),
            "backend command failed: refused".to_string()
        )
    );
}

#[test]
fn an_application_that_cannot_be_launched_is_reported() {
    let mut desktop = RecordingDesktop {
        launch_fails: true,
        ..Default::default()
    };
    let settings = settings("org.mozilla.firefox", true, true);

    assert_eq!(
        desktop.focus_or_launch(&settings, &firefox()),
        RunOutcome::LaunchFailed("cannot spawn".to_string())
    );
}

#[test]
fn the_command_and_its_arguments_can_be_overridden() {
    let mut desktop = RecordingDesktop::default();
    let mut settings = settings("org.mozilla.firefox", true, true);
    settings.exec_override = Some("firefox --private-window".to_string());
    settings.custom_args = Some("https://example.com".to_string());

    let outcome = desktop.focus_or_launch(&settings, &firefox());

    assert_eq!(outcome, RunOutcome::Launched);
    assert_eq!(
        desktop.launches,
        vec![(
            "firefox --private-window".to_string(),
            Some("https://example.com".to_string())
        )]
    );
}

#[test]
fn a_run_accepts_only_answers_to_what_it_asked() {
    let settings = settings("org.mozilla.firefox", true, true);
    match start(Goal::FocusOrLaunch, &settings, &firefox()) {
        Progress::Ask(run, request) => {
            assert_eq!(request, Request::ListWindows("firefox".to_string()));
            assert!(run.accepts(&Reply::Windows(Ok(vec![]))));
            assert!(!run.accepts(&Reply::Active(Ok(None))));
            assert!(!run.accepts(&Reply::Done(Ok(()))));
            assert!(!run.accepts(&Reply::Launched(Ok(()))));
        }
        other => panic!("expected a question, got {other:?}"),
    }
}
