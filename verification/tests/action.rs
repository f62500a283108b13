//! Settings, keys and what is told of a run.

use focus_launcher::action::{
    apply_visuals, is_hold, panel_apps, panel_fields, FocusOrLaunchAction, HOLD_THRESHOLD,
};
use focus_launcher::apps::AppEntry;
use focus_launcher::backend::BackendKind;
use focus_launcher::report::{report_outcome, LogLevel, LogLine, Report};
use focus_launcher::run::{Goal, RunOutcome};
use focus_launcher::settings::{
    default_true, find_selected, id_fallback_class, resolve_display_name, resolve_exec,
    resolve_icon_source, resolve_target, FocusOrLaunchSettings, IconSource,
};
use serde_json::Value;
use std::time::Duration;

fn app(id: &str, class: &str) -> AppEntry {
    AppEntry {
        id: id.to_string(),
        name: id.to_string(),
        window_class: class.to_string(),
        exec_line: format!("{id}-binary"),
        path: format!("/usr/share/applications/{id}.desktop"),
    }
}

fn settings(app: &str, cycle: bool, minimize: bool) -> FocusOrLaunchSettings {
    FocusOrLaunchSettings {
        app: Some(app.to_string()),
        class_override: None,
        cycle_windows: cycle,
        minimize_when_focused: minimize,
        name_override: None,
        icon_override: None,
        exec_override: None,
        custom_args: None,
        close_all_windows_on_hold: false,
    }
}

fn millis(n: u64) -> u128 {
    Duration::from_millis(n).as_nanos()
}

fn report(level: LogLevel, text: &str, alert: bool) -> Report {
    Report {
        lines: vec![LogLine {
            level,
            text: text.to_string(),
        }],
        alert,
    }
}

fn silence() -> Report {
    Report {
        lines: vec![],
        alert: false,
    }
}

#[test]
fn exec_override_wins_when_set() {
    let mut settings = settings("org.mozilla.firefox", true, true);
    settings.exec_override = Some("firefox --private-window".to_string());
    let entry = app("org.mozilla.firefox", "firefox");

    assert_eq!(resolve_exec(&settings, &entry), "firefox --private-window");
}

#[test]
fn exec_falls_back_to_the_apps_own_exec_when_no_override() {
    let settings = settings("org.mozilla.firefox", true, true);
    let entry = app("org.mozilla.firefox", "firefox");

    assert_eq!(resolve_exec(&settings, &entry), entry.exec_line);
}

#[test]
fn name_override_wins_when_set() {
    let mut settings = settings("org.mozilla.firefox", true, true);
    settings.name_override = Some("Browser".to_string());
    let entry = app("org.mozilla.firefox", "firefox");

    assert_eq!(resolve_display_name(&settings, &entry), "Browser");
}

#[test]
fn name_falls_back_to_the_apps_own_name_when_no_override() {
    let settings = settings("org.mozilla.firefox", true, true);
    let entry = app("org.mozilla.firefox", "firefox");

    assert_eq!(resolve_display_name(&settings, &entry), entry.name);
}

#[test]
fn icon_override_resolves_by_name_not_the_desktop_file() {
    let mut settings = settings("org.mozilla.firefox", true, true);
    settings.icon_override = Some("firefox-nightly".to_string());
    let entry = app("org.mozilla.firefox", "firefox");

    assert_eq!(
        resolve_icon_source(&settings, &entry),
        IconSource::Named("firefox-nightly".to_string())
    );
}

#[test]
fn icon_falls_back_to_the_apps_own_desktop_file_when_no_override() {
    let settings = settings("org.mozilla.firefox", true, true);
    let entry = app("org.mozilla.firefox", "firefox");

    assert_eq!(
        resolve_icon_source(&settings, &entry),
        IconSource::FromDesktopFile(entry.path.clone())
    );
}

#[test]
fn empty_string_overrides_are_treated_as_unset() {
    let mut settings = settings("org.mozilla.firefox", true, true);
    settings.name_override = Some(String::new());
    settings.icon_override = Some(String::new());
    settings.exec_override = Some(String::new());
    let entry = app("org.mozilla.firefox", "firefox");

    assert_eq!(resolve_display_name(&settings, &entry), entry.name);
    assert_eq!(resolve_exec(&settings, &entry), entry.exec_line);
    assert_eq!(
        resolve_icon_source(&settings, &entry),
        IconSource::FromDesktopFile(entry.path.clone())
    );
}

#[test]
fn resolves_target_using_the_apps_own_window_class() {
    let settings = settings("org.mozilla.firefox", true, true);
    let apps = vec![app("org.mozilla.firefox", "firefox")];
    let (class, entry) = resolve_target(&settings, &apps).unwrap();
    assert_eq!(class, "firefox");
    assert_eq!(entry.id, "org.mozilla.firefox");
}

#[test]
fn class_override_wins_when_set() {
    let mut settings = settings("org.mozilla.firefox", true, true);
    settings.class_override = Some("Navigator".to_string());
    let apps = vec![app("org.mozilla.firefox", "firefox")];
    let (class, _) = resolve_target(&settings, &apps).unwrap();
    assert_eq!(class, "Navigator");
}

#[test]
fn is_hold_true_when_elapsed_meets_threshold() {
    assert!(is_hold(millis(500), millis(500)));
}

#[test]
fn is_hold_true_when_elapsed_exceeds_threshold() {
    assert!(is_hold(millis(800), millis(500)));
}

#[test]
fn is_hold_false_when_elapsed_is_below_threshold() {
    assert!(!is_hold(millis(200), millis(500)));
}

#[test]
fn no_target_when_no_app_selected() {
    let settings = FocusOrLaunchSettings::default();
    let apps = vec![app("org.mozilla.firefox", "firefox")];
    assert!(resolve_target(&settings, &apps).is_none());
}

#[test]
fn no_target_when_selected_app_no_longer_installed() {
    let settings = settings("uninstalled.app", true, true);
    let apps = vec![app("org.mozilla.firefox", "firefox")];
    assert!(resolve_target(&settings, &apps).is_none());
}

#[test]
fn default_matches_missing_key_deserialization() {
    let value: Value = serde_json::from_str("{}").unwrap();
    let switch = |key: &str| value.get(key).map_or(default_true(), |v| v.as_bool().unwrap());
    let from_default = FocusOrLaunchSettings::default();
    assert_eq!(switch("cycle_windows"), from_default.cycle_windows);
    assert_eq!(switch("minimize_when_focused"), from_default.minimize_when_focused);
    assert!(from_default.cycle_windows);
    assert!(from_default.minimize_when_focused);
    assert!(!from_default.close_all_windows_on_hold);
    assert!(from_default.app.is_none());
}

#[test]
fn id_fallback_offered_when_default_class_differs_from_entry_id() {
    let entry = app("chrome-abc-Default", "crx_abc");
    assert_eq!(
        id_fallback_class("crx_abc", &entry),
        Some("chrome-abc-Default")
    );
}

#[test]
fn id_fallback_not_offered_when_class_and_id_already_match() {
    let entry = app("plex-desktop_plex-desktop", "plex-desktop_plex-desktop");
    assert_eq!(id_fallback_class("plex-desktop_plex-desktop", &entry), None);
}

#[test]
fn id_fallback_not_offered_when_class_was_overridden() {
    let entry = app("chrome-abc-Default", "crx_abc");
    assert_eq!(id_fallback_class("Navigator", &entry), None);
}

#[test]
fn the_first_application_of_an_id_is_selected() {
    let settings = settings("b", true, true);
    let apps = vec![app("a", "one"), app("b", "two"), app("b", "three")];
    assert_eq!(find_selected(&settings, &apps).unwrap().window_class, "two");
}

// Presses and holds

fn kde() -> FocusOrLaunchAction {
    FocusOrLaunchAction::new(Some("KDE"), Some("wayland"), None)
}

fn closing() -> FocusOrLaunchSettings {
    let mut settings = settings("a", true, true);
    settings.close_all_windows_on_hold = true;
    settings
}

#[test]
fn the_threshold_is_half_a_second() {
    assert_eq!(HOLD_THRESHOLD, millis(500));
}

#[test]
fn a_hold_closes_all_windows_where_set() {
    let mut action = kde();
    action.key_down("key", millis(1000));
    assert_eq!(action.key_up("key", &closing(), millis(1500)), Goal::CloseAll);
}

#[test]
fn a_hold_focuses_or_launches_where_not_set() {
    let mut action = kde();
    action.key_down("key", millis(1000));
    let settings = settings("a", true, true);
    assert_eq!(action.key_up("key", &settings, millis(9000)), Goal::FocusOrLaunch);
}

#[test]
fn a_tap_focuses_or_launches() {
    let mut action = kde();
    action.key_down("key", millis(1000));
    assert_eq!(
        action.key_up("key", &closing(), millis(1500) - 1),
        Goal::FocusOrLaunch
    );
}

#[test]
fn a_release_ends_the_press() {
    let mut action = kde();
    action.key_down("key", 0);
    assert_eq!(action.key_up("key", &closing(), millis(700)), Goal::CloseAll);
    assert_eq!(action.key_up("key", &closing(), millis(900)), Goal::FocusOrLaunch);
}

#[test]
fn a_new_press_starts_the_clock_anew() {
    let mut action = kde();
    action.key_down("key", 0);
    action.key_down("key", millis(400));
    assert_eq!(action.key_up("key", &closing(), millis(700)), Goal::FocusOrLaunch);
}

#[test]
fn keys_do_not_get_in_each_others_way() {
    let mut action = kde();
    action.key_down("one", 0);
    action.key_down("two", millis(600));
    assert_eq!(action.key_up("two", &closing(), millis(700)), Goal::FocusOrLaunch);
    assert_eq!(action.key_up("one", &closing(), millis(700)), Goal::CloseAll);
}

#[test]
fn a_clock_that_stands_still_makes_no_hold() {
    let mut action = kde();
    action.key_down("key", millis(900));
    assert_eq!(action.key_up("key", &closing(), millis(100)), Goal::FocusOrLaunch);
}

#[test]
fn a_session_with_a_tool_is_served() {
    let action = kde();
    assert_eq!(action.backend(), Some(BackendKind::Kdotool));
    assert_eq!(action.require_backend(), Ok(BackendKind::Kdotool));
    assert_eq!(action.startup_report(), silence());
}

#[test]
fn a_session_without_a_tool_is_told() {
    let action = FocusOrLaunchAction::new(Some("sway"), Some("wayland"), None);
    assert_eq!(action.backend(), None);
    assert_eq!(
        action.require_backend(),
        Err(report(
            LogLevel::Error,
            "no supported window backend for this desktop session; taking no action",
            true
        ))
    );
    assert_eq!(
        action.startup_report(),
        report(
            LogLevel::Error,
            "no supported window backend for this desktop session; \
             Focus or Launch keys will do nothing until this is resolved",
            false
        )
    );
}

// How a key looks

#[test]
fn a_key_looks_as_its_application() {
    let apps = vec![app("a", "one")];
    let visuals = apply_visuals(&settings("a", true, true), &apps).unwrap();
    assert_eq!(visuals.title, "a");
    assert_eq!(
        visuals.icon,
        IconSource::FromDesktopFile("/usr/share/applications/a.desktop".to_string())
    );
    assert_eq!(visuals.app_id, "a");
}

#[test]
fn overrides_change_how_a_key_looks() {
    let apps = vec![app("a", "one")];
    let mut settings = settings("a", true, true);
    settings.name_override = Some("Mail".to_string());
    settings.icon_override = Some("mail-read".to_string());
    let visuals = apply_visuals(&settings, &apps).unwrap();
    assert_eq!(visuals.title, "Mail");
    assert_eq!(visuals.icon, IconSource::Named("mail-read".to_string()));
}

#[test]
fn a_key_without_an_application_stays_as_it_is() {
    let apps = vec![app("a", "one")];
    assert!(apply_visuals(&FocusOrLaunchSettings::default(), &apps).is_none());
    assert!(apply_visuals(&settings("gone", true, true), &apps).is_none());
}

#[test]
fn the_settings_panel_is_told_of_an_application() {
    let mut entry = app("a", "one");
    entry.name = "A name".to_string();
    let fields = panel_fields(&entry);
    let expected = [
        ("id", "a"),
        ("name", "A name"),
        ("path", "/usr/share/applications/a.desktop"),
        ("exec", "a-binary"),
    ];
    assert_eq!(fields.len(), expected.len());
    for (field, (key, value)) in fields.iter().zip(expected) {
        assert_eq!((field.0.as_str(), field.1.as_str()), (key, value));
    }
}

#[test]
fn the_settings_panel_is_told_of_every_application_in_order() {
    let apps = vec![app("b", "one"), app("a", "two"), app("c", "three")];
    let told = panel_apps(&apps);
    assert_eq!(told.len(), 3);
    for (fields, entry) in told.iter().zip(&apps) {
        assert_eq!(*fields, panel_fields(entry));
    }
    assert_eq!(told[1][0], ("id".to_string(), "a".to_string()));
    assert!(panel_apps(&[]).is_empty());
}

// What is told of a run

#[test]
fn what_worked_is_not_told() {
    assert_eq!(report_outcome(&RunOutcome::Launched), silence());
    assert_eq!(report_outcome(&RunOutcome::Activated("w".to_string())), silence());
    assert_eq!(report_outcome(&RunOutcome::Minimized("w".to_string())), silence());
    assert_eq!(report_outcome(&RunOutcome::NoOp), silence());
}

#[test]
fn a_key_without_an_application_is_warned_about() {
    assert_eq!(
        report_outcome(&RunOutcome::NoAppSelected),
        report(LogLevel::Warn, "no app selected for this key", false)
    );
}

#[test]
fn failures_are_told() {
    let m = || "why".to_string();
    let w = || "w1".to_string();
    let cases = [
        (
            RunOutcome::BackendUnavailable(m()),
            "window backend unavailable: why",
            true,
        ),
        (
            RunOutcome::ListWindowsFailed(m()),
            "window backend command failed: why",
            false,
        ),
        (RunOutcome::LaunchFailed(m()), "failed to launch app: why", true),
        (
            RunOutcome::ActivateFailed(w(), m()),
            "failed to activate window w1: why",
            true,
        ),
        (
            RunOutcome::MinimizeFailed(w(), m()),
            "failed to minimize window w1: why",
            true,
        ),
    ];
    for (outcome, text, alert) in cases {
        assert_eq!(report_outcome(&outcome), report(LogLevel::Error, text, alert));
    }
}

#[test]
fn closed_windows_are_counted() {
    let ids: Vec<String> = (0..12).map(|n| format!("w{n}")).collect();
    assert_eq!(
        report_outcome(&RunOutcome::ClosedAll(ids)),
        report(LogLevel::Info, "closed 12 window(s)", false)
    );
}

#[test]
fn each_window_that_did_not_close_is_told() {
    let failures = vec![
        ("w1".to_string(), "busy".to_string()),
        ("w3".to_string(), "gone".to_string()),
    ];
    let told = report_outcome(&RunOutcome::CloseFailed(failures));
    assert!(told.alert);
    let texts: Vec<&str> = told.lines.iter().map(|l| l.text.as_str()).collect();
    assert_eq!(
        texts,
        vec!["failed to close window w1: busy", "failed to close window w3: gone"]
    );
    assert!(told.lines.iter().all(|l| l.level == LogLevel::Error));
}
