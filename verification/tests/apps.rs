//! Installed applications and how they are launched.

use focus_launcher::apps::{
    launch_app, list_apps, list_installed_apps, resolve_window_class, strip_exec_placeholders,
    DesktopFile, FoundEntry,
};
use focus_launcher::outside::DesktopFields;

fn file(path: &str, text: &str) -> DesktopFile {
    DesktopFile {
        path: path.to_string(),
        text: text.to_string(),
    }
}

fn found(id: &str, name: Option<&str>) -> FoundEntry {
    FoundEntry {
        path: format!("/usr/share/applications/{id}.desktop"),
        fields: DesktopFields {
            id: id.to_string(),
            name: name.map(str::to_string),
            no_display: false,
            hidden: false,
            entry_type: Some("Application".to_string()),
            startup_wm_class: None,
            exec_line: Some(id.to_string()),
        },
    }
}

#[test]
fn strips_every_known_placeholder() {
    assert_eq!(
        strip_exec_placeholders("firefox %u --new-window %F"),
        "firefox --new-window"
    );
}

#[test]
fn leaves_plain_exec_untouched() {
    assert_eq!(strip_exec_placeholders("kate"), "kate");
}

#[test]
fn resolve_window_class_prefers_startup_wm_class() {
    assert_eq!(
        resolve_window_class("org.mozilla.firefox", Some("firefox")),
        "firefox"
    );
}

#[test]
fn resolve_window_class_falls_back_to_entry_id() {
    assert_eq!(resolve_window_class("org.kde.kate", None), "org.kde.kate");
    assert_eq!(
        resolve_window_class("org.kde.kate", Some("")),
        "org.kde.kate"
    );
}

#[test]
fn discovers_a_fixture_desktop_entry() {
    let path = "/data/applications/test-app.desktop";
    let files = vec![file(
        path,
        "[Desktop Entry]\nType=Application\nName=Test App\nExec=test-app %u\nStartupWMClass=testapp\n\n",
    )];

    let apps = list_installed_apps(&files, &vec![]);
    assert_eq!(apps.len(), 1);
    assert_eq!(apps[0].name, "Test App");
    assert_eq!(apps[0].window_class, "testapp");
    assert_eq!(apps[0].exec_line, "test-app %u");
    assert_eq!(apps[0].path, path);
    assert_eq!(apps[0].id, "test-app");
}

#[test]
fn hides_nodisplay_entries() {
    let files = vec![file(
        "/data/applications/hidden-app.desktop",
        "[Desktop Entry]\nType=Application\nName=Hidden App\nExec=hidden-app\nNoDisplay=true\n\n",
    )];

    assert!(list_installed_apps(&files, &vec![]).is_empty());
}

#[test]
fn hides_non_application_entries() {
    let files = vec![file(
        "/data/applications/a-link.desktop",
        "[Desktop Entry]\nType=Link\nName=Some Link\nURL=https://example.com\n\n",
    )];

    assert!(list_installed_apps(&files, &vec![]).is_empty());
}

#[test]
fn dedups_an_id_present_in_two_search_paths_keeping_the_first() {
    // The user's directory comes first, as it takes precedence.
    let files = vec![
        file(
            "/home/user/applications/dup-app.desktop",
            "[Desktop Entry]\nType=Application\nName=User Override\nExec=dup-app\n\n",
        ),
        file(
            "/usr/share/applications/dup-app.desktop",
            "[Desktop Entry]\nType=Application\nName=System Copy\nExec=dup-app\n\n",
        ),
    ];

    let apps = list_installed_apps(&files, &vec![]);

    assert_eq!(apps.len(), 1);
    assert_eq!(apps[0].name, "User Override");
}

#[test]
fn hides_entries_marked_hidden() {
    let files = vec![file(
        "/data/applications/gone.desktop",
        "[Desktop Entry]\nType=Application\nName=Gone\nExec=gone\nHidden=true\n",
    )];

    assert!(list_installed_apps(&files, &vec![]).is_empty());
}

#[test]
fn a_hidden_override_does_not_hide_the_system_copy() {
    let files = vec![
        file(
            "/home/user/applications/app.desktop",
            "[Desktop Entry]\nType=Application\nName=Mine\nExec=app\nHidden=true\n",
        ),
        file(
            "/usr/share/applications/app.desktop",
            "[Desktop Entry]\nType=Application\nName=Theirs\nExec=app\n",
        ),
    ];

    let apps = list_installed_apps(&files, &vec![]);

    assert_eq!(apps.len(), 1);
    assert_eq!(apps[0].name, "Theirs");
}

#[test]
fn what_is_no_desktop_entry_is_passed_over() {
    let files = vec![
        file("/data/applications/broken.desktop", "no group here"),
        file(
            "/data/applications/fine.desktop",
            "[Desktop Entry]\nType=Application\nName=Fine\n",
        ),
    ];

    let apps = list_installed_apps(&files, &vec![]);

    assert_eq!(apps.len(), 1);
    assert_eq!(apps[0].id, "fine");
    // no command, and the id in place of a window class
    assert_eq!(apps[0].exec_line, "");
    assert_eq!(apps[0].window_class, "fine");
}

#[test]
fn names_come_in_the_users_language() {
    let files = vec![file(
        "/data/applications/editor.desktop",
        "[Desktop Entry]\nType=Application\nName=Editor\nName[de]=Bearbeiter\nExec=editor\n",
    )];

    let apps = list_installed_apps(&files, &vec!["de".to_string()]);
    assert_eq!(apps[0].name, "Bearbeiter");
    let apps = list_installed_apps(&files, &vec![]);
    assert_eq!(apps[0].name, "Editor");
}

#[test]
fn applications_are_listed_by_name_whatever_its_case() {
    let entries = vec![
        found("c", Some("kate")),
        found("a", Some("Zed")),
        found("b", Some("GIMP")),
        found("d", Some("Élan")),
        found("e", Some("élan 2")),
    ];

    let names: Vec<String> = list_apps(&entries).into_iter().map(|a| a.name).collect();

    assert_eq!(names, vec!["GIMP", "kate", "Zed", "Élan", "élan 2"]);
}

#[test]
fn applications_of_one_name_stay_in_the_order_found() {
    let entries = vec![
        found("second", Some("Same")),
        found("first", Some("same")),
        found("zzz", Some("Another")),
    ];

    let ids: Vec<String> = list_apps(&entries).into_iter().map(|a| a.id).collect();

    assert_eq!(ids, vec!["zzz", "second", "first"]);
}

#[test]
fn an_entry_without_a_name_is_listed_by_its_id() {
    let apps = list_apps(&vec![found("org.example.tool", None)]);
    assert_eq!(apps[0].name, "org.example.tool");
}

#[test]
fn every_field_code_is_stripped() {
    for code in [
        "%f", "%F", "%u", "%U", "%d", "%D", "%n", "%N", "%i", "%c", "%k", "%v", "%m",
    ] {
        assert_eq!(strip_exec_placeholders(&format!("app {code} x")), "app x");
    }
}

#[test]
fn field_codes_are_stripped_inside_words_and_blanks_are_joined() {
    assert_eq!(strip_exec_placeholders("  app\t--open=%u   -v  "), "app --open= -v");
}

#[test]
fn other_percent_signs_stay() {
    assert_eq!(strip_exec_placeholders("date +%Y %%"), "date +%Y %%");
}

#[test]
fn a_code_inside_a_code_is_left_over() {
    // "%f" goes first, and what closes up around it is a code again.
    assert_eq!(strip_exec_placeholders("%%ff"), "%f");
    // "%u" goes after "%f", so what closes up around "%f" goes too.
    assert_eq!(strip_exec_placeholders("%%fu"), "");
}

#[test]
fn stripping_a_second_time_changes_nothing() {
    let once = strip_exec_placeholders("firefox %u  --new-window %F");
    assert_eq!(strip_exec_placeholders(&once), once);
}

#[test]
fn launching_goes_through_the_shell() {
    let run = launch_app("firefox %u", None, false);
    assert_eq!(run.program, "sh");
    assert_eq!(run.args, vec!["-c", "firefox"]);
}

#[test]
fn arguments_are_appended() {
    let run = launch_app("firefox %u", Some("--private-window  %u"), false);
    assert_eq!(run.args, vec!["-c", "firefox --private-window  %u"]);
    let run = launch_app("firefox", Some(""), false);
    assert_eq!(run.args, vec!["-c", "firefox "]);
}

#[test]
fn a_sandbox_launches_on_the_host() {
    let run = launch_app("firefox", Some("-P"), true);
    assert_eq!(run.program, "flatpak-spawn");
    assert_eq!(run.args, vec!["--host", "sh", "-c", "firefox -P"]);
}
