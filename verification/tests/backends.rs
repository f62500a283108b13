//! The desktops' window tools.

use focus_launcher::backend::gnome::{
    parse_window_list, GnomeWindow, GnomeWindowCallsBackend, ShellFailure,
};
use focus_launcher::backend::kdotool::{
    check_status, interpret_search_output, parse_search_output, parse_single_id, KdotoolBackend,
};
use focus_launcher::backend::x11::{
    matches_class_part, normalize_active_window, parse_active_window, parse_wmctrl_list, X11Backend,
};
use focus_launcher::backend::{
    select_backend, BackendError, BackendKind, SpawnFailure, ToolOutput, WindowId,
};
use serde_json::Value;

const SAMPLE: &str = r#"[
    {"id": 1, "wm_class": "firefox", "focus": false},
    {"id": 2, "wm_class": "org.kde.kate", "focus": true},
    {"id": 3, "wm_class": "Firefox", "focus": false}
]"#;

fn window(value: &Value) -> GnomeWindow {
    GnomeWindow {
        id: value["id"].as_u64().unwrap() as u32,
        wm_class: value["wm_class"].as_str().unwrap().to_string(),
        focus: value["focus"].as_bool().unwrap_or(false),
    }
}

fn parsed(json: &str) -> Result<Vec<GnomeWindow>, String> {
    let value: Value = serde_json::from_str(json).map_err(|e| e.to_string())?;
    Ok(value.as_array().unwrap().iter().map(window).collect())
}

fn printed(success: bool, stdout: &str, stderr: &str) -> Result<ToolOutput, SpawnFailure> {
    Ok(ToolOutput {
        success,
        status: if success { "exit status: 0" } else { "exit status: 1" }.to_string(),
        stdout: stdout.as_bytes().to_vec(),
        stderr: stderr.as_bytes().to_vec(),
    })
}

fn missing() -> Result<ToolOutput, SpawnFailure> {
    Err(SpawnFailure {
        not_found: true,
        message: "No such file or directory (os error 2)".to_string(),
    })
}

fn forbidden() -> Result<ToolOutput, SpawnFailure> {
    Err(SpawnFailure {
        not_found: false,
        message: "Permission denied (os error 13)".to_string(),
    })
}

fn id(s: &str) -> WindowId {
    s.to_string()
}

// GNOME Shell

#[test]
fn filters_by_class_case_insensitively() {
    let matched = parse_window_list(parsed(SAMPLE), "firefox").unwrap();
    assert_eq!(matched.len(), 2);
    assert_eq!(matched[0].id, 1);
    assert_eq!(matched[1].id, 3);
}

#[test]
fn gnome_no_match_returns_empty() {
    let matched = parse_window_list(parsed(SAMPLE), "does-not-exist").unwrap();
    assert!(matched.is_empty());
}

#[test]
fn bad_json_is_a_command_failed_error() {
    let result = parse_window_list(parsed("not json"), "firefox");
    assert!(matches!(result, Err(BackendError::CommandFailed(_))));
}

#[test]
fn gnome_errors_say_why() {
    let bad = parse_window_list(Err("EOF".to_string()), "firefox").unwrap_err();
    assert_eq!(bad.message(), "backend command failed: bad Window Calls JSON: EOF");
    let gnome = GnomeWindowCallsBackend;
    let message = |failure| gnome.finish(Err(failure)).unwrap_err().message();
    assert_eq!(
        message(ShellFailure::NoSession("refused".to_string())),
        "the window backend for this desktop is not available: no session D-Bus: refused"
    );
    assert_eq!(
        message(ShellFailure::Refused("no such object".to_string())),
        "the window backend for this desktop is not available: Window Calls GNOME Shell \
         extension not available: no such object"
    );
    assert_eq!(
        message(ShellFailure::Interrupted("cancelled".to_string())),
        "backend command failed: cancelled"
    );
    assert_eq!(
        message(ShellFailure::BadReply("not a string".to_string())),
        "backend command failed: not a string"
    );
    assert!(gnome.finish(Ok(())).is_ok());
}

#[test]
fn gnome_lists_ids_in_decimal_and_finds_the_focus() {
    let gnome = GnomeWindowCallsBackend;
    assert_eq!(
        gnome.list_windows("FIREFOX", Ok(parsed(SAMPLE))).unwrap(),
        vec![id("1"), id("3")]
    );
    assert_eq!(gnome.list_windows("", Ok(parsed(SAMPLE))).unwrap().len(), 3);
    assert_eq!(gnome.active_window(Ok(parsed(SAMPLE))).unwrap(), Some(id("2")));
    assert_eq!(gnome.active_window(Ok(Ok(vec![]))).unwrap(), None);
    assert!(matches!(
        gnome.active_window(Ok(parsed("{"))),
        Err(BackendError::CommandFailed(_))
    ));
    assert!(matches!(
        gnome.list_windows("x", Err(ShellFailure::NoSession(String::new()))),
        Err(BackendError::Unavailable(_))
    ));
}

#[test]
fn gnome_matches_letters_beyond_ascii_in_any_case() {
    let all = vec![GnomeWindow {
        id: 7,
        wm_class: "ÉDITEUR".to_string(),
        focus: false,
    }];
    let matched = parse_window_list(Ok(all), "éditeur").unwrap();
    assert_eq!(matched.len(), 1);
}

#[test]
fn gnome_calls_name_the_window_by_its_number() {
    let gnome = GnomeWindowCallsBackend;
    let call = gnome.activate_call(&id("4294967295")).unwrap();
    assert_eq!(call.destination, "org.gnome.Shell");
    assert_eq!(call.path, "/org/gnome/Shell/Extensions/Windows");
    assert_eq!(call.interface, "org.gnome.Shell.Extensions.Windows");
    assert_eq!(call.method, "Activate");
    assert_eq!(call.argument, Some(u32::MAX));
    let call = gnome.minimize_call(&id("12")).unwrap();
    assert_eq!(call.method, "Minimize");
    assert_eq!(call.argument, Some(12));
    let call = gnome.list_call();
    assert_eq!(call.method, "List");
    assert_eq!(call.argument, None);
}

#[test]
fn gnome_refuses_ids_that_are_no_numbers() {
    let gnome = GnomeWindowCallsBackend;
    for bad in ["", "0x1", "-1", "+", "4294967296", " 1"] {
        let error = gnome.minimize_call(&id(bad)).unwrap_err();
        assert_eq!(
            error.message(),
            format!("backend command failed: not a Window Calls id: {bad}")
        );
    }
    assert_eq!(gnome.activate_call(&id("+7")).unwrap().argument, Some(7));
    assert_eq!(gnome.activate_call(&id("007")).unwrap().argument, Some(7));
}

// KDE Plasma

#[test]
fn parses_multiple_window_ids() {
    let stdout = "{aaaaaaaa-0000-0000-0000-000000000001}\n{bbbbbbbb-0000-0000-0000-000000000002}\n";
    assert_eq!(
        parse_search_output(stdout),
        vec![
            "{aaaaaaaa-0000-0000-0000-000000000001}".to_string(),
            "{bbbbbbbb-0000-0000-0000-000000000002}".to_string(),
        ]
    );
}

#[test]
fn parses_empty_output_as_no_windows() {
    assert_eq!(parse_search_output(""), Vec::<WindowId>::new());
    assert_eq!(parse_search_output("\n\n"), Vec::<WindowId>::new());
}

#[test]
fn parses_single_active_window_id() {
    assert_eq!(
        parse_single_id("{aaaaaaaa-0000-0000-0000-000000000001}\n"),
        Some("{aaaaaaaa-0000-0000-0000-000000000001}".to_string())
    );
}

#[test]
fn parses_no_active_window() {
    assert_eq!(parse_single_id(""), None);
    assert_eq!(parse_single_id("\n"), None);
}

#[test]
fn search_success_with_no_matches_is_not_an_error() {
    let result = interpret_search_output("", true, "");
    assert_eq!(result.unwrap(), Vec::<WindowId>::new());
}

#[test]
fn search_non_zero_exit_with_empty_stdout_and_stderr_is_treated_as_no_match() {
    let result = interpret_search_output("", false, "");
    assert_eq!(result.unwrap(), Vec::<WindowId>::new());
}

#[test]
fn search_non_zero_exit_with_stderr_and_empty_stdout_is_a_command_failure() {
    let result = interpret_search_output("", false, "kdotool: no KWin scripting interface");
    assert!(matches!(result, Err(BackendError::CommandFailed(_))));
}

#[test]
fn search_non_zero_exit_with_matches_on_stdout_still_returns_them() {
    let result = interpret_search_output("{aaaa}\n", false, "some warning");
    assert_eq!(result.unwrap(), vec!["{aaaa}".to_string()]);
}

#[test]
fn check_status_ok_on_success() {
    assert!(check_status(true, "exit status: 0", "", "true").is_ok());
}

#[test]
fn check_status_reports_command_failed_with_stderr_on_non_zero_exit() {
    match check_status(
        false,
        "exit status: 1",
        "window not found\n",
        "kdotool windowactivate",
    ) {
        Err(BackendError::CommandFailed(msg)) => {
            assert!(msg.contains("window not found"), "message was: {msg}");
            assert_eq!(
                msg,
                "kdotool windowactivate exited with exit status: 1: window not found"
            );
        }
        other => panic!("expected CommandFailed, got {other:?}"),
    }
}

#[test]
fn check_status_without_a_message_gives_the_status_alone() {
    let error = check_status(false, "exit status: 2", " \n", "kdotool windowclose").unwrap_err();
    assert_eq!(
        error.message(),
        "backend command failed: kdotool windowclose exited with exit status: 2"
    );
}

#[test]
fn search_output_keeps_the_order_and_drops_blanks() {
    assert_eq!(
        parse_search_output("  {b}\r\n\t\n{a} \n{c}"),
        vec![id("{b}"), id("{a}"), id("{c}")]
    );
}

#[test]
fn a_search_and_the_focus_name_a_window_alike() {
    for line in ["{a}", " {a} ", "", "  "] {
        let listed = parse_search_output(line);
        let active = parse_single_id(&format!("{line}\n"));
        assert_eq!(listed.first(), active.as_ref());
    }
}

#[test]
fn kdotool_is_run_as_it_expects() {
    let kdotool = KdotoolBackend;
    let run = kdotool.list_windows_command("firefox");
    assert_eq!(run.program, "kdotool");
    assert_eq!(run.args, vec!["search", "--class", "firefox"]);
    assert_eq!(kdotool.activate_command(&id("{a}")).args, vec!["windowactivate", "{a}"]);
    assert_eq!(kdotool.minimize_command(&id("{a}")).args, vec!["windowminimize", "{a}"]);
    assert_eq!(kdotool.close_command(&id("{a}")).args, vec!["windowclose", "{a}"]);
    assert_eq!(kdotool.active_window_command().args, vec!["getactivewindow"]);
}

#[test]
fn kdotool_answers_are_read() {
    let kdotool = KdotoolBackend;
    assert_eq!(
        kdotool.list_windows(printed(true, "{a}\n{b}\n", "")).unwrap(),
        vec![id("{a}"), id("{b}")]
    );
    assert_eq!(
        kdotool
            .list_windows(printed(false, "", " no KWin \n"))
            .unwrap_err()
            .message(),
        "backend command failed: kdotool search failed: no KWin"
    );
    assert_eq!(kdotool.active_window(printed(false, "{a}\n", "oops")).unwrap(), Some(id("{a}")));
    assert_eq!(kdotool.active_window(printed(true, "\n", "")).unwrap(), None);
    assert!(kdotool.activate(printed(true, "", "")).is_ok());
    assert_eq!(
        kdotool.minimize(printed(false, "", "gone")).unwrap_err().message(),
        "backend command failed: kdotool windowminimize exited with exit status: 1: gone"
    );
    assert_eq!(
        kdotool.close(printed(false, "", "")).unwrap_err().message(),
        "backend command failed: kdotool windowclose exited with exit status: 1"
    );
    assert_eq!(
        kdotool.activate(printed(false, "", "gone")).unwrap_err().message(),
        "backend command failed: kdotool windowactivate exited with exit status: 1: gone"
    );
}

#[test]
fn kdotool_that_cannot_run_is_told_from_one_that_is_missing() {
    let kdotool = KdotoolBackend;
    assert_eq!(
        kdotool.list_windows(missing()).unwrap_err().message(),
        "the window backend for this desktop is not available: kdotool is not installed"
    );
    assert_eq!(
        kdotool.active_window(forbidden()).unwrap_err().message(),
        "backend command failed: Permission denied (os error 13)"
    );
}

#[test]
fn output_that_is_utf8_is_read_as_it_stands() {
    let kdotool = KdotoolBackend;
    assert_eq!(kdotool.active_window(printed(true, "a", "")).unwrap(), Some(id("a")));
    assert_eq!(
        kdotool.list_windows(printed(false, "", "größer: 日本\n")).unwrap_err().message(),
        "backend command failed: kdotool search failed: größer: 日本"
    );
    let x11 = X11Backend;
    assert_eq!(
        x11.list_windows("ÉDIT", printed(true, "0x1 0 x.Éditeur h T\n0x2 0 y.Plain h T\n", ""))
            .unwrap(),
        vec![id("0x1")]
    );
}

#[test]
fn output_that_is_not_utf8_is_read_with_replacements() {
    let kdotool = KdotoolBackend;
    let output = ToolOutput {
        success: true,
        status: "exit status: 0".to_string(),
        stdout: vec![b'a', 0xFF, b'\n'],
        stderr: vec![],
    };
    assert_eq!(kdotool.list_windows(Ok(output)).unwrap(), vec![id("a\u{FFFD}")]);
}

// X11

#[test]
fn parses_matching_window_by_instance_or_class() {
    let stdout = "0x03e00007  0 firefox.Firefox        myhost Mozilla Firefox\n0x01c00003  0 kate.kate myhost Kate\n";
    assert_eq!(
        parse_wmctrl_list(stdout, "firefox"),
        vec!["0x03e00007".to_string()]
    );
}

#[test]
fn x11_no_match_returns_empty() {
    let stdout = "0x01c00003  0 kate.kate myhost Kate\n";
    assert!(parse_wmctrl_list(stdout, "firefox").is_empty());
}

#[test]
fn parses_active_window_normalizing_decimal_to_hex() {
    assert_eq!(parse_active_window("65011719\n").unwrap(), "65011719");
}

#[test]
fn no_active_window_when_zero_or_empty() {
    assert_eq!(parse_active_window("0x0\n"), None);
    assert_eq!(parse_active_window(""), None);
    assert_eq!(parse_active_window("\n"), None);
}

#[test]
fn both_x11_tools_name_a_window_alike() {
    assert_eq!(normalize_active_window("65011719\n").unwrap(), "0x03e00007");
    assert_eq!(normalize_active_window("0\n").unwrap(), "0x00000000");
    assert_eq!(
        normalize_active_window("18446744073709551615\n").unwrap(),
        "0xffffffffffffffff"
    );
}

#[test]
fn an_active_window_that_is_no_number_stays() {
    assert_eq!(
        normalize_active_window("18446744073709551616\n").unwrap(),
        "18446744073709551616"
    );
    assert_eq!(normalize_active_window(" 0x12 \n").unwrap(), "0x12");
    assert_eq!(normalize_active_window("0x0"), None);
}

#[test]
fn x11_matches_parts_of_either_half_in_any_case() {
    let stdout = "0x1  0 Navigator.firefox-esr host A\n\
                  0x2 -1 GIMP-2.10.Gimp host B\n\
                  0x3  0\n\
                  \n\
                  0x4  1 navigator.FIREFOX host C\n";
    assert_eq!(parse_wmctrl_list(stdout, "FireFox"), vec![id("0x1"), id("0x4")]);
    assert_eq!(parse_wmctrl_list(stdout, "navi"), vec![id("0x1"), id("0x4")]);
    assert_eq!(parse_wmctrl_list(stdout, "gimp"), vec![id("0x2")]);
    assert_eq!(
        parse_wmctrl_list(stdout, ""),
        vec![id("0x1"), id("0x2"), id("0x4")]
    );
}

#[test]
fn a_window_is_found_by_a_half_with_dots() {
    let stdout = "0x01c00003  0 kate.org.kde.kate myhost Kate\n";
    assert_eq!(parse_wmctrl_list(stdout, "org.kde.kate"), vec![id("0x01c00003")]);
    assert_eq!(parse_wmctrl_list(stdout, "Org.KDE"), vec![id("0x01c00003")]);
    assert_eq!(parse_wmctrl_list(stdout, "kate"), vec![id("0x01c00003")]);
    assert!(parse_wmctrl_list(stdout, "org.gnome.kate").is_empty());
    assert!(parse_wmctrl_list(stdout, "kate.org.kde.kate").is_empty());
    let stdout = "0x1 0 org.kde.kate.org.kde.kate host Kate\n0x2 0 plain host P\n";
    assert_eq!(parse_wmctrl_list(stdout, "org.kde.kate"), vec![id("0x1")]);
    assert_eq!(parse_wmctrl_list(stdout, "plain"), vec![id("0x2")]);
}

#[test]
fn a_class_without_a_dot_matches_wherever_it_stands() {
    for (wm_class, class) in [
        ("navigator.firefox", "fire"),
        ("a.b.c", "b"),
        ("a.b.c", "d"),
        ("kate", "at"),
        (".", ""),
        ("", ""),
    ] {
        assert_eq!(matches_class_part(wm_class, class), wm_class.contains(class));
    }
}

#[test]
fn x11_tools_are_run_as_they_expect() {
    let x11 = X11Backend;
    let run = x11.list_windows_command();
    assert_eq!(run.program, "wmctrl");
    assert_eq!(run.args, vec!["-l", "-x"]);
    let run = x11.activate_command(&id("0x1"));
    assert_eq!(run.program, "wmctrl");
    assert_eq!(run.args, vec!["-i", "-a", "0x1"]);
    let run = x11.minimize_command(&id("0x1"));
    assert_eq!(run.program, "xdotool");
    assert_eq!(run.args, vec!["windowminimize", "0x1"]);
    let run = x11.active_window_command();
    assert_eq!(run.program, "xdotool");
    assert_eq!(run.args, vec!["getactivewindow"]);
}

#[test]
fn x11_answers_are_read_whatever_the_exit_status() {
    let x11 = X11Backend;
    assert_eq!(
        x11.list_windows("kate", printed(false, "0x1 0 kate.kate host Kate\n", "warning"))
            .unwrap(),
        vec![id("0x1")]
    );
    assert!(x11.activate(printed(false, "", "no such window")).is_ok());
    assert!(x11.minimize(printed(false, "", "no such window")).is_ok());
    assert_eq!(
        x11.active_window(printed(true, "65011719\n", "")).unwrap(),
        Some(id("0x03e00007"))
    );
}

#[test]
fn missing_x11_tools_are_named() {
    let x11 = X11Backend;
    let of = |e: BackendError| e.message();
    let wmctrl = "the window backend for this desktop is not available: wmctrl is not installed";
    let xdotool = "the window backend for this desktop is not available: xdotool is not installed";
    assert_eq!(of(x11.list_windows("kate", missing()).unwrap_err()), wmctrl);
    assert_eq!(of(x11.activate(missing()).unwrap_err()), wmctrl);
    assert_eq!(of(x11.minimize(missing()).unwrap_err()), xdotool);
    assert_eq!(of(x11.active_window(missing()).unwrap_err()), xdotool);
    assert_eq!(
        of(x11.activate(forbidden()).unwrap_err()),
        "backend command failed: Permission denied (os error 13)"
    );
}

// Which tool serves a session

#[test]
fn each_supported_desktop_has_its_tool() {
    assert_eq!(
        select_backend(Some("KDE"), Some("wayland"), None),
        Some(BackendKind::Kdotool)
    );
    assert_eq!(
        select_backend(Some("KDE"), Some("x11"), Some(":0")),
        Some(BackendKind::Kdotool)
    );
    assert_eq!(
        select_backend(Some("ubuntu:GNOME"), Some("wayland"), Some(":0")),
        Some(BackendKind::GnomeWindowCalls)
    );
    assert_eq!(
        select_backend(Some("XFCE"), Some("x11"), Some(":0")),
        Some(BackendKind::X11)
    );
    assert_eq!(select_backend(None, None, Some(":0")), Some(BackendKind::X11));
}

#[test]
fn other_sessions_have_no_tool() {
    assert_eq!(select_backend(Some("sway"), Some("wayland"), Some(":0")), None);
    assert_eq!(select_backend(None, None, None), None);
    assert_eq!(select_backend(None, Some("tty"), Some("")), None);
    assert_eq!(select_backend(Some("KDE5:GNOMEish"), Some("wayland"), None), None);
}
