use std::collections::VecDeque;
use yapper::db::{
    check_import_items, default_dict_export_priority, default_dict_export_scope,
    default_dict_file_version, export_file, import_row, tally_merge, DictionaryEntry,
    DictionaryExportFile, DictionaryExportItem, DictionaryImportRoot,
};
use yapper::devices::{device_list, resolve_input_device};
use yapper::gpu::{
    bundle_installed, gpu_dll_count, has_dll_extension, install_target, is_gpu_dll,
    windows_install_report, InstallTarget,
};
use yapper::hud::{
    bottom_center, collapse_layout, keep_center_bottom, layout_size, next_seq, next_stream_seq, snapshot_layout,
    snapshot_phase, widget_enabled, widget_style, widget_visible, HudLayout, HudNotices, HudPhase,
};
use yapper::icon::{icon_bytes, Pixel};
use yapper::navigation::{allow_in_app_navigation, navigation_decision, new_window_opens_externally, UrlParts};
use yapper::node::{
    bind_host_from_setting, node_settings, node_start_check, push_log, server_args, start_token,
    suggested_urls, token_configured, LOG_CAP,
};
use yapper::numbers::{parse_i32, parse_u16, parse_u32, parse_u64, u64_to_decimal};
use yapper::platform::{choose_interpreter, merged_library_path, needs_console_hiding, verbose_dictation_trace};
use yapper::shortcuts::{bindable_shortcuts, has_action, shortcut_command, shortcuts_ready_message, shortcuts_status, ShortcutCommand};
use yapper::text::{contains_str, ends_with_str, non_blank_trimmed};

#[test]
fn gpu_bundle_files() {
    assert!(is_gpu_dll("cudnn_ops64_9.DLL"));
    assert!(is_gpu_dll("CUBLASLt64_12.dll"));
    assert!(!is_gpu_dll("cudnn.txt"));
    assert!(!is_gpu_dll("zlib.dll"));
    let names = vec!["cublas64_12.dll".to_string(), "readme.md".to_string(), "cudnn64_9.dll".to_string()];
    assert_eq!(gpu_dll_count(&names), 2);
    assert!(bundle_installed(true, 2));
    assert!(!bundle_installed(true, 1));
    assert!(!bundle_installed(false, 5));
    assert!(has_dll_extension("a.DLL"));
    assert!(!has_dll_extension(".dll"));
    assert!(!has_dll_extension("a.dllx"));
}

#[test]
fn gpu_installer_choice_and_report() {
    assert!(install_target(true, false).unwrap_err().starts_with("macOS:"));
    assert!(install_target(false, true) == Ok(InstallTarget::Windows));
    assert!(install_target(false, false) == Ok(InstallTarget::Linux));
    assert_eq!(
        windows_install_report("Log.\n", 12, "C:\\bin").unwrap(),
        "Log.\nInstalled 12 DLLs into C:\\bin.\nRestart the inference engine (Home or Settings)."
    );
    assert!(windows_install_report("", 0, "x").unwrap_err().starts_with("Extracted archive contained no DLLs"));
}

#[test]
fn platform_choices() {
    assert!(!verbose_dictation_trace(Some(" OFF "), true));
    assert!(!verbose_dictation_trace(Some("yes"), false));
    assert!(verbose_dictation_trace(Some(" On "), false));
    assert!(verbose_dictation_trace(Some("TRUE"), false));
    assert!(verbose_dictation_trace(Some("  "), true));
    assert!(verbose_dictation_trace(Some("yes"), true));
    assert!(!verbose_dictation_trace(Some("  "), false));
    assert!(verbose_dictation_trace(None, true));
    assert!(!verbose_dictation_trace(None, false));
    assert_eq!(choose_interpreter(Some("  /usr/bin/python3 "), Some("b".into())).as_deref(), Some("/usr/bin/python3"));
    assert_eq!(choose_interpreter(Some(" "), Some("b".into())).as_deref(), Some("b"));
    assert_eq!(choose_interpreter(None, None), None);
    assert_eq!(merged_library_path("/a", ""), "/a");
    assert_eq!(merged_library_path("/a", "/b"), "/a:/b");
    assert!(!needs_console_hiding("C:\\Py\\PythonW.EXE"));
    assert!(needs_console_hiding("C:\\Py\\python.exe"));
}

#[test]
fn text_helpers() {
    assert!(ends_with_str("abc", "bc"));
    assert!(!ends_with_str("c", "bc"));
    assert!(contains_str("hello", "ll"));
    assert!(contains_str("hello", ""));
    assert!(!contains_str("hello", "lo!"));
    assert_eq!(non_blank_trimmed(Some("  mic ")).as_deref(), Some("mic"));
    assert_eq!(non_blank_trimmed(Some("   ")), None);
}

#[test]
fn numbers_round_trip() {
    assert_eq!(u64_to_decimal(0), "0");
    assert_eq!(u64_to_decimal(18446744073709551615), "18446744073709551615");
    assert_eq!(parse_u16("65535"), Some(65535));
    assert_eq!(parse_u16("65536"), None);
    assert_eq!(parse_u16("+8"), Some(8));
    assert_eq!(parse_i32("-2147483648"), Some(i32::MIN));
    assert_eq!(parse_i32("2147483648"), None);
    assert_eq!(parse_u32("4294967295"), Some(u32::MAX));
    assert_eq!(parse_u64("18446744073709551616"), None);
    assert_eq!(parse_u64(""), None);
    assert_eq!(parse_u64("1 2"), None);
}

#[test]
fn node_server_settings() {
    assert_eq!(bind_host_from_setting(Some("loopback".into())), "127.0.0.1");
    assert_eq!(bind_host_from_setting(None), "0.0.0.0");
    let (mode, port, host, token) = node_settings(None, None, None).unwrap();
    assert_eq!((mode.as_str(), port, host.as_str(), token.as_str()), ("lan", 8765, "0.0.0.0", ""));
    assert_eq!(node_settings(None, Some(" 9000 ".into()), None).unwrap().1, 9000);
    assert_eq!(node_settings(None, Some("99999".into()), None).unwrap_err(), "Invalid port (use 1024–65535)");
    assert_eq!(suggested_urls("127.0.0.1", 8765, Some("192.168.1.5")), vec!["ws://127.0.0.1:8765"]);
    assert_eq!(
        suggested_urls("0.0.0.0", 8765, Some("192.168.1.5")),
        vec!["ws://127.0.0.1:8765", "ws://192.168.1.5:8765"]
    );
    assert!(token_configured(" x "));
    assert!(!token_configured("  "));
    assert_eq!(start_token(" pw ").unwrap(), "pw");
    assert!(start_token(" ").unwrap_err().starts_with("Set a server password first"));
    assert_eq!(server_args("0.0.0.0", 8765, "pw"), vec!["--host", "0.0.0.0", "--port", "8765", "--token", "pw"]);
    assert_eq!(node_start_check(true, true, "x").unwrap_err(), "Processing server is already running.");
    assert_eq!(
        node_start_check(false, false, "/a/main.py").unwrap_err(),
        "Yapper Node script not found: /a/main.py. Install or clone the full repo, or set YAPPER_NODE."
    );
    assert!(node_start_check(false, true, "x").is_ok());
}

#[test]
fn node_log_keeps_the_newest_lines() {
    let mut logs = VecDeque::new();
    for i in 0..(LOG_CAP + 2) {
        push_log(&mut logs, format!("l{i}"));
    }
    assert_eq!(logs.len(), LOG_CAP);
    assert_eq!(logs[0], "l2");
    assert_eq!(logs[LOG_CAP - 1], format!("l{}", LOG_CAP + 1));
}

#[test]
fn widget_phase_layout_and_geometry() {
    assert!(snapshot_phase(HudPhase::Hidden, true, 3) == HudPhase::Hidden);
    assert!(snapshot_phase(HudPhase::Idle, true, 3) == HudPhase::Listening);
    assert!(snapshot_phase(HudPhase::Idle, false, 3) == HudPhase::Transcribing);
    assert!(snapshot_phase(HudPhase::Idle, false, 0) == HudPhase::Idle);
    let quiet = HudNotices { preview: false, outcome: false, mic_error: false, mic_notice: true, preview_status: false };
    assert_eq!(snapshot_layout(HudPhase::Listening, &quiet, ""), HudLayout::Preview);
    assert_eq!(snapshot_layout(HudPhase::Transcribing, &quiet, ""), HudLayout::Listening);
    assert_eq!(snapshot_layout(HudPhase::Idle, &quiet, "downloading"), HudLayout::Preview);
    assert_eq!(snapshot_layout(HudPhase::Idle, &quiet, "ready"), HudLayout::Collapsed);
    assert_eq!(collapse_layout(true), HudLayout::Preview);
    assert_eq!(layout_size(false, HudLayout::Collapsed), (180, 40));
    assert_eq!(layout_size(false, HudLayout::Listening), (240, 52));
    assert_eq!(layout_size(false, HudLayout::Preview), (320, 104));
    assert_eq!(layout_size(true, HudLayout::Preview), (300, 64));
    // Growing from idle to preview keeps the bottom edge and the centre.
    let (x, y) = keep_center_bottom(100, 500, 180, 40, 320, 104);
    assert_eq!((x, y), (30, 436));
    assert_eq!(y + 104, 500 + 40);
    assert_eq!(bottom_center(0, 0, 1920, 1080, 180, 40), (870, 1004));
    // A window wider than the work area: the half difference is rounded toward zero.
    assert_eq!(bottom_center(0, 0, 1, 100, 4, 10), (-1, 54));
    assert_eq!(bottom_center(10, 0, 3, 100, 8, 10), (8, 54));
    assert!(widget_enabled(None));
    assert!(!widget_enabled(Some("false")));
    assert_eq!(widget_style(Some("controls")), "controls");
    assert_eq!(widget_style(Some("x")), "classic");
    assert!(widget_visible(true, true));
    assert!(!widget_visible(true, false));
    let mut seq = u64::MAX;
    assert_eq!(next_seq(&mut seq), u64::MAX);
    assert_eq!(seq, 0);
}

fn url(scheme: &str, host: Option<&str>, path: &str, lo: Option<bool>) -> UrlParts {
    UrlParts { scheme: scheme.into(), host: host.map(|h| h.into()), path: path.into(), host_is_loopback_ip: lo }
}

#[test]
fn navigation_rules() {
    assert!(allow_in_app_navigation(&url("tauri", Some("localhost"), "/", None)));
    assert!(allow_in_app_navigation(&url("about", None, "blank", None)));
    assert!(allow_in_app_navigation(&url("http", Some("LocalHost"), "/", None)));
    assert!(allow_in_app_navigation(&url("https", Some("127.0.0.1"), "/", Some(true))));
    assert!(!allow_in_app_navigation(&url("https", Some("example.com"), "/", None)));
    assert_eq!(navigation_decision(&url("https", Some("example.com"), "/", None)), (false, true));
    assert_eq!(navigation_decision(&url("file", None, "/x", None)), (true, false));
    assert!(new_window_opens_externally(&url("mailto", None, "a@b", None)));
    assert!(!new_window_opens_externally(&url("http", Some("localhost"), "/", None)));
}

#[test]
fn shortcut_events() {
    assert_eq!(shortcut_command("push_to_talk", true, false, false), ShortcutCommand::StartCapture);
    assert_eq!(shortcut_command("push_to_talk", false, true, false), ShortcutCommand::StopAndPaste);
    assert_eq!(shortcut_command("toggle_open_mic", true, false, true), ShortcutCommand::StopAndPaste);
    assert_eq!(shortcut_command("toggle_open_mic", true, false, false), ShortcutCommand::StartCapture);
    assert_eq!(shortcut_command("toggle_open_mic", false, true, false), ShortcutCommand::Nothing);
    assert_eq!(shortcut_command("stop_dictation", true, false, false), ShortcutCommand::Nothing);
    assert_eq!(shortcut_command("stop_dictation", true, true, false), ShortcutCommand::StopAndPaste);
    assert_eq!(shortcuts_ready_message(false, false), "Shortcuts registered.");
    assert!(has_action(&["a".to_string(), "push_to_talk".to_string()], "push_to_talk"));
    assert_eq!(bindable_shortcuts(&["Ctrl+Space".to_string(), "  ".to_string(), "F9".to_string()]), vec![0, 2]);
}

#[test]
fn icon_pixels_become_bgra_with_a_mask() {
    let mut p = Pixel { r: 1, g: 2, b: 3, a: 4 };
    p.to_bgra();
    assert_eq!((p.r, p.g, p.b, p.a), (3, 2, 1, 4));
    let (bgra, mask) = icon_bytes(&[10, 20, 30, 255, 40, 50, 60, 7], 2, 1).unwrap();
    assert_eq!(bgra, vec![30, 20, 10, 255, 60, 50, 40, 7]);
    assert_eq!(mask, vec![0, 8]);
    assert!(icon_bytes(&[1, 2, 3], 1, 1).is_none());
    assert!(icon_bytes(&[1, 2, 3, 4], 2, 1).is_none());
    assert!(icon_bytes(&[], 0, 0).is_none());
}

fn item(term: &str, replacement: &str, scope: &str) -> DictionaryExportItem {
    DictionaryExportItem { term: term.into(), replacement: replacement.into(), priority: 3, scope: scope.into() }
}

#[test]
fn dictionary_files() {
    assert_eq!(default_dict_export_priority(), 10);
    assert_eq!(default_dict_export_scope(), "word");
    assert_eq!(default_dict_file_version(), 1);
    let file = DictionaryExportFile { format: String::new(), version: 1, dictionary: vec![item("a", "", "")] };
    assert_eq!(DictionaryImportRoot::File(file).into_items().len(), 1);
    assert_eq!(DictionaryImportRoot::List(vec![item("a", "", ""), item("b", "", "")]).into_items().len(), 2);
    let row = import_row(&item("  Yapper ", "  ", " ")).unwrap();
    assert_eq!((row.term.as_str(), row.replacement.as_str(), row.scope.as_str(), row.priority), ("Yapper", "Yapper", "word", 3));
    assert!(import_row(&item("  ", "x", "word")).is_none());
    assert_eq!(
        check_import_items(&[item(" ", "", ""), item("", "x", "")]).unwrap_err(),
        "File contains no dictionary or correction entries."
    );
    assert_eq!(check_import_items(&[item(" ", "", ""), item("ok", "", "")]), Ok(1));
    assert_eq!(tally_merge((1, 2), Some(5)), (1, 3));
    assert_eq!(tally_merge((1, 2), None), (2, 2));
    let out = export_file(vec![DictionaryEntry { id: Some(4), term: "t".into(), replacement: "r".into(), priority: 9, scope: "word".into() }]);
    assert_eq!((out.format.as_str(), out.version), ("yapper-dictionary", 2));
    assert_eq!(out.dictionary[0].term, "t");
    assert_eq!(out.dictionary[0].priority, 9);
}

#[test]
fn microphones() {
    let list = device_list(vec!["USB Mic".to_string()]);
    assert_eq!(list.len(), 2);
    assert_eq!((list[0].id.as_str(), list[0].label.as_str()), ("", "System default"));
    assert_eq!((list[1].id.as_str(), list[1].label.as_str()), ("USB Mic", "USB Mic"));
    let names = vec!["A".to_string(), "USB Mic".to_string()];
    assert_eq!(resolve_input_device(&names, None), Ok(None));
    assert_eq!(resolve_input_device(&names, Some("  ")), Ok(None));
    assert_eq!(resolve_input_device(&names, Some(" USB Mic ")), Ok(Some(1)));
    assert_eq!(resolve_input_device(&names, Some("Gone")).unwrap_err(), "Microphone not found: Gone");
}

#[test]
fn node_status_reports_settings_and_urls() {
    let s = yapper::node::node_status(
        true,
        "lan".into(),
        "0.0.0.0".into(),
        9000,
        "  ",
        Some("10.0.0.2"),
        vec!["l1".into()],
        true,
        "/srv/main.py".into(),
    );
    assert!(s.running);
    assert!(!s.token_configured);
    assert_eq!(s.suggested_client_urls, vec!["ws://127.0.0.1:9000", "ws://10.0.0.2:9000"]);
    assert_eq!(s.log_tail, vec!["l1"]);
    assert_eq!(s.script_path, "/srv/main.py");
}

#[test]
fn stream_sessions_are_never_zero() {
    let mut seq = 0u64;
    assert_eq!(next_stream_seq(&mut seq), 1);
    assert_eq!(seq, 2);
    assert_eq!(next_stream_seq(&mut seq), 2);
    let mut top = u64::MAX;
    assert_eq!(next_stream_seq(&mut top), u64::MAX);
    assert_eq!(top, 0);
    assert_eq!(next_stream_seq(&mut top), 1);
}

#[test]
fn shortcut_status_lines() {
    assert_eq!(shortcuts_status(false, true, true), "No keybinds found \u{2014} open Settings and save keybinds.");
    assert_eq!(
        shortcuts_status(true, true, true),
        "Shortcuts ready \u{2014} hold PTT or use toggle open mic (engine must be running)."
    );
    assert_eq!(shortcuts_status(true, false, false), "Shortcuts registered.");
}
