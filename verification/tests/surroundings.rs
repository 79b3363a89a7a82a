use fntype::cli::{check_lines, check_report, cli_mode, import_report, result_path, CliMode};
use fntype::config::{
    config_dir, config_dir_in, dictionary_path, join, lock_path, log_dir, log_dir_in,
    settings_path, Settings,
};
use fntype::events::UiEvent;
use fntype::fn_monitor::{fn_key_physically_down, FnMonitor, SECONDARY_FN_MASK};
use fntype::inject::{request_permissions, PermissionRequest, Permissions};
use fntype::keychain::{
    after_keychain, import_from_clipboard, import_from_file, load, load_file, private_key_path,
    save, KeyError, KeyLookup, SaveStep, ACCOUNT, PRIVATE_FILE_MODE, SERVICE,
};
use fntype::menu::{menu_action, MenuAction};
use fntype::overlay::{is_light, palette, Mode, OverlayState, WindowAppearance};

// ---- Overlay ----

#[test]
fn light_appearances_use_the_light_palette() {
    for appearance in [WindowAppearance::Light, WindowAppearance::VibrantLight] {
        assert!(is_light(appearance));
        let colors = palette(appearance);
        assert_eq!(colors.background, 0xF4F5F7EF);
        assert_eq!(colors.bar, 0x1A1B1DD9);
    }
}

#[test]
fn dark_appearances_keep_the_existing_palette() {
    for appearance in [WindowAppearance::Dark, WindowAppearance::VibrantDark] {
        assert!(!is_light(appearance));
        let colors = palette(appearance);
        assert_eq!(colors.background, 0x0A0B0DEF);
        assert_eq!(colors.bar, 0xFFFFFFD9);
    }
}

#[test]
fn borders_contrast_with_the_background() {
    assert_eq!(palette(WindowAppearance::Light).border, 0x00000018);
    assert_eq!(palette(WindowAppearance::Dark).border, 0xFFFFFF18);
}

#[test]
fn a_new_overlay_listens() {
    let state = OverlayState::new();
    assert_eq!(state.mode, Mode::Listening);
    assert_eq!(state.message, "Listening");
    assert_eq!(state.preview, "");
    assert_eq!(state.target_name, "Current app");
    assert_eq!(state.level, 0);
}

#[test]
fn the_waveform_moves_only_while_capturing() {
    assert!(Mode::Listening.responds_to_audio());
    assert!(Mode::Connecting.responds_to_audio());
    for mode in [Mode::Finalizing, Mode::Success, Mode::Warning, Mode::Error] {
        assert!(!mode.responds_to_audio());
    }
}

// ---- Settings and paths ----

#[test]
fn default_settings_paste_only() {
    for settings in [Settings::default(), Settings::load(None)] {
        assert_eq!(settings.language, "en");
        assert!(!settings.auto_submit);
        assert!(!settings.allow_terminal_submit);
    }
    let stored = Settings { language: "de".into(), auto_submit: true, allow_terminal_submit: true };
    let settings = Settings::load(Some(stored));
    assert_eq!(settings.language, "de");
    assert!(settings.auto_submit && settings.allow_terminal_submit);
}

#[test]
fn paths_are_joined_as_the_system_does() {
    assert_eq!(join(b"/a".to_vec(), "b"), b"/a/b".to_vec());
    assert_eq!(join(b"/a/".to_vec(), "b"), b"/a/b".to_vec());
    assert_eq!(join(Vec::new(), "b"), b"b".to_vec());
    assert_eq!(config_dir_in(Some(b"/base".to_vec())), b"/base/FnType".to_vec());
    assert_eq!(config_dir_in(None), b"/tmp/FnType".to_vec());
    assert_eq!(log_dir_in(Some(b"/home/u".to_vec())), b"/home/u/Library/Logs/FnType".to_vec());
    assert_eq!(log_dir_in(None), b"/tmp/Library/Logs/FnType".to_vec());
}

#[test]
fn files_are_in_the_directory_of_the_app() {
    let base = dirs::config_dir().unwrap_or_else(|| "/tmp".into()).join("FnType");
    let bytes = |path: std::path::PathBuf| path.into_os_string().into_encoded_bytes();
    assert_eq!(config_dir(), bytes(base.clone()));
    assert_eq!(settings_path(), bytes(base.join("config.json")));
    assert_eq!(dictionary_path(), bytes(base.join("dictionary.txt")));
    assert_eq!(lock_path(), bytes(base.join("fntype.lock")));
    assert_eq!(private_key_path(), bytes(base.join(".xai-key")));
    let home = dirs::home_dir().unwrap_or_else(|| "/tmp".into());
    assert_eq!(log_dir(), bytes(home.join("Library/Logs/FnType")));
}

// ---- The key ----

fn key() -> String {
    "k".repeat(40)
}

#[test]
fn a_complete_key_is_trimmed_and_stored() {
    assert!(matches!(save(&format!("  {}\n", key())), Ok(k) if k == key()));
    assert!(matches!(
        save(&"k".repeat(39)),
        Err(e) if e.message() == "that does not look like a complete xAI API key"
    ));
    assert!(save(&format!("{}{}", " ".repeat(40), "k")).is_err());
    assert!(save(&"ж".repeat(20)).is_ok());
}

#[test]
fn a_stored_key_is_read_back() {
    let stored = save(&format!("\t{} ", key())).ok().unwrap();
    assert!(matches!(
        load(Some(stored.clone().into_bytes())),
        KeyLookup::Done(Some(k)) if k == stored
    ));
    assert_eq!(load_file(Some(stored.clone())), Some(stored));
}

#[test]
fn an_unusable_keychain_entry_sends_the_search_on_only_if_it_is_no_text() {
    assert!(matches!(load(None), KeyLookup::ReadFile));
    assert!(matches!(load(Some(vec![0xff, 0xfe])), KeyLookup::ReadFile));
    assert!(matches!(load(Some(b"short".to_vec())), KeyLookup::Done(None)));
    assert_eq!(load_file(None), None);
    assert_eq!(load_file(Some("short".into())), None);
    assert_eq!(load_file(Some(format!("{}\n", key()))), Some(key()));
}

#[test]
fn the_private_file_is_written_only_without_a_keychain() {
    assert_eq!(after_keychain(true), SaveStep::RemoveFile);
    assert_eq!(after_keychain(false), SaveStep::WriteFile);
    assert_eq!(PRIVATE_FILE_MODE, 0o600);
    assert_eq!((SERVICE, ACCOUNT), ("com.curiosityos.fntype", "xai-api-key"));
}

#[test]
fn an_import_says_why_it_failed() {
    assert!(matches!(import_from_clipboard(Some(format!(" {}", key()))), Ok(k) if k == key()));
    assert!(matches!(import_from_clipboard(Some("x".into())), Err(KeyError::Incomplete)));
    assert!(matches!(
        import_from_clipboard(None),
        Err(e) if e.message() == "the clipboard does not contain text"
    ));
    assert!(matches!(import_from_file(Ok(key())), Ok(k) if k == key()));
    assert!(matches!(import_from_file(Ok("x".into())), Err(KeyError::Incomplete)));
    assert!(matches!(
        import_from_file(Err("gone".into())),
        Err(e) if e.message() == "could not read key file: gone"
    ));
}

// ---- Permissions and menu ----

#[test]
fn only_missing_permissions_are_requested() {
    for permission in [PermissionRequest::InputMonitoring, PermissionRequest::PostEvents] {
        assert!(request_permissions(permission, false));
        assert!(!request_permissions(permission, true));
    }
    assert!(request_permissions(PermissionRequest::Accessibility, false));
    assert!(request_permissions(PermissionRequest::Accessibility, true));
}

#[test]
fn menu_items_lead_to_their_actions() {
    assert!(matches!(
        menu_action("reconnect", false, false),
        MenuAction::Send(UiEvent::MenuReconnect)
    ));
    assert!(matches!(
        menu_action("import", false, false),
        MenuAction::Send(UiEvent::MenuImportKey)
    ));
    assert!(matches!(menu_action("dict", false, false), MenuAction::EditDictionary));
    assert!(matches!(
        menu_action("auto_submit", true, false),
        MenuAction::Send(UiEvent::MenuAutoSubmit(true))
    ));
    assert!(matches!(
        menu_action("terminal_submit", true, false),
        MenuAction::Send(UiEvent::MenuTerminalSubmit(false))
    ));
    assert!(matches!(menu_action("perms", false, false), MenuAction::RequestPermissions));
    assert!(matches!(menu_action("quit", false, false), MenuAction::Quit));
    assert!(matches!(menu_action("status", false, false), MenuAction::Ignore));
}

// ---- The Fn key ----

#[test]
fn the_fn_bit_is_read() {
    assert!(fn_key_physically_down(SECONDARY_FN_MASK));
    assert!(fn_key_physically_down(u64::MAX));
    assert!(!fn_key_physically_down(!SECONDARY_FN_MASK));
    assert!(!fn_key_physically_down(0));
}

#[test]
fn only_changes_of_the_fn_key_are_events() {
    let mut monitor = FnMonitor::new();
    assert!(monitor.flags_changed(false).is_none());
    assert!(monitor.key_down().is_none());
    assert!(matches!(monitor.flags_changed(true), Some(UiEvent::FnDown)));
    assert!(monitor.flags_changed(true).is_none());
    assert!(matches!(monitor.key_down(), Some(UiEvent::FnChord)));
    assert!(matches!(monitor.flags_changed(false), Some(UiEvent::FnUp)));
}

#[test]
fn a_missed_release_is_made_up_for_once() {
    let mut monitor = FnMonitor::new();
    assert!(monitor.watchdog(false).is_none());
    monitor.flags_changed(true);
    assert!(monitor.watchdog(true).is_none());
    assert!(matches!(monitor.watchdog(false), Some(UiEvent::FnUp)));
    assert!(monitor.watchdog(false).is_none());
    assert!(monitor.flags_changed(false).is_none());
}

// ---- The command line ----

fn mode(args: &[&str]) -> CliMode {
    let args: Vec<String> = args.iter().map(|a| a.to_string()).collect();
    cli_mode(&args)
}

#[test]
fn flags_choose_the_mode() {
    assert!(matches!(mode(&[]), CliMode::Run));
    assert!(matches!(mode(&["fntype"]), CliMode::Run));
    assert!(matches!(mode(&["fntype", "--check"]), CliMode::Check));
    assert!(matches!(mode(&["fntype", "--check-to"]), CliMode::CheckTo(None)));
    assert!(matches!(mode(&["fntype", "--check-to", "f"]), CliMode::CheckTo(Some(f)) if f == "f"));
    assert!(matches!(
        mode(&["fntype", "--import-key-from-file", "f"]),
        CliMode::ImportFromFile(f) if f == "f"
    ));
    assert!(matches!(
        mode(&["fntype", "--import-key-from-file"]),
        CliMode::ImportPathMissing
    ));
    assert!(matches!(
        mode(&["fntype", "--check", "--check-to", "--import-key-from-pasteboard"]),
        CliMode::ImportFromPasteboard
    ));
}

#[test]
fn the_report_for_reading_has_three_lines() {
    let permissions = Permissions { input_monitoring: true, accessibility: false };
    assert_eq!(
        check_lines(true, &permissions),
        "api key in keychain : true\ninput monitoring    : true\naccessibility       : false"
    );
}

#[test]
fn reports_have_one_line() {
    let permissions = Permissions { input_monitoring: true, accessibility: false };
    assert_eq!(
        check_report(false, &permissions),
        "api_key=false input_monitoring=true accessibility=false"
    );
    assert_eq!(result_path("/tmp/key"), "/tmp/key.result");
    assert_eq!(import_report(Ok(())), "ok");
    assert_eq!(import_report(Err("no")), "error: no");
}
