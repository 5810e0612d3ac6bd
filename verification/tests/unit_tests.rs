use avel_lib::desktop::{CleanDesktopRecord, DesktopBackend};
use avel_lib::types::ShortcutSpec;
use std::sync::atomic::{AtomicBool, Ordering};
use avel_lib::brightness::{ BrightnessBackend, BrightnessDeviceBackend, BrightnessDisplay, NativeBrightnessBackend, ProbeState, VerificationState, };
use avel_lib::desktop::DesktopManager;
use avel_lib::hotkeys::{HotkeyAction, HotkeyState};
use avel_lib::hotkeys::{parse_code, spec_to_shortcut};
use avel_lib::recent::{detect_closed_explorer_windows, WindowMap};

#[derive(Default)]
struct MockDesktopBackend {
    icons_hidden: AtomicBool,
    taskbar_hidden: AtomicBool,
    should_fail_icons: AtomicBool,
    should_fail_taskbar: AtomicBool,
}

impl MockDesktopBackend {
    fn new() -> Self {
        Self::default()
    }
}

impl DesktopBackend for MockDesktopBackend {
    fn are_desktop_icons_hidden(&self) -> Result<bool, String> {
        Ok(self.icons_hidden.load(Ordering::SeqCst))
    }

    fn set_desktop_icons_hidden(&self, hidden: bool) -> Result<(), String> {
        if self.should_fail_icons.load(Ordering::SeqCst) {
            return Err("Mock desktop icons failure".to_string());
        }
        self.icons_hidden.store(hidden, Ordering::SeqCst);
        Ok(())
    }

    fn is_primary_taskbar_hidden(&self) -> Result<bool, String> {
        Ok(self.taskbar_hidden.load(Ordering::SeqCst))
    }

    fn set_taskbars_hidden(&self, hidden: bool) -> Result<(), String> {
        if self.should_fail_taskbar.load(Ordering::SeqCst) {
            return Err("Mock taskbar failure".to_string());
        }
        self.taskbar_hidden.store(hidden, Ordering::SeqCst);
        Ok(())
    }
}

/// Decodes the JSON form of a shortcut as the application stores it: a
/// string `code` and optional boolean modifiers.
fn decode_spec(text: &str) -> Option<ShortcutSpec> {
    let v: serde_json::Value = serde_json::from_str(text.trim()).ok()?;
    let obj = v.as_object()?;
    let code = obj.get("code")?.as_str()?.to_string();
    let flag = |name: &str| -> Option<bool> {
        match obj.get(name) {
            None => Some(false),
            Some(b) => b.as_bool(),
        }
    };
    Some(ShortcutSpec {
        code,
        ctrl: flag("ctrl")?,
        alt: flag("alt")?,
        shift: flag("shift")?,
        meta: flag("meta")?,
    })
}

fn parse_spec(text: &str, fallback: &str) -> ShortcutSpec {
    avel_lib::hotkeys::parse_shortcut_spec_or_str(text, fallback, decode_spec(text))
}

#[test]
fn test_hotkeys_shortcut_spec_and_code_parsing() {

    // Single keys without modifiers
    assert!(parse_code("ArrowUp").is_ok());
    assert!(parse_code("ArrowDown").is_ok());
    assert!(parse_code("ArrowLeft").is_ok());
    assert!(parse_code("ArrowRight").is_ok());
    assert!(parse_code("F8").is_ok());
    assert!(parse_code("Equal").is_ok());
    assert!(parse_code("=").is_ok());
    assert!(parse_code("KeyD").is_ok());
    assert!(parse_code("Numpad1").is_ok());

    let spec_arrow_up = ShortcutSpec {
        code: "ArrowUp".to_string(),
        ctrl: false,
        alt: false,
        shift: false,
        meta: false,
    };
    assert!(spec_to_shortcut(&spec_arrow_up).is_ok());

    let spec_f8 = ShortcutSpec {
        code: "F8".to_string(),
        ctrl: false,
        alt: false,
        shift: false,
        meta: false,
    };
    assert!(spec_to_shortcut(&spec_f8).is_ok());

    let spec_equal = ShortcutSpec {
        code: "Equal".to_string(),
        ctrl: false,
        alt: false,
        shift: false,
        meta: false,
    };
    assert!(spec_to_shortcut(&spec_equal).is_ok());

    // Combos: Ctrl + Alt + KeyD
    let spec_ctrl_alt_d = ShortcutSpec {
        code: "KeyD".to_string(),
        ctrl: true,
        alt: true,
        shift: false,
        meta: false,
    };
    assert!(spec_to_shortcut(&spec_ctrl_alt_d).is_ok());

    // Combos: Ctrl + Shift + KeyV
    let spec_ctrl_shift_v = ShortcutSpec {
        code: "KeyV".to_string(),
        ctrl: true,
        alt: false,
        shift: true,
        meta: false,
    };
    assert!(spec_to_shortcut(&spec_ctrl_shift_v).is_ok());

    // The stored JSON form reads back as the same shortcut
    let json = r#"{"code":"KeyD","ctrl":true,"alt":true,"shift":false,"meta":false}"#;
    let parsed_spec = parse_spec(json, "KeyD");
    assert_eq!(parsed_spec, spec_ctrl_alt_d);
    let parsed_legacy = parse_spec("Ctrl+Alt+D", "KeyD");
    assert_eq!(parsed_legacy.code, "KeyD");
    assert!(parsed_legacy.ctrl);
    assert!(parsed_legacy.alt);

    // Canonicalization of F8, ArrowDown, PageUp, Ctrl+Alt+D
    let parsed_f8 = parse_spec("f8", "");
    assert_eq!(parsed_f8.code, "F8");
    assert!(!parsed_f8.ctrl && !parsed_f8.alt && !parsed_f8.shift && !parsed_f8.meta);

    let parsed_f9 = parse_spec("f9", "");
    assert_eq!(parsed_f9.code, "F9");

    let parsed_f10 = parse_spec("F10", "");
    assert_eq!(parsed_f10.code, "F10");

    let parsed_left = parse_spec("ArrowLeft", "");
    assert_eq!(parsed_left.code, "ArrowLeft");

    let parsed_left_alias = parse_spec("left", "");
    assert_eq!(parsed_left_alias.code, "ArrowLeft");

    let parsed_down = parse_spec("arrowdown", "");
    assert_eq!(parsed_down.code, "ArrowDown");
    assert!(!parsed_down.ctrl && !parsed_down.alt);

    let parsed_pageup = parse_spec("pageup", "");
    assert_eq!(parsed_pageup.code, "PageUp");

    let parsed_cad = parse_spec("ctrl+alt+d", "");
    assert_eq!(parsed_cad.code, "KeyD");
    assert!(parsed_cad.ctrl && parsed_cad.alt);

    // JSON with missing modifiers defaults to false
    let json_partial = r#"{"code":"F8"}"#;
    let parsed_partial = parse_spec(json_partial, "");
    assert_eq!(parsed_partial.code, "F8");
    assert!(!parsed_partial.ctrl && !parsed_partial.alt);

    // Unset values must NOT invent fake Ctrl+Alt fallbacks
    let unset_empty = parse_spec("", "");
    assert_eq!(unset_empty.code, "");
    assert!(!unset_empty.ctrl && !unset_empty.alt);

    let unset_none = parse_spec("none", "");
    assert_eq!(unset_none.code, "");
    assert!(!unset_none.ctrl && !unset_none.alt);

    // Storing a hotkey puts it into the settings record of its action
    let mut settings = avel_lib::types::AppSettings::default();
    let mut prefs = avel_lib::brightness::BrightnessPreferences::default();
    avel_lib::hotkeys::update_hotkey_in_settings(
        &mut settings,
        &mut prefs,
        avel_lib::hotkeys::HotkeyAction::Clipboard,
        r#"{"code":"KeyV","ctrl":true,"alt":true,"shift":false,"meta":false}"#,
    );
    assert_eq!(
        settings.hotkey_clipboard,
        r#"{"code":"KeyV","ctrl":true,"alt":true,"shift":false,"meta":false}"#
    );
}

fn key(code: &str, ctrl: bool, alt: bool) -> avel_lib::hotkeys::ShortcutKey {
    avel_lib::hotkeys::ShortcutKey {
        code: code.to_string(),
        ctrl,
        alt,
        shift: false,
        meta: false,
    }
}

#[test]
fn test_hotkey_state_first_event_resolution_never_dropped() {

    let mut state = HotkeyState::new();

    // 1. Equal -> Clipboard
    let sc_equal = key("Equal", false, false);
    state.route(sc_equal.clone(), 1, HotkeyAction::Clipboard);

    // 2. F8 -> Recent
    let sc_f8 = key("F8", false, false);
    state.route(sc_f8.clone(), 2, HotkeyAction::Recent);

    // 3. Ctrl+Alt+D -> Appearance
    let sc_d = key("KeyD", true, true);
    state.route(sc_d.clone(), 3, HotkeyAction::Appearance);

    // 4. ArrowDown -> Desktop
    let sc_down = key("ArrowDown", false, false);
    state.route(sc_down.clone(), 4, HotkeyAction::Desktop);

    // Immediate first-event resolutions (MUST NEVER BE DROPPED OR RETURN NONE)
    assert_eq!(
        state.resolve_action(&sc_equal, 1),
        Some(HotkeyAction::Clipboard)
    );
    assert_eq!(state.resolve_action(&sc_f8, 2), Some(HotkeyAction::Recent));
    assert_eq!(state.resolve_action(&sc_d, 3), Some(HotkeyAction::Appearance));
    assert_eq!(state.resolve_action(&sc_down, 4), Some(HotkeyAction::Desktop));

    // Rapid successive resolutions (no throttle dropping)
    for _ in 0..10 {
        assert_eq!(
            state.resolve_action(&sc_equal, 1),
            Some(HotkeyAction::Clipboard)
        );
        assert_eq!(state.resolve_action(&sc_f8, 2), Some(HotkeyAction::Recent));
        assert_eq!(state.resolve_action(&sc_d, 3), Some(HotkeyAction::Appearance));
        assert_eq!(state.resolve_action(&sc_down, 4), Some(HotkeyAction::Desktop));
    }
}

fn desktop_record(mode: &str, hidden: bool) -> CleanDesktopRecord {
    let mut r = CleanDesktopRecord::initial();
    r.current_mode = mode.to_string();
    r.is_hidden = hidden;
    r
}

#[test]
fn test_restore_all_on_startup_or_exit_preserves_mode() {
    let desktop = avel_lib::desktop::DesktopManager::with_backend(Box::new(
        MockDesktopBackend::new(),
    ));

    // User selected "taskbar" mode and desktop was hidden
    let mut record = desktop_record("taskbar", true);
    record.recovery_marker = true;

    desktop.restore_all_on_startup_or_exit(&mut record);

    assert_eq!(record.current_mode, "taskbar");
    assert!(!record.is_hidden);
    assert!(!record.recovery_marker);
}

#[test]
fn test_desktop_manager_backend_isolation_and_restoration() {
    let mut record = CleanDesktopRecord::initial();
    let desktop = avel_lib::desktop::DesktopManager::with_backend(Box::new(
        MockDesktopBackend::new(),
    ));

    // Apply "all" mode
    let st1 = desktop.apply_mode(&mut record, "all").expect("apply all mode");
    assert!(st1.is_hidden);
    assert!(st1.actual_icons_hidden);
    assert!(st1.actual_taskbar_hidden);

    // Apply "none" (restore)
    let st2 = desktop.apply_mode(&mut record, "none").expect("apply none mode");
    assert!(!st2.is_hidden);
    assert!(!st2.actual_icons_hidden);
    assert!(!st2.actual_taskbar_hidden);
}

#[test]
fn test_desktop_manager_with_mock_backend() {

    let mut record = CleanDesktopRecord::initial();

    let backend = Box::new(MockDesktopBackend::new());
    let manager = DesktopManager::with_backend(backend);

    // Initial state: not hidden
    let state0 = manager.get_actual_state(&record);
    assert!(!state0.is_hidden);
    assert_eq!(state0.current_mode, "none");

    // Apply "icons" mode
    let state1 = manager.apply_mode(&mut record, "icons").expect("apply icons mode");
    assert!(state1.is_hidden);
    assert!(state1.actual_icons_hidden);
    assert!(!state1.actual_taskbar_hidden);
    assert_eq!(state1.current_mode, "icons");

    // Apply "all" mode
    let state2 = manager.apply_mode(&mut record, "all").expect("apply all mode");
    assert!(state2.is_hidden);
    assert!(state2.actual_icons_hidden);
    assert!(state2.actual_taskbar_hidden);
    assert_eq!(state2.current_mode, "all");

    // Toggle mode -> should become "none"
    let state3 = manager.toggle_mode(&mut record).expect("toggle off");
    assert!(!state3.is_hidden);
    assert_eq!(state3.current_mode, "none");

    // Toggle again -> should restore previous mode ("all")
    let state4 = manager.toggle_mode(&mut record).expect("toggle on");
    assert!(state4.is_hidden);
    assert_eq!(state4.current_mode, "all");

    // Test restore_all_on_startup_or_exit
    manager.restore_all_on_startup_or_exit(&mut record);
    let state_restored = manager.get_actual_state(&record);
    assert!(!state_restored.is_hidden);
    assert_eq!(state_restored.current_mode, "none");
}

#[test]
fn test_desktop_manager_independent_toggles_and_baseline_preservation() {

    let mut record = CleanDesktopRecord::initial();

    let mock = MockDesktopBackend::new();
    mock.taskbar_hidden
        .store(true, std::sync::atomic::Ordering::SeqCst); // initial OS state
    mock.icons_hidden
        .store(false, std::sync::atomic::Ordering::SeqCst);
    let manager = DesktopManager::with_backend(Box::new(mock));

    // Apply "icons" mode -> icons should hide, but taskbar autohide must remain true!
    let s1 = manager.apply_mode(&mut record, "icons").expect("apply icons");
    assert!(s1.is_hidden);
    assert_eq!(s1.current_mode, "icons");
    assert!(s1.actual_icons_hidden);
    assert!(
        s1.actual_taskbar_hidden,
        "Initial taskbar autohide must not be disabled by icons-only mode"
    );

    // Toggle off -> icons should restore to false, taskbar must stay true!
    let s2 = manager.toggle_mode(&mut record).expect("toggle off");
    assert!(!s2.is_hidden);
    assert!(!s2.actual_icons_hidden);
    assert!(s2.actual_taskbar_hidden);

    // Toggle on -> MUST restore "icons" mode, NOT "all"!
    let s3 = manager.toggle_mode(&mut record).expect("toggle on");
    assert!(s3.is_hidden);
    assert_eq!(
        s3.current_mode, "icons",
        "Toggle on must restore previous 'icons' mode, not 'all'"
    );
    assert!(s3.actual_icons_hidden);

    // Case 2: Apply "taskbar" mode -> toggle off -> toggle on must restore "taskbar"
    let _s4 = manager.apply_mode(&mut record, "taskbar").expect("apply taskbar");
    let _s5 = manager.toggle_mode(&mut record).expect("toggle off");
    let s6 = manager.toggle_mode(&mut record).expect("toggle on");
    assert_eq!(
        s6.current_mode, "taskbar",
        "Toggle on must restore 'taskbar', not 'all'"
    );
}

#[test]
fn test_brightness_range_normalization() {
    // Standard 0-100
    assert_eq!(avel_lib::brightness::percent_to_raw(0, 0, 100), 0);
    assert_eq!(avel_lib::brightness::percent_to_raw(50, 0, 100), 50);
    assert_eq!(avel_lib::brightness::percent_to_raw(100, 0, 100), 100);
    assert_eq!(avel_lib::brightness::raw_to_percent(50, 0, 100), 50);

    // Custom range (e.g. 0-255)
    assert_eq!(avel_lib::brightness::percent_to_raw(0, 0, 255), 0);
    assert_eq!(avel_lib::brightness::percent_to_raw(100, 0, 255), 255);
    let mid_raw = avel_lib::brightness::percent_to_raw(50, 0, 255);
    assert_eq!(mid_raw, 128);
    assert_eq!(avel_lib::brightness::raw_to_percent(mid_raw, 0, 255), 50);

    // Offset range (e.g. 20-80)
    assert_eq!(avel_lib::brightness::percent_to_raw(0, 20, 80), 20);
    assert_eq!(avel_lib::brightness::percent_to_raw(100, 20, 80), 80);
    assert_eq!(avel_lib::brightness::percent_to_raw(50, 20, 80), 50);
    assert_eq!(avel_lib::brightness::raw_to_percent(50, 20, 80), 50);
}

#[test]
fn test_explorer_navigation_does_not_trigger_false_close() {

    let mut known = WindowMap::new();

    // 1. Window 1 opens at C:\FolderA
    let mut current = WindowMap::new();
    current.insert("0x1000_browser1".to_string(), "C:\\FolderA".to_string());
    let closed1 = detect_closed_explorer_windows(&mut known, &current);
    assert!(
        closed1.is_empty(),
        "Initial window open must not trigger closed event"
    );
    assert_eq!(known.get("0x1000_browser1").unwrap(), "C:\\FolderA");

    // 2. Window 1 navigates from C:\FolderA to C:\FolderB (same window/tab)
    let mut current2 = WindowMap::new();
    current2.insert("0x1000_browser1".to_string(), "C:\\FolderB".to_string());
    let closed2 = detect_closed_explorer_windows(&mut known, &current2);
    assert!(
        closed2.is_empty(),
        "Navigating inside open window must NOT trigger closed event"
    );
    assert_eq!(known.get("0x1000_browser1").unwrap(), "C:\\FolderB");

    // 3. Window 2 opens at C:\Projects
    let mut current3 = WindowMap::new();
    current3.insert("0x1000_browser1".to_string(), "C:\\FolderB".to_string());
    current3.insert("0x2000_browser2".to_string(), "C:\\Projects".to_string());
    let closed3 = detect_closed_explorer_windows(&mut known, &current3);
    assert!(closed3.is_empty());

    // 4. Window 2 closes, while Window 1 remains open
    let mut current4 = WindowMap::new();
    current4.insert("0x1000_browser1".to_string(), "C:\\FolderB".to_string());
    let closed4 = detect_closed_explorer_windows(&mut known, &current4);
    assert_eq!(
        closed4,
        vec!["C:\\Projects".to_string()],
        "Closed Window 2 must be reported"
    );
    assert_eq!(known.len(), 1);

    // 5. Window 1 finally closes
    let current5 = WindowMap::new();
    let closed5 = detect_closed_explorer_windows(&mut known, &current5);
    assert_eq!(
        closed5,
        vec!["C:\\FolderB".to_string()],
        "Closed Window 1 must report last visited folder"
    );
    assert!(known.is_empty());
}

#[test]
fn test_mismatched_display_id_returns_device_not_found() {

    let backend = NativeBrightnessBackend::new();
    let unknown_display = BrightnessDisplay {
        id: "DISPLAY\\NON_EXISTENT_MONITOR_9999\\12345678".to_string(),
        generation: 1,
        name: "NonExistent".to_string(),
        connection: Some("HDMI".to_string()),
        is_primary: false,
        backend: Some(BrightnessBackend::Wmi),
        probe_state: ProbeState::NotChecked,
        verification: VerificationState::NotTested,
        current_percent: None,
        target_percent: None,
        raw_min: Some(0),
        raw_max: Some(100),
        available_levels: None,
        busy: false,
        error: None,
        device_name: None,
    };

    let read_res = backend.read_brightness(&unknown_display);
    assert!(
        matches!(read_res, Err(ref e) if e.code == "device_not_found"),
        "Non-matching monitor ID must return device_not_found error without writing to any hardware"
    );

    let write_res = backend.write_brightness(&unknown_display, 50);
    assert!(
        matches!(write_res, Err(ref e) if e.code == "device_not_found"),
        "Non-matching monitor ID write must fail with device_not_found without writing to wrong device"
    );
}

#[test]
fn toggle_with_unknown_stored_mode_is_refused() {
    let manager = DesktopManager::with_backend(Box::new(MockDesktopBackend::new()));
    let mut record = CleanDesktopRecord::initial();
    record.current_mode = "sideways".to_string();
    let err = manager.toggle_mode(&mut record).unwrap_err();
    assert_eq!(err, "Unknown mode: sideways");
    assert_eq!(record.current_mode, "sideways");
    assert!(!record.is_hidden);
    assert!(!record.recovery_marker);
}

#[test]
fn hotkey_action_parses_from_str() {
    let a: HotkeyAction = "brightness_down".parse().unwrap();
    assert_eq!(a, HotkeyAction::BrightnessDown);
    let e = "volume".parse::<HotkeyAction>().unwrap_err();
    assert_eq!(e, "Неизвестное действие для хоткея: volume");
}
