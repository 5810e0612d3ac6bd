use std::io::Cursor;
use std::sync::Mutex;

use avel_lib::brightness::hardware::{EnumeratedMonitor, WmiBrightnessInfo};
use avel_lib::brightness::{
    BrightnessBackend, BrightnessDeviceBackend, BrightnessDisplay, BrightnessError, MonitorHardware,
    NativeBrightnessBackend, ProbeState, VerificationState,
};
use avel_lib::clipboard::payloads::{clipboard_dib_of_image, encode_clipboard_dib};
use avel_lib::desktop::{desktop_plan, finish_switch_off, restore_writes, CleanDesktopRecord, DesktopBackend, DesktopManager};
use avel_lib::paths::extension_text;
use avel_lib::screenshots::{image_size, screenshot_ready, screenshot_retry_pause_ms, SCREENSHOT_READ_ATTEMPTS};
use avel_lib::store::same_image_bytes;
use avel_lib::thumbnails::{thumbnail_cache_name, thumbnail_png, wallpaper_thumbnail_png};
use avel_lib::brightness::events::{debounce_step, WatchAction, WatchEvent, DEBOUNCE_QUIET_MS};

fn png_bytes(w: u32, h: u32, seed: u8) -> Vec<u8> {
    let mut img = image::RgbaImage::new(w, h);
    for (x, y, p) in img.enumerate_pixels_mut() {
        *p = image::Rgba([seed.wrapping_add(x as u8), y as u8, 7, 255]);
    }
    let mut out = Vec::new();
    image::DynamicImage::ImageRgba8(img).write_to(&mut Cursor::new(&mut out), image::ImageFormat::Png).unwrap();
    out
}

fn png_size(bytes: &[u8]) -> (u32, u32) {
    let img = image::load_from_memory_with_format(bytes, image::ImageFormat::Png).unwrap();
    (img.width(), img.height())
}

/// A shell whose calls are recorded.
#[derive(Default)]
struct RecordingShell {
    icons: Mutex<bool>,
    taskbar: Mutex<bool>,
    calls: Mutex<Vec<String>>,
}

impl DesktopBackend for RecordingShell {
    fn are_desktop_icons_hidden(&self) -> Result<bool, String> {
        self.calls.lock().unwrap().push("read_icons".to_string());
        Ok(*self.icons.lock().unwrap())
    }

    fn set_desktop_icons_hidden(&self, hidden: bool) -> Result<(), String> {
        self.calls.lock().unwrap().push(format!("icons={hidden}"));
        *self.icons.lock().unwrap() = hidden;
        Ok(())
    }

    fn is_primary_taskbar_hidden(&self) -> Result<bool, String> {
        self.calls.lock().unwrap().push("read_taskbar".to_string());
        Ok(*self.taskbar.lock().unwrap())
    }

    fn set_taskbars_hidden(&self, hidden: bool) -> Result<(), String> {
        self.calls.lock().unwrap().push(format!("taskbar={hidden}"));
        *self.taskbar.lock().unwrap() = hidden;
        Ok(())
    }
}

/// Lets a test keep hold of the shell the manager drives.
struct Shared(std::sync::Arc<RecordingShell>);
impl DesktopBackend for Shared {
    fn are_desktop_icons_hidden(&self) -> Result<bool, String> {
        self.0.are_desktop_icons_hidden()
    }
    fn set_desktop_icons_hidden(&self, hidden: bool) -> Result<(), String> {
        self.0.set_desktop_icons_hidden(hidden)
    }
    fn is_primary_taskbar_hidden(&self) -> Result<bool, String> {
        self.0.is_primary_taskbar_hidden()
    }
    fn set_taskbars_hidden(&self, hidden: bool) -> Result<(), String> {
        self.0.set_taskbars_hidden(hidden)
    }
}

#[test]
fn desktop_plan_names_the_shell_calls_of_each_mode() {
    let mut rec = CleanDesktopRecord::initial();
    rec.baseline_icons_hidden = true;
    let icons = desktop_plan(&rec, "icons_only").unwrap();
    assert!(icons.read_baseline);
    assert_eq!((icons.set_icons, icons.set_taskbar), (Some(true), None));
    assert_eq!(icons.hide_mode.as_deref(), Some("icons"));
    let taskbar = desktop_plan(&rec, "taskbar").unwrap();
    assert_eq!((taskbar.set_icons, taskbar.set_taskbar), (None, Some(true)));
    let all = desktop_plan(&rec, "all").unwrap();
    assert_eq!((all.set_icons, all.set_taskbar), (Some(true), Some(true)));
    let none = desktop_plan(&rec, "none").unwrap();
    assert!(!none.read_baseline);
    assert_eq!((none.set_icons, none.set_taskbar, none.hide_mode), (Some(true), Some(false), None));
    rec.is_hidden = true;
    assert!(!desktop_plan(&rec, "all").unwrap().read_baseline);
    assert_eq!(desktop_plan(&rec, "left").unwrap_err(), "Unknown mode: left");
}

#[test]
fn switching_off_clears_the_marker_only_when_the_shell_reads_back_the_baseline() {
    let mut rec = CleanDesktopRecord::initial();
    rec.current_mode = "taskbar".to_string();
    rec.is_hidden = true;
    rec.recovery_marker = true;
    let mut kept = rec.clone();
    finish_switch_off(&mut kept, true, false);
    assert!(kept.recovery_marker);
    assert!(!kept.is_hidden);
    assert_eq!(kept.current_mode, "taskbar");
    finish_switch_off(&mut rec, false, false);
    assert!(!rec.recovery_marker);
}

#[test]
fn restore_writes_the_recorded_state_when_owed() {
    let mut rec = CleanDesktopRecord::initial();
    rec.baseline_taskbar_hidden = true;
    assert_eq!(restore_writes(&rec), None);
    rec.recovery_marker = true;
    assert_eq!(restore_writes(&rec), Some((false, true)));
}

#[test]
fn manager_carries_out_the_plan_on_the_shell() {
    let shell = std::sync::Arc::new(RecordingShell::default());
    *shell.taskbar.lock().unwrap() = true;
    let manager = DesktopManager::with_backend(Box::new(Shared(shell.clone())));
    let mut rec = CleanDesktopRecord::initial();
    let st = manager.apply_mode(&mut rec, "icons").unwrap();
    assert!(st.actual_icons_hidden && st.actual_taskbar_hidden);
    assert!(rec.recovery_marker && rec.baseline_taskbar_hidden && !rec.baseline_icons_hidden);
    let calls: Vec<String> = shell.calls.lock().unwrap().drain(..).collect();
    assert!(!calls.iter().any(|c| c.starts_with("taskbar=")));
    manager.apply_mode(&mut rec, "none").unwrap();
    let calls: Vec<String> = shell.calls.lock().unwrap().drain(..).collect();
    assert_eq!(calls[0..2], ["icons=false".to_string(), "taskbar=true".to_string()]);
    assert!(!rec.recovery_marker);
    manager.apply_mode(&mut rec, "all").unwrap();
    shell.calls.lock().unwrap().clear();
    manager.restore_all_on_startup_or_exit(&mut rec);
    let calls: Vec<String> = shell.calls.lock().unwrap().drain(..).collect();
    assert_eq!(calls, vec!["icons=false".to_string(), "taskbar=true".to_string()]);
    assert!(!rec.is_hidden && !rec.recovery_marker && rec.current_mode == "all");
}

#[test]
fn thumbnails_are_scaled_from_file_bytes() {
    let bytes = png_bytes(100, 50, 1);
    let t = thumbnail_png(&bytes, "C:\\shots\\a.PNG", 40, 40).unwrap();
    assert_eq!(png_size(&t), (40, 20));
    // The physical side is kept at 32 at least and never enlarges the image.
    let t = thumbnail_png(&bytes, "C:\\shots\\a.png", 1, 1).unwrap();
    assert_eq!(png_size(&t), (32, 16));
    let small = png_bytes(10, 10, 2);
    assert_eq!(png_size(&thumbnail_png(&small, "x.png", 500, 500).unwrap()), (10, 10));
    let err = thumbnail_png(b"not an image", "x.png", 40, 40).unwrap_err();
    assert!(err.starts_with("Failed to open image: "));
    let w = wallpaper_thumbnail_png(&bytes, "C:\\wp\\b.png", 30, 30).unwrap();
    assert_eq!(png_size(&w), (30, 30));
    assert!(wallpaper_thumbnail_png(b"xx", "b.png", 30, 30).unwrap_err().starts_with("Ошибка открытия изображения: "));
}

#[test]
fn thumbnail_cache_name_keeps_sides_in_range() {
    let expected = format!("{}.png", blake3::hash(b"C:\\a.png:12:32:1920:2").to_hex());
    assert_eq!(thumbnail_cache_name("C:\\a.png", 12, 3, 5000, "2"), expected);
}

#[test]
fn clipboard_bitmap_of_an_image_file() {
    let bytes = png_bytes(3, 2, 9);
    let img = image::load_from_memory(&bytes).unwrap().to_rgba8();
    let expected = encode_clipboard_dib(3, 2, &img.into_raw()).unwrap();
    assert_eq!(clipboard_dib_of_image(&bytes, "C:\\i\\x.png").unwrap(), expected);
    assert!(clipboard_dib_of_image(b"junk", "x.png").unwrap_err().starts_with("open image: "));
}

#[test]
fn image_files_compare_by_pixels() {
    let a = png_bytes(4, 4, 1);
    let b = png_bytes(4, 4, 1);
    let c = png_bytes(4, 4, 2);
    assert!(same_image_bytes(&a, "a.png", &b, "b.png"));
    assert!(!same_image_bytes(&a, "a.png", &c, "c.png"));
    assert!(!same_image_bytes(&a, "a.png", b"junk", "d.png"));
}

#[test]
fn screenshot_readiness_and_pauses() {
    let a = png_bytes(6, 5, 1);
    assert_eq!(image_size(&a, "C:\\s\\shot.png"), Some((6, 5)));
    assert_eq!(image_size(b"junk", "shot.png"), None);
    assert!(screenshot_ready(true, 10, Some((6, 5))));
    assert!(!screenshot_ready(true, 0, Some((6, 5))));
    assert!(!screenshot_ready(true, 10, None));
    let pauses: Vec<u64> = (0..SCREENSHOT_READ_ATTEMPTS).map(screenshot_retry_pause_ms).collect();
    assert_eq!(pauses, vec![50, 100, 150, 200]);
    assert_eq!(extension_text("C:\\dir.d\\file"), "");
}

/// WMI monitors as plain values.
struct WmiOnly {
    monitors: Vec<WmiBrightnessInfo>,
    written: Mutex<Vec<(String, u32)>>,
}

impl MonitorHardware for WmiOnly {
    fn wmi_monitors(&self) -> Result<Vec<WmiBrightnessInfo>, BrightnessError> {
        Ok(self.monitors.clone())
    }
    fn set_wmi_level(&self, instance_name: &str, level: u32) -> Result<(), BrightnessError> {
        self.written.lock().unwrap().push((instance_name.to_string(), level));
        Ok(())
    }
    fn physical_monitors(&self) -> Vec<EnumeratedMonitor> {
        Vec::new()
    }
    fn release_physical_monitor(&self, _handle: isize) {}
    fn monitor_brightness(&self, _handle: isize) -> (bool, u32, u32, u32) {
        (false, 0, 0, 0)
    }
    fn set_monitor_brightness(&self, _handle: isize, _raw: u32) -> bool {
        false
    }
    fn vcp_brightness(&self, _handle: isize) -> (bool, u32, u32) {
        (false, 0, 0)
    }
    fn set_vcp_brightness(&self, _handle: isize, _raw: u32) -> bool {
        false
    }
}

#[test]
fn wmi_write_checks_only_the_addressed_monitors_levels() {
    let hw = WmiOnly {
        monitors: vec![
            WmiBrightnessInfo { instance_name: "OTHER".to_string(), current: 0, levels: vec![0x8000_0001] },
            WmiBrightnessInfo { instance_name: "PANEL".to_string(), current: 30, levels: vec![0, 25, 50, 100] },
        ],
        written: Mutex::new(Vec::new()),
    };
    let backend = NativeBrightnessBackend::with_hardware(Box::new(hw));
    let display = BrightnessDisplay {
        id: "PANEL".to_string(),
        generation: 1,
        name: "Panel".to_string(),
        connection: None,
        is_primary: true,
        backend: Some(BrightnessBackend::Wmi),
        probe_state: ProbeState::ReadOk,
        verification: VerificationState::NotTested,
        current_percent: Some(30),
        target_percent: None,
        raw_min: Some(0),
        raw_max: Some(100),
        available_levels: None,
        busy: false,
        error: None,
        device_name: None,
    };
    assert!(backend.write_brightness(&display, 40).is_ok());
    let mut far = display.clone();
    far.id = "OTHER".to_string();
    let e = backend.write_brightness(&far, 10).unwrap_err();
    assert_eq!(e.code, "level_out_of_range");
}

#[test]
fn display_change_bursts_are_debounced() {
    assert_eq!(DEBOUNCE_QUIET_MS, 500);
    assert_eq!(debounce_step(false, true, WatchEvent::Notified), (true, WatchAction::KeepWaiting));
    assert_eq!(debounce_step(true, true, WatchEvent::Notified), (true, WatchAction::KeepWaiting));
    assert_eq!(debounce_step(true, true, WatchEvent::QuietTimeout), (false, WatchAction::Refresh));
    assert_eq!(debounce_step(false, true, WatchEvent::Disconnected).1, WatchAction::Stop);
    assert_eq!(debounce_step(true, true, WatchEvent::Disconnected).1, WatchAction::Stop);
    assert_eq!(debounce_step(true, false, WatchEvent::Notified).1, WatchAction::Stop);
    assert_eq!(debounce_step(false, false, WatchEvent::Notified).1, WatchAction::Stop);
    assert_eq!(debounce_step(true, false, WatchEvent::QuietTimeout).1, WatchAction::Stop);
}

#[test]
fn unknown_extension_is_reported_as_image_open_reports_it() {
    let err = thumbnail_png(b"whatever", "C:\\shots\\a.qqq", 40, 40).unwrap_err();
    assert_eq!(
        err,
        "Failed to open image: The file extension `.\"qqq\"` was not recognized as an image format"
    );
    let err = thumbnail_png(b"whatever", "C:\\shots\\noext", 40, 40).unwrap_err();
    assert_eq!(err, "Failed to open image: The image format could not be determined");
}

#[test]
fn conversions_round_exact_halves_up() {
    assert_eq!(avel_lib::brightness::percent_to_raw(29, 0, 50), 15);
    assert_eq!(avel_lib::brightness::raw_to_percent(23, 0, 40), 58);
}
