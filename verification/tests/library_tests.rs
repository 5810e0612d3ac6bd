use avel_lib::clipboard::dib::parse_dib_to_rgba;
use avel_lib::clipboard::payloads::{clipboard_text_units, dropfiles_payload, encode_clipboard_dib};
use avel_lib::clipboard::{
    classify_text_content, extract_image_payload, extract_text_payload, files_copy_hash, image_copy_hash,
    stored_image_path, text_copy_hash, ClipboardState,
};
use avel_lib::imaging::{bitmap_data_url, png_data_url_of, rgba_from_bgra};
use avel_lib::paths::{extension_of, is_previewable_image};
use avel_lib::recent::{
    explorer_process_name, explorer_window_class, follows_explorer_activity, is_valid_folder_path,
    parse_explorer_url_or_path, shell_thumbnail_attempts, url_decode, ShortcutTimes,
};
use avel_lib::screenshots::{is_image_extension, is_known_screenshot, notify_file_names, screenshot_hash, ProcessedFiles};
use avel_lib::store::{
    clipboard_filter, delete_chunks, in_placeholders, next_merge_step, recent_filter, resolve_view_mode,
    same_decoded_image, search_pattern, taskbar_baseline_flag, toggled_pin, CaptureKind, CaptureRequest, ClipboardFilter, MergeFacts,
    MergeStep, RecentFilter,
};
use avel_lib::theme::{
    is_time_in_light_window, manual_theme_change, readback_check, scheduled_theme_change, DayTime, ThemeCoordinator,
};
use avel_lib::thumbnails::{check_wallpaper_extension, eviction_count, wallpaper_cache_name};
use avel_lib::types::{AppearanceConfig, ClipboardItem};
use avel_lib::brightness::control::{next_test_phase, TestPhase};
use avel_lib::brightness::diagnostics::generate_diagnostics_report;
use avel_lib::brightness::{BrightnessBackend, BrightnessDisplay, BrightnessError, ProbeState, VerificationState};

const ABC_BLAKE3: &str = "6437b3ac38465133ffb63b75273a8db548c558465d79db03fd359c6cd5bd9d85";

fn dib_header(width: i32, height: i32, bits: u16, compression: u32) -> Vec<u8> {
    let mut h = Vec::new();
    h.extend_from_slice(&40u32.to_le_bytes());
    h.extend_from_slice(&width.to_le_bytes());
    h.extend_from_slice(&height.to_le_bytes());
    h.extend_from_slice(&1u16.to_le_bytes());
    h.extend_from_slice(&bits.to_le_bytes());
    h.extend_from_slice(&compression.to_le_bytes());
    h.extend_from_slice(&[0u8; 20]);
    h
}

#[test]
fn classify_links_code_and_text() {
    assert_eq!(classify_text_content("  https://example.com/a  "), "link");
    assert_eq!(classify_text_content("www.example.com"), "link");
    assert_eq!(classify_text_content("www.example.com\nsecond line"), "text");
    assert_eq!(classify_text_content("fn main() {}"), "code");
    assert_eq!(classify_text_content("a\n    b\nc"), "code");
    assert_eq!(classify_text_content("a\n    b"), "text");
    assert_eq!(classify_text_content("Hello World"), "text");
}

#[test]
fn text_capture_hashes_utf8_and_counts_chars() {
    assert!(extract_text_payload("  \n\t ".to_string()).is_none());
    let e = extract_text_payload("abc".to_string()).expect("text capture");
    assert_eq!(e.content_type, "text");
    assert_eq!(e.text_content.as_deref(), Some("abc"));
    assert_eq!(e.char_count, Some(3));
    assert_eq!(e.hash, ABC_BLAKE3);
    let e2 = extract_text_payload("héllo".to_string()).expect("text capture");
    assert_eq!(e2.char_count, Some(5));
    assert_eq!(stored_image_path(&e), None);
}

#[test]
fn own_copy_hashes() {
    assert_eq!(text_copy_hash("abc"), ABC_BLAKE3);
    assert_eq!(image_copy_hash(b"abc"), ABC_BLAKE3);
    assert_eq!(files_copy_hash(&vec!["abc".to_string()]), ABC_BLAKE3);
    assert_ne!(files_copy_hash(&vec!["a".to_string(), "bc".to_string()]), ABC_BLAKE3);
    assert_eq!(files_copy_hash(&vec!["a".to_string(), "bc".to_string()]), text_copy_hash("a|bc"));
}

#[test]
fn own_copy_is_claimed_once() {
    let mut st = ClipboardState::new();
    assert!(!st.mark_running());
    assert!(st.mark_running());
    st.set_own_copy(7, "h1".to_string());
    assert!(!st.claim_own_copy(8, "other"));
    assert!(st.claim_own_copy(8, "h1"));
    assert!(!st.claim_own_copy(8, "h1"));
    st.set_own_copy(9, "h2".to_string());
    assert!(st.claim_own_copy(9, "zzz"));
    assert_eq!(st.last_own_seq, 0);
    assert!(st.last_own_hash.is_empty());
    st.mark_stopped();
    assert!(!st.is_running);
}

#[test]
fn dib_bottom_up_32_bit_decodes_top_row_first() {
    let mut d = dib_header(2, 2, 32, 0);
    // stored bottom row first, bytes B G R A
    d.extend_from_slice(&[1, 2, 3, 4, 5, 6, 7, 8]);
    d.extend_from_slice(&[9, 10, 11, 12, 13, 14, 15, 16]);
    let img = parse_dib_to_rgba(&d).expect("decodes");
    assert_eq!((img.width, img.height), (2, 2));
    assert_eq!(img.rgba, vec![11, 10, 9, 12, 15, 14, 13, 16, 3, 2, 1, 4, 7, 6, 5, 8]);
}

#[test]
fn dib_without_alpha_decodes_opaque() {
    let mut d = dib_header(1, -1, 32, 0);
    d.extend_from_slice(&[10, 20, 30, 0]);
    let img = parse_dib_to_rgba(&d).expect("decodes");
    assert_eq!(img.rgba, vec![30, 20, 10, 255]);
}

#[test]
fn dib_24_bit_rows_are_padded() {
    let mut d = dib_header(1, -2, 24, 0);
    d.extend_from_slice(&[1, 2, 3, 0, 4, 5, 6, 0]);
    let img = parse_dib_to_rgba(&d).expect("decodes");
    assert_eq!(img.rgba, vec![3, 2, 1, 255, 6, 5, 4, 255]);
}

#[test]
fn dib_bitfields_masks_are_applied() {
    let mut d = dib_header(1, 1, 32, 3);
    d.extend_from_slice(&0x0000_00FFu32.to_le_bytes());
    d.extend_from_slice(&0x0000_FF00u32.to_le_bytes());
    d.extend_from_slice(&0x00FF_0000u32.to_le_bytes());
    d.extend_from_slice(&[1, 2, 3, 4]);
    let img = parse_dib_to_rgba(&d).expect("decodes");
    assert_eq!(img.rgba, vec![1, 2, 3, 4]);
}

#[test]
fn dib_refusals() {
    assert!(parse_dib_to_rgba(&[0u8; 39]).is_none());
    assert!(parse_dib_to_rgba(&dib_header(0, 1, 32, 0)).is_none());
    assert!(parse_dib_to_rgba(&dib_header(1, 0, 32, 0)).is_none());
    assert!(parse_dib_to_rgba(&dib_header(1, 1, 16, 0)).is_none());
    assert!(parse_dib_to_rgba(&dib_header(1, 1, 32, 1)).is_none());
    assert!(parse_dib_to_rgba(&dib_header(40000, 1, 32, 0)).is_none());
    // pixel rows missing
    assert!(parse_dib_to_rgba(&dib_header(1, 1, 32, 0)).is_none());
    // overlapping masks
    let mut d = dib_header(1, 1, 32, 3);
    d.extend_from_slice(&0x0000_00FFu32.to_le_bytes());
    d.extend_from_slice(&0x0000_00FFu32.to_le_bytes());
    d.extend_from_slice(&0x00FF_0000u32.to_le_bytes());
    d.extend_from_slice(&[1, 2, 3, 4]);
    assert!(parse_dib_to_rgba(&d).is_none());
}

#[test]
fn clipboard_bitmap_round_trip() {
    let rgba: Vec<u8> = vec![1, 2, 3, 4, 5, 6, 7, 8, 9, 10, 11, 12, 13, 14, 15, 16, 17, 18, 19, 20, 21, 22, 23, 24];
    let dib = encode_clipboard_dib(3, 2, &rgba).expect("encodes");
    assert_eq!(dib.len(), 40 + 24);
    assert_eq!(&dib[0..4], &40u32.to_le_bytes());
    assert_eq!(&dib[20..24], &24u32.to_le_bytes());
    // bottom image row first, BGRA
    assert_eq!(&dib[40..44], &[15, 14, 13, 16]);
    let back = parse_dib_to_rgba(&dib).expect("decodes");
    assert_eq!((back.width, back.height), (3, 2));
    assert_eq!(back.rgba, rgba);
    assert_eq!(
        encode_clipboard_dib(0, 2, &Vec::new()).unwrap_err(),
        "Invalid image dimensions"
    );
}

#[test]
fn image_capture_encodes_png_and_thumbnail() {
    let mut d = dib_header(2, 1, 32, 0);
    d.extend_from_slice(&[0, 0, 255, 255, 0, 255, 0, 255]);
    let (e, png) = extract_image_payload(&d).expect("image capture");
    assert_eq!(&png[0..8], &[137, 80, 78, 71, 13, 10, 26, 10]);
    assert_eq!(e.content_type, "image");
    assert_eq!((e.width, e.height), (Some(2), Some(1)));
    assert_eq!(e.hash, image_copy_hash(&png));
    let thumb = e.thumbnail_b64.clone().expect("thumbnail");
    assert!(thumb.starts_with("data:image/png;base64,iVBORw0KGgo"));
    assert_eq!(stored_image_path(&e), Some(format!("{}.png", e.hash)));
    assert!(extract_image_payload(&[1, 2, 3]).is_none());
}

#[test]
fn base64_data_urls() {
    assert_eq!(png_data_url_of(b"Man"), "data:image/png;base64,TWFu");
    assert_eq!(png_data_url_of(b"Ma"), "data:image/png;base64,TWE=");
    assert_eq!(png_data_url_of(b"M"), "data:image/png;base64,TQ==");
    assert_eq!(png_data_url_of(b""), "data:image/png;base64,");
}

#[test]
fn bgra_conversion_and_shell_bitmaps() {
    assert_eq!(rgba_from_bgra(&vec![1, 2, 3, 0, 4, 5, 6, 0]), vec![3, 2, 1, 255, 6, 5, 4, 255]);
    assert_eq!(rgba_from_bgra(&vec![1, 2, 3, 0, 4, 5, 6, 9]), vec![3, 2, 1, 0, 6, 5, 4, 9]);
    assert!(bitmap_data_url(0, 1, &Vec::new()).is_none());
    let url = bitmap_data_url(1, 1, &vec![0, 0, 255, 255]).expect("url");
    assert!(url.starts_with("data:image/png;base64,iVBORw0KGgo"));
}

#[test]
fn clipboard_text_is_utf16_with_terminator() {
    assert_eq!(clipboard_text_units("A€😀"), vec![0x41, 0x20AC, 0xD83D, 0xDE00, 0]);
    assert_eq!(clipboard_text_units(""), vec![0]);
}

#[test]
fn dropfiles_layout() {
    assert_eq!(dropfiles_payload(&Vec::new()).unwrap_err(), "No files provided");
    let p = dropfiles_payload(&vec![vec![0x41], vec![0x42, 0x43]]).expect("payload");
    let mut expected = vec![20, 0, 0, 0, 0, 0, 0, 0, 0, 0, 0, 0, 0, 0, 0, 0, 1, 0, 0, 0];
    expected.extend_from_slice(&[0x41, 0, 0, 0, 0x42, 0, 0x43, 0, 0, 0, 0, 0]);
    assert_eq!(p, expected);
}

#[test]
fn explorer_locations() {
    assert_eq!(parse_explorer_url_or_path("file:///C:/Users/A%20B", ""), "C:\\Users\\A B");
    assert_eq!(parse_explorer_url_or_path("file:///%5Cserver/share", ""), "\\\\server\\share");
    assert_eq!(parse_explorer_url_or_path("file://server/share", ""), "\\\\server\\share");
    assert_eq!(parse_explorer_url_or_path("C:\\Data", ""), "C:\\Data");
    assert_eq!(parse_explorer_url_or_path("https://x", "D:\\Name"), "D:\\Name");
    assert_eq!(parse_explorer_url_or_path("shell:::{x}", "Home"), "");
    assert_eq!(parse_explorer_url_or_path("", ""), "");
}

#[test]
fn url_decoding() {
    assert_eq!(url_decode("a%41b"), "aAb");
    assert_eq!(url_decode("%e2%82%ac"), "€");
    assert_eq!(url_decode("%4"), "%4");
    assert_eq!(url_decode("%zz"), "%zz");
    assert_eq!(url_decode("%FF"), "\u{FFFD}");
}

#[test]
fn folder_paths() {
    assert!(is_valid_folder_path(" C:\\x "));
    assert!(is_valid_folder_path("\\\\srv\\share"));
    assert!(!is_valid_folder_path("   "));
    assert!(!is_valid_folder_path("relative\\dir"));
}

#[test]
fn explorer_activity() {
    assert!(explorer_window_class("CabinetWClass"));
    assert!(explorer_window_class("Shell_TrayWnd"));
    assert!(!explorer_window_class("Notepad"));
    assert!(explorer_process_name("EXPLORER.EXE"));
    assert!(!explorer_process_name("explorer2.exe"));
    assert!(follows_explorer_activity(false, 3000));
    assert!(!follows_explorer_activity(false, 3001));
    assert!(follows_explorer_activity(true, 99999));
    let attempts = shell_thumbnail_attempts(true);
    assert_eq!(attempts.len(), 2);
    assert!(attempts[0].icon_only && attempts[0].size == 256);
    assert!(!shell_thumbnail_attempts(false)[0].icon_only);
}

#[test]
fn shortcut_times_report_new_and_changed() {
    let mut t = ShortcutTimes::new();
    assert!(t.observe("a.lnk", 10));
    assert!(!t.observe("a.lnk", 10));
    assert!(!t.observe("a.lnk", 5));
    assert!(t.observe("a.lnk", 11));
    assert!(t.observe("b.lnk", 1));
}

#[test]
fn image_extensions_and_previews() {
    assert!(is_image_extension("Shot.PNG"));
    assert!(is_image_extension("a.jpeg"));
    assert!(!is_image_extension("a.gif"));
    assert!(is_previewable_image("C:\\pics\\a.SVG"));
    assert!(!is_previewable_image("C:\\pics\\.png"));
    assert!(!is_previewable_image("C:\\pics\\png"));
    assert_eq!(extension_of("C:\\a.b\\file.tar.gz"), Some("gz".to_string()));
    assert_eq!(extension_of("C:\\a.b\\file"), None);
    assert_eq!(extension_of("dir/file.txt/"), Some("txt".to_string()));
    assert_eq!(extension_of(".."), None);
}

#[test]
fn notification_records_are_read() {
    let mut buf = vec![0u8; 64];
    // first record: next at 16, name "a.png" is too long here; use "ab"
    buf[0..4].copy_from_slice(&16u32.to_le_bytes());
    buf[8..12].copy_from_slice(&4u32.to_le_bytes());
    buf[12..14].copy_from_slice(&(b'a' as u16).to_le_bytes());
    buf[14..16].copy_from_slice(&(b'b' as u16).to_le_bytes());
    // second record: last, name "c"
    buf[16..20].copy_from_slice(&0u32.to_le_bytes());
    buf[24..28].copy_from_slice(&2u32.to_le_bytes());
    buf[28..30].copy_from_slice(&(b'c' as u16).to_le_bytes());
    assert_eq!(notify_file_names(&buf, 32), vec!["ab".to_string(), "c".to_string()]);
    // odd name length stops reading
    buf[24..28].copy_from_slice(&3u32.to_le_bytes());
    assert_eq!(notify_file_names(&buf, 32), vec!["ab".to_string()]);
    assert_eq!(notify_file_names(&buf, 8), Vec::<String>::new());
}

#[test]
fn repeated_notifications_are_collapsed() {
    let mut seen = ProcessedFiles::new();
    assert!(seen.should_process("C:\\s\\1.png", 1_000_000_000));
    assert!(!seen.should_process("C:\\s\\1.png", 2_000_000_000));
    assert!(seen.should_process("C:\\s\\1.png", 2_500_000_000));
    assert!(seen.should_process("C:\\s\\2.png", 2_500_000_000));
    assert_eq!(seen.len(), 2);
}

#[test]
fn remembered_files_are_forgotten_after_a_minute_beyond_a_hundred() {
    let mut seen = ProcessedFiles::new();
    for i in 0..100u64 {
        assert!(seen.should_process(&format!("f{i}"), i));
    }
    assert_eq!(seen.len(), 100);
    assert!(seen.should_process("late", 70_000_000_000));
    assert_eq!(seen.len(), 1);
}

fn item(content_type: &str, image_path: Option<&str>) -> ClipboardItem {
    ClipboardItem {
        id: 1,
        content_type: content_type.to_string(),
        text_content: None,
        image_path: image_path.map(|s| s.to_string()),
        thumbnail_b64: None,
        char_count: None,
        width: None,
        height: None,
        hash: String::new(),
        created_at: String::new(),
        updated_at: String::new(),
        is_pinned: false,
    }
}

#[test]
fn known_screenshots() {
    let items = vec![item("image", Some("C:\\s\\1.png")), item("screenshot", Some("C:\\s\\2.png"))];
    assert!(is_known_screenshot(&items, "C:\\s\\2.png"));
    assert!(!is_known_screenshot(&items, "C:\\s\\1.png"));
    assert_eq!(screenshot_hash("abc"), ABC_BLAKE3);
}

#[test]
fn listing_filters_and_search() {
    assert_eq!(clipboard_filter(None), ClipboardFilter::All);
    assert_eq!(clipboard_filter(Some("text")), ClipboardFilter::Texts);
    assert_eq!(clipboard_filter(Some("screenshots")), ClipboardFilter::Images);
    assert_eq!(clipboard_filter(Some("pinned")), ClipboardFilter::Pinned);
    assert_eq!(clipboard_filter(Some("other")), ClipboardFilter::All);
    assert_eq!(recent_filter(Some("files")), RecentFilter::Files);
    assert_eq!(recent_filter(Some("folders")), RecentFilter::Folders);
    assert_eq!(recent_filter(Some("favorites")), RecentFilter::Pinned);
    assert_eq!(search_pattern(Some("  Hello ")), Some("%Hello%".to_string()));
    assert_eq!(search_pattern(Some("   ")), None);
    assert_eq!(search_pattern(None), None);
}

#[test]
fn view_mode_fallbacks() {
    assert_eq!(resolve_view_mode("clipboard_all", None), "details");
    assert_eq!(resolve_view_mode("clipboard_images", None), "grid");
    assert_eq!(resolve_view_mode("screenshots", None), "grid");
    assert_eq!(resolve_view_mode("clipboard_text", Some("list".to_string())), "details");
    assert_eq!(resolve_view_mode("clipboard_text", Some("grid".to_string())), "grid");
}

#[test]
fn deletion_batches_of_450_ids() {
    assert_eq!(delete_chunks(450), vec![(0, 400), (400, 450)]);
    assert_eq!(delete_chunks(400), vec![(0, 400)]);
    assert_eq!(delete_chunks(0), Vec::<(usize, usize)>::new());
    assert_eq!(in_placeholders(3), "?1,?2,?3");
    assert_eq!(in_placeholders(1), "?1");
    assert_eq!(in_placeholders(0), "");
}

#[test]
fn stored_flags() {
    assert!(taskbar_baseline_flag("1"));
    assert!(taskbar_baseline_flag("true"));
    assert!(!taskbar_baseline_flag("0"));
    assert_eq!(toggled_pin(0), 1);
    assert_eq!(toggled_pin(1), 0);
}

fn request(content_type: &str, path: Option<&str>, thumb: bool) -> CaptureRequest {
    CaptureRequest {
        content_type: content_type.to_string(),
        image_path: path.map(|s| s.to_string()),
        has_thumbnail: thumb,
        width: Some(1920),
        height: Some(1080),
    }
}

fn no_facts() -> MergeFacts {
    MergeFacts { path_match: None, candidate: None, same_pixels: None, still_exists: None }
}

#[test]
fn screenshot_merges_with_recent_image() {
    let req = request("screenshot", Some("C:\\Shots\\Screenshot_1.png"), true);
    let mut f = no_facts();
    assert!(matches!(next_merge_step(&req, &f), MergeStep::FindPath(ref p) if p == "C:\\Shots\\Screenshot_1.png"));
    f.path_match = Some(None);
    assert!(matches!(
        next_merge_step(&req, &f),
        MergeStep::FindCandidate { kind: CaptureKind::Image, width: 1920, height: 1080 }
    ));
    f.candidate = Some(Some((5, "abc.png".to_string())));
    assert!(matches!(
        next_merge_step(&req, &f),
        MergeStep::ComparePixels { ref existing, existing_owned: true, new_owned: false, .. } if existing == "abc.png"
    ));
    f.same_pixels = Some(true);
    assert!(matches!(next_merge_step(&req, &f), MergeStep::CheckExists(5)));
    f.still_exists = Some(true);
    assert!(matches!(
        next_merge_step(&req, &f),
        MergeStep::UpgradeToScreenshot { id: 5, ref orphaned } if orphaned == "abc.png"
    ));
    f.same_pixels = Some(false);
    assert!(matches!(next_merge_step(&req, &f), MergeStep::Insert));
}

#[test]
fn recorded_screenshot_is_reused() {
    let req = request("screenshot", Some("C:\\Shots\\1.png"), false);
    let mut f = no_facts();
    f.path_match = Some(Some(9));
    assert!(matches!(next_merge_step(&req, &f), MergeStep::ReuseRow { id: 9, refresh_thumbnail: false }));
}

#[test]
fn image_after_screenshot_keeps_screenshot() {
    let req = request("image", Some("h.png"), true);
    let mut f = no_facts();
    assert!(matches!(next_merge_step(&req, &f), MergeStep::FindCandidate { kind: CaptureKind::Screenshot, .. }));
    f.candidate = Some(Some((3, "C:\\Shots\\1.png".to_string())));
    assert!(matches!(next_merge_step(&req, &f), MergeStep::ComparePixels { existing_owned: false, new_owned: true, .. }));
    f.same_pixels = Some(true);
    f.still_exists = Some(true);
    assert!(matches!(
        next_merge_step(&req, &f),
        MergeStep::KeepScreenshot { id: 3, fill_thumbnail: true, orphaned_new: Some(ref p) } if p == "h.png"
    ));
    let text = request("text", None, false);
    assert!(matches!(next_merge_step(&text, &no_facts()), MergeStep::Insert));
}

fn t(h: u32, m: u32) -> DayTime {
    DayTime { secs: h * 3600 + m * 60, nanos: 0 }
}

#[test]
fn light_window_by_day_and_overnight() {
    assert!(is_time_in_light_window(t(12, 0), t(7, 0), t(19, 0)));
    assert!(is_time_in_light_window(t(7, 0), t(7, 0), t(19, 0)));
    assert!(!is_time_in_light_window(t(19, 0), t(7, 0), t(19, 0)));
    assert!(is_time_in_light_window(t(23, 0), t(20, 0), t(6, 0)));
    assert!(is_time_in_light_window(t(5, 0), t(20, 0), t(6, 0)));
    assert!(!is_time_in_light_window(t(12, 0), t(20, 0), t(6, 0)));
}

fn appearance(target: &str, schedule: bool) -> AppearanceConfig {
    AppearanceConfig {
        windows_theme_target: target.to_string(),
        schedule_enabled: schedule,
        schedule_light_time: "07:00".to_string(),
        schedule_dark_time: "19:00".to_string(),
        switch_wallpaper: true,
        wallpaper_light_path: "C:\\light.jpg".to_string(),
        wallpaper_dark_path: String::new(),
    }
}

#[test]
fn scheduled_and_manual_theme_changes() {
    let cfg = appearance("System", true);
    assert_eq!(scheduled_theme_change(&cfg, t(12, 0), false), Some((true, "C:\\light.jpg".to_string())));
    assert_eq!(scheduled_theme_change(&cfg, t(12, 0), true), None);
    assert_eq!(scheduled_theme_change(&cfg, t(22, 0), true), Some((false, String::new())));
    assert_eq!(scheduled_theme_change(&appearance("System", false), t(22, 0), true), None);
    let mut bad = appearance("System", true);
    bad.schedule_dark_time = "late".to_string();
    assert_eq!(scheduled_theme_change(&bad, t(22, 0), true), None);
    assert_eq!(manual_theme_change(&appearance("Light", false)), Some((true, Some("C:\\light.jpg".to_string()))));
    assert_eq!(manual_theme_change(&appearance("Dark", false)), Some((false, None)));
    assert_eq!(manual_theme_change(&appearance("System", false)), None);
}

#[test]
fn theme_generations() {
    let mut c = ThemeCoordinator::new();
    let g1 = c.begin_change();
    assert_eq!(g1, 1);
    assert_eq!(c.wallpaper_to_set(g1, true, Some("w.jpg".to_string())), Some("w.jpg".to_string()));
    let g2 = c.begin_change();
    assert_eq!(c.wallpaper_to_set(g1, true, Some("w.jpg".to_string())), None);
    assert_eq!(c.wallpaper_to_set(g2, true, Some(String::new())), None);
    assert_eq!(c.wallpaper_to_set(g2, false, Some("w.jpg".to_string())), None);
    assert!(!c.mark_scheduler_running());
    assert!(c.mark_scheduler_running());
    assert_eq!(readback_check(true, true), Ok(true));
    assert_eq!(readback_check(true, false), Err("Registry theme read-back verification failed".to_string()));
}

#[test]
fn wallpaper_checks_and_cache_names() {
    assert!(check_wallpaper_extension("C:\\w\\a.JPG").is_ok());
    assert_eq!(
        check_wallpaper_extension("C:\\w\\a.gif").unwrap_err(),
        "Unsupported image extension: gif"
    );
    assert_eq!(check_wallpaper_extension("C:\\w\\a").unwrap_err(), "Unsupported image extension: ");
    let n1 = wallpaper_cache_name("C:\\w\\a.jpg", 1, 2, 200, 200);
    let n2 = wallpaper_cache_name("C:\\w\\a.jpg", 1, 2, 200, 201);
    assert!(n1.ends_with(".png"));
    assert_eq!(n1.len(), 68);
    assert_ne!(n1, n2);
}

#[test]
fn cache_eviction_counts() {
    assert_eq!(eviction_count(&vec![10, 10, 10], 30), 0);
    assert_eq!(eviction_count(&vec![10, 10, 10, 10], 30), 2);
    assert_eq!(eviction_count(&vec![100, 1], 40), 1);
    assert_eq!(eviction_count(&vec![1, 1, 100], 40), 3);
}

#[test]
fn diagnostics_report_lists_displays() {
    let d = BrightnessDisplay {
        id: "disp_1".to_string(),
        generation: 1,
        name: "Panel".to_string(),
        connection: None,
        is_primary: true,
        backend: Some(BrightnessBackend::DdcVcp),
        probe_state: ProbeState::ReadOk,
        verification: VerificationState::UserConfirmed,
        current_percent: Some(40),
        target_percent: None,
        raw_min: Some(0),
        raw_max: None,
        available_levels: Some(vec![0, 50, 100]),
        busy: false,
        error: Some(BrightnessError {
            code: "x".to_string(),
            native_code: Some(5),
            operation: "op".to_string(),
            retryable: true,
        }),
        device_name: None,
    };
    let r = generate_diagnostics_report(&vec![d], "1.2.3", "2026-01-01T00:00:00+00:00");
    let expected = "Avel Brightness Diagnostics Report (v1.2.3)\n\
Generated at: 2026-01-01T00:00:00+00:00\n\
----------------------------------------\n\
Detected Displays: 1\n\n\
[Display #1]\n  ID: disp_1\n  Name: Panel\n  Primary: true\n  Connection: Unknown\n  Backend: ddc_vcp\n  \
Probe State: ReadOk\n  Verification: user_confirmed\n  Current Brightness: 40%\n  Raw Range: [0 - —]\n  \
Supported Discrete Levels: [0, 50, 100]\n  Last Error: x (op: op, code: Some(5), retryable: true)\n\n\
----------------------------------------\nEnd of Report\n";
    assert_eq!(r, expected);
}

#[test]
fn display_ids_are_digests() {
    let id = avel_lib::brightness::hardware::compute_display_id("\\\\.\\DISPLAY1", "Generic", 0);
    assert!(id.starts_with("disp_"));
    assert_eq!(id.len(), 17);
    assert_ne!(id, avel_lib::brightness::hardware::compute_display_id("\\\\.\\DISPLAY1", "Generic", 1));
}

#[test]
fn same_decoded_image_compares_sides_and_pixels() {
    let a = vec![1u8, 2, 3, 255];
    let b = vec![1u8, 2, 3, 255];
    let c = vec![1u8, 2, 4, 255];
    assert!(same_decoded_image(1, 1, &a, 1, 1, &b));
    assert!(!same_decoded_image(1, 1, &a, 1, 1, &c));
    assert!(!same_decoded_image(1, 1, &a, 2, 1, &b));
}

#[test]
fn hardware_test_phases_finish_within_five_steps() {
    // The monitor never takes the original value back.
    let mut phase = TestPhase::ShowTestValue;
    let mut steps = 0;
    while !matches!(phase, TestPhase::Finish { .. }) {
        let readback = match phase {
            TestPhase::ConfirmTestValue => Some(40),
            _ => Some(7),
        };
        phase = next_test_phase(phase, true, readback, 40, 50);
        steps += 1;
    }
    assert_eq!(steps, 5);
    assert_eq!(phase, TestPhase::Finish { restored: false, confirmed: true });

    // The first restore attempt succeeds; the test value did not read back.
    let p = next_test_phase(TestPhase::ConfirmTestValue, true, Some(41), 40, 50);
    assert_eq!(p, TestPhase::RestoreOriginal { confirmed: false, attempt: 0 });
    let p = next_test_phase(p, true, Some(50), 40, 50);
    assert_eq!(p, TestPhase::Finish { restored: true, confirmed: false });

    // A failed write is retried; an unreadable monitor counts as restored.
    let p = next_test_phase(TestPhase::RestoreOriginal { confirmed: true, attempt: 1 }, false, None, 40, 50);
    assert_eq!(p, TestPhase::RestoreOriginal { confirmed: true, attempt: 2 });
    let p = next_test_phase(p, true, None, 40, 50);
    assert_eq!(p, TestPhase::Finish { restored: true, confirmed: true });
}

#[test]
fn notification_names_decode_surrogates() {
    let mut buf = vec![0u8; 32];
    buf[0..4].copy_from_slice(&0u32.to_le_bytes());
    buf[8..12].copy_from_slice(&8u32.to_le_bytes());
    // U+1F600 as a surrogate pair, then a lone low surrogate, then 'x'
    buf[12..14].copy_from_slice(&0xD83Du16.to_le_bytes());
    buf[14..16].copy_from_slice(&0xDE00u16.to_le_bytes());
    buf[16..18].copy_from_slice(&0xDC00u16.to_le_bytes());
    buf[18..20].copy_from_slice(&(b'x' as u16).to_le_bytes());
    assert_eq!(notify_file_names(&buf, 32), vec!["\u{1F600}\u{FFFD}x".to_string()]);
}
