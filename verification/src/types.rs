//! Records that the user interface and the persistent store exchange.
use vstd::prelude::*;

use crate::text::owned;

verus! {

/// A global hotkey: a key code in the W3C `KeyboardEvent.code` naming and the
/// modifiers held with it.
#[derive(Debug, Clone)]
pub struct ShortcutSpec {
    pub code: String,
    pub ctrl: bool,
    pub alt: bool,
    pub shift: bool,
    pub meta: bool,
}

impl PartialEq for ShortcutSpec {
    fn eq(&self, other: &Self) -> (r: bool) {
        self.code == other.code && self.ctrl == other.ctrl && self.alt == other.alt && self.shift == other.shift
            && self.meta == other.meta
    }
}

impl vstd::std_specs::cmp::PartialEqSpecImpl for ShortcutSpec {
    open spec fn obeys_eq_spec() -> bool {
        true
    }

    open spec fn eq_spec(&self, other: &Self) -> bool {
        self.code@ == other.code@ && self.ctrl == other.ctrl && self.alt == other.alt && self.shift == other.shift
            && self.meta == other.meta
    }
}

impl Eq for ShortcutSpec {}

/// Application settings.
#[derive(Debug, Clone)]
pub struct AppSettings {
    pub app_theme: String,
    pub language: String,
    pub autostart: bool,
    pub last_section: String,
    pub sidebar_collapsed: bool,
    pub hotkey_clipboard: String,
    pub hotkey_recent: String,
    pub hotkey_appearance: String,
    pub hotkey_desktop: String,
}

pub open spec fn default_hotkey_clipboard() -> Seq<char> {
    "{\"code\":\"Equal\",\"ctrl\":false,\"alt\":false,\"shift\":false,\"meta\":false}"@
}

pub open spec fn default_hotkey_recent() -> Seq<char> {
    "{\"code\":\"F8\",\"ctrl\":false,\"alt\":false,\"shift\":false,\"meta\":false}"@
}

pub open spec fn default_hotkey_appearance() -> Seq<char> {
    "{\"code\":\"KeyD\",\"ctrl\":true,\"alt\":true,\"shift\":false,\"meta\":false}"@
}

pub open spec fn default_hotkey_desktop() -> Seq<char> {
    "{\"code\":\"ArrowDown\",\"ctrl\":false,\"alt\":false,\"shift\":false,\"meta\":false}"@
}

impl Default for AppSettings {
    fn default() -> (s: Self)
        ensures
            s.app_theme@ == "System"@,
            s.language@ == "ru"@,
            !s.autostart,
            s.last_section@ == "clipboard"@,
            !s.sidebar_collapsed,
            s.hotkey_clipboard@ == default_hotkey_clipboard(),
            s.hotkey_recent@ == default_hotkey_recent(),
            s.hotkey_appearance@ == default_hotkey_appearance(),
            s.hotkey_desktop@ == default_hotkey_desktop(),
    {
        AppSettings {
            app_theme: owned("System"),
            language: owned("ru"),
            autostart: false,
            last_section: owned("clipboard"),
            sidebar_collapsed: false,
            hotkey_clipboard: owned(
                "{\"code\":\"Equal\",\"ctrl\":false,\"alt\":false,\"shift\":false,\"meta\":false}",
            ),
            hotkey_recent: owned(
                "{\"code\":\"F8\",\"ctrl\":false,\"alt\":false,\"shift\":false,\"meta\":false}",
            ),
            hotkey_appearance: owned(
                "{\"code\":\"KeyD\",\"ctrl\":true,\"alt\":true,\"shift\":false,\"meta\":false}",
            ),
            hotkey_desktop: owned(
                "{\"code\":\"ArrowDown\",\"ctrl\":false,\"alt\":false,\"shift\":false,\"meta\":false}",
            ),
        }
    }
}

/// One entry of the clipboard history.
#[derive(Debug, Clone)]
pub struct ClipboardItem {
    pub id: i64,
    pub content_type: String,
    pub text_content: Option<String>,
    pub image_path: Option<String>,
    pub thumbnail_b64: Option<String>,
    pub char_count: Option<i64>,
    pub width: Option<u32>,
    pub height: Option<u32>,
    pub hash: String,
    pub created_at: String,
    pub updated_at: String,
    pub is_pinned: bool,
}

/// One recently used file or folder.
#[derive(Debug, Clone)]
pub struct RecentItem {
    pub id: i64,
    pub entry_type: String,
    pub title: String,
    pub path: String,
    pub thumbnail_b64: Option<String>,
    pub last_accessed_at: String,
    pub is_pinned: bool,
}

/// Theme and wallpaper settings.
#[derive(Debug, Clone)]
pub struct AppearanceConfig {
    pub windows_theme_target: String,
    pub schedule_enabled: bool,
    pub schedule_light_time: String,
    pub schedule_dark_time: String,
    pub switch_wallpaper: bool,
    pub wallpaper_light_path: String,
    pub wallpaper_dark_path: String,
}

impl Default for AppearanceConfig {
    fn default() -> (c: Self)
        ensures
            c.windows_theme_target@ == "System"@,
            !c.schedule_enabled,
            c.schedule_light_time@ == "07:00"@,
            c.schedule_dark_time@ == "19:00"@,
            !c.switch_wallpaper,
            c.wallpaper_light_path@.len() == 0,
            c.wallpaper_dark_path@.len() == 0,
    {
        AppearanceConfig {
            windows_theme_target: owned("System"),
            schedule_enabled: false,
            schedule_light_time: owned("07:00"),
            schedule_dark_time: owned("19:00"),
            switch_wallpaper: false,
            wallpaper_light_path: String::new(),
            wallpaper_dark_path: String::new(),
        }
    }
}

/// What the clean-desktop feature reports: the chosen mode, whether it is in
/// force, and what the operating system actually shows.
#[derive(Debug, Clone)]
pub struct CleanDesktopState {
    pub current_mode: String,
    pub is_hidden: bool,
    pub actual_icons_hidden: bool,
    pub actual_taskbar_hidden: bool,
}

impl Default for CleanDesktopState {
    fn default() -> (s: Self)
        ensures
            s.current_mode@ == "icons"@,
            !s.is_hidden,
            !s.actual_icons_hidden,
            !s.actual_taskbar_hidden,
    {
        CleanDesktopState {
            current_mode: owned("icons"),
            is_hidden: false,
            actual_icons_hidden: false,
            actual_taskbar_hidden: false,
        }
    }
}

} // verus!
