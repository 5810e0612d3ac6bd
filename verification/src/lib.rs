//! Verified core of a desktop utility: clipboard history classification,
//! hotkey parsing, clean-desktop mode control, monitor brightness control and
//! the helpers they share.
use vstd::prelude::*;

pub mod brightness;
pub mod clipboard;
pub mod desktop;
pub mod hotkeys;
pub mod imaging;
pub mod paths;
pub mod recent;
pub mod screenshots;
pub mod store;
pub mod text;
pub mod theme;
pub mod thumbnails;
pub mod types;

verus! {
} // verus!
