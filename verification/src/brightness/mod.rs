//! Monitor brightness: data model, value conversions and the decisions of the
//! brightness service.
pub mod backend;
pub mod control;
pub mod diagnostics;
pub mod discovery;
pub mod events;
pub mod hardware;
pub mod levels;
pub mod model;

pub use backend::{MonitorHardware, NativeBrightnessBackend};
pub use hardware::BrightnessDeviceBackend;
pub use levels::{find_nearest_level, percent_to_raw, raw_to_percent};
pub use model::{
    BrightnessBackend, BrightnessDisplay, BrightnessError, BrightnessMonitorPreference,
    BrightnessPreferences, BrightnessStateSnapshot, BrightnessTestRecoveryRecord, ProbeState,
    VerificationState,
};
