//! Data model of monitor brightness control.
use vstd::prelude::*;

use crate::text::{chars_eq_str, chars_of, owned};

verus! {

/// How a monitor's brightness is driven.
#[derive(Debug, Clone, Copy, PartialEq, Eq, Structural)]
pub enum BrightnessBackend {
    Wmi,
    DdcHigh,
    DdcVcp,
}

/// What probing a monitor found.
#[derive(Debug, Clone, Copy, PartialEq, Eq, Structural)]
pub enum ProbeState {
    NotChecked,
    Checking,
    ReadOk,
    NoResponse,
    Unavailable,
    Ambiguous,
    Disconnected,
}

/// How far the brightness control of a monitor has been confirmed.
#[derive(Debug, Clone, Copy, PartialEq, Eq, Structural)]
pub enum VerificationState {
    NotTested,
    Testing,
    DeviceConfirmed,
    UserConfirmed,
    Failed,
    RecoveryPending,
    Stale,
}

/// The stored name of a backend.
pub open spec fn backend_name(b: BrightnessBackend) -> Seq<char> {
    match b {
        BrightnessBackend::Wmi => "wmi"@,
        BrightnessBackend::DdcHigh => "ddc_high"@,
        BrightnessBackend::DdcVcp => "ddc_vcp"@,
    }
}

/// The backend a stored name denotes, if any.
pub open spec fn backend_from_name(s: Seq<char>) -> Option<BrightnessBackend> {
    if s == "wmi"@ {
        Some(BrightnessBackend::Wmi)
    } else if s == "ddc_high"@ {
        Some(BrightnessBackend::DdcHigh)
    } else if s == "ddc_vcp"@ {
        Some(BrightnessBackend::DdcVcp)
    } else {
        None
    }
}

/// The stored name of a verification state.
pub open spec fn verification_name(v: VerificationState) -> Seq<char> {
    match v {
        VerificationState::NotTested => "not_tested"@,
        VerificationState::Testing => "testing"@,
        VerificationState::DeviceConfirmed => "device_confirmed"@,
        VerificationState::UserConfirmed => "user_confirmed"@,
        VerificationState::Failed => "failed"@,
        VerificationState::RecoveryPending => "recovery_pending"@,
        VerificationState::Stale => "stale"@,
    }
}

/// The verification state a stored name denotes; unknown names read as `NotTested`.
pub open spec fn verification_from_name(s: Seq<char>) -> VerificationState {
    if s == "not_tested"@ {
        VerificationState::NotTested
    } else if s == "testing"@ {
        VerificationState::Testing
    } else if s == "device_confirmed"@ {
        VerificationState::DeviceConfirmed
    } else if s == "user_confirmed"@ {
        VerificationState::UserConfirmed
    } else if s == "failed"@ {
        VerificationState::Failed
    } else if s == "recovery_pending"@ {
        VerificationState::RecoveryPending
    } else if s == "stale"@ {
        VerificationState::Stale
    } else {
        VerificationState::NotTested
    }
}

impl BrightnessBackend {
    pub fn as_str(&self) -> (s: &'static str)
        ensures
            s@ == backend_name(*self),
    {
        match self {
            BrightnessBackend::Wmi => "wmi",
            BrightnessBackend::DdcHigh => "ddc_high",
            BrightnessBackend::DdcVcp => "ddc_vcp",
        }
    }

    pub fn from_str_opt(s: &str) -> (r: Option<Self>)
        ensures
            r == backend_from_name(s@),
    {
        let cs = chars_of(s);
        if chars_eq_str(&cs, "wmi") {
            Some(BrightnessBackend::Wmi)
        } else if chars_eq_str(&cs, "ddc_high") {
            Some(BrightnessBackend::DdcHigh)
        } else if chars_eq_str(&cs, "ddc_vcp") {
            Some(BrightnessBackend::DdcVcp)
        } else {
            None
        }
    }
}

impl VerificationState {
    pub fn as_str(&self) -> (s: &'static str)
        ensures
            s@ == verification_name(*self),
    {
        match self {
            VerificationState::NotTested => "not_tested",
            VerificationState::Testing => "testing",
            VerificationState::DeviceConfirmed => "device_confirmed",
            VerificationState::UserConfirmed => "user_confirmed",
            VerificationState::Failed => "failed",
            VerificationState::RecoveryPending => "recovery_pending",
            VerificationState::Stale => "stale",
        }
    }

    pub fn from_str_safe(s: &str) -> (r: Self)
        ensures
            r == verification_from_name(s@),
    {
        let cs = chars_of(s);
        if chars_eq_str(&cs, "not_tested") {
            VerificationState::NotTested
        } else if chars_eq_str(&cs, "testing") {
            VerificationState::Testing
        } else if chars_eq_str(&cs, "device_confirmed") {
            VerificationState::DeviceConfirmed
        } else if chars_eq_str(&cs, "user_confirmed") {
            VerificationState::UserConfirmed
        } else if chars_eq_str(&cs, "failed") {
            VerificationState::Failed
        } else if chars_eq_str(&cs, "recovery_pending") {
            VerificationState::RecoveryPending
        } else if chars_eq_str(&cs, "stale") {
            VerificationState::Stale
        } else {
            VerificationState::NotTested
        }
    }
}

proof fn lemma_differ_at(a: Seq<char>, b: Seq<char>, i: int)
    requires
        0 <= i < a.len(),
        i < b.len(),
        a[i] != b[i],
    ensures
        a != b,
{
}

/// Reading a backend's stored name back gives the backend.
pub proof fn lemma_backend_name_round_trip(b: BrightnessBackend)
    ensures
        backend_from_name(backend_name(b)) == Some(b),
{
    reveal_strlit("wmi");
    reveal_strlit("ddc_high");
    reveal_strlit("ddc_vcp");
    lemma_differ_at("ddc_high"@, "wmi"@, 0);
    lemma_differ_at("ddc_vcp"@, "wmi"@, 0);
    lemma_differ_at("ddc_vcp"@, "ddc_high"@, 4);
}

/// Reading a verification state's stored name back gives the state.
pub proof fn lemma_verification_name_round_trip(v: VerificationState)
    ensures
        verification_from_name(verification_name(v)) == v,
{
    reveal_strlit("not_tested");
    reveal_strlit("testing");
    reveal_strlit("device_confirmed");
    reveal_strlit("user_confirmed");
    reveal_strlit("failed");
    reveal_strlit("recovery_pending");
    reveal_strlit("stale");
    let names = seq![
        "not_tested"@,
        "testing"@,
        "device_confirmed"@,
        "user_confirmed"@,
        "failed"@,
        "recovery_pending"@,
        "stale"@,
    ];
    assert forall|i: int, j: int| 0 <= i < j < 7 implies names[i] != names[j] by {
        lemma_differ_at(names[i], names[j], 0);
    }
    assert(names[0] != names[1]);
    assert(names[0] != names[2]);
    assert(names[0] != names[3]);
    assert(names[0] != names[4]);
    assert(names[0] != names[5]);
    assert(names[0] != names[6]);
    assert(names[1] != names[2]);
    assert(names[1] != names[3]);
    assert(names[1] != names[4]);
    assert(names[1] != names[5]);
    assert(names[1] != names[6]);
    assert(names[2] != names[3]);
    assert(names[2] != names[4]);
    assert(names[2] != names[5]);
    assert(names[2] != names[6]);
    assert(names[3] != names[4]);
    assert(names[3] != names[5]);
    assert(names[3] != names[6]);
    assert(names[4] != names[5]);
    assert(names[4] != names[6]);
    assert(names[5] != names[6]);
}

/// A failed brightness operation.
#[derive(Debug, Clone)]
pub struct BrightnessError {
    pub code: String,
    pub native_code: Option<u32>,
    pub operation: String,
    pub retryable: bool,
}

impl BrightnessError {
    /// An error without a native code.
    pub fn new(code: &str, operation: &str, retryable: bool) -> (e: Self)
        ensures
            e.code@ == code@,
            e.operation@ == operation@,
            e.native_code is None,
            e.retryable == retryable,
    {
        BrightnessError { code: owned(code), native_code: None, operation: owned(operation), retryable }
    }
}

/// One monitor as the user interface shows it.
#[derive(Debug, Clone)]
pub struct BrightnessDisplay {
    pub id: String,
    pub generation: u64,
    pub name: String,
    pub connection: Option<String>,
    pub is_primary: bool,
    pub backend: Option<BrightnessBackend>,
    pub probe_state: ProbeState,
    pub verification: VerificationState,
    pub current_percent: Option<u32>,
    pub target_percent: Option<u32>,
    pub raw_min: Option<u32>,
    pub raw_max: Option<u32>,
    pub available_levels: Option<Vec<u32>>,
    pub busy: bool,
    pub error: Option<BrightnessError>,
    pub device_name: Option<String>,
}

/// Brightness settings of the whole application.
#[derive(Debug, Clone)]
pub struct BrightnessPreferences {
    pub sync_group: bool,
    pub step_percent: u32,
    pub group_display_ids: Vec<String>,
    pub hotkey_brightness_target: String,
    pub hotkey_brightness_up: Option<String>,
    pub hotkey_brightness_down: Option<String>,
    pub hotkey_brightness_screen: Option<String>,
}

impl Default for BrightnessPreferences {
    fn default() -> (p: Self)
        ensures
            !p.sync_group,
            p.step_percent == 5,
            p.group_display_ids@.len() == 0,
            p.hotkey_brightness_target@ == "cursor"@,
            p.hotkey_brightness_up is None,
            p.hotkey_brightness_down is None,
            p.hotkey_brightness_screen is None,
    {
        BrightnessPreferences {
            sync_group: false,
            step_percent: 5,
            group_display_ids: Vec::new(),
            hotkey_brightness_target: owned("cursor"),
            hotkey_brightness_up: None,
            hotkey_brightness_down: None,
            hotkey_brightness_screen: None,
        }
    }
}

/// Per-monitor settings remembered between runs.
#[derive(Debug, Clone)]
pub struct BrightnessMonitorPreference {
    pub display_key: String,
    pub preferred_backend: Option<BrightnessBackend>,
    pub last_verification_state: VerificationState,
    pub last_verification_connection: Option<String>,
    pub custom_name: Option<String>,
}

/// What must be written back to a monitor if a brightness test is interrupted.
#[derive(Debug, Clone)]
pub struct BrightnessTestRecoveryRecord {
    pub test_id: String,
    pub display_key: String,
    pub connection_key: String,
    pub backend: String,
    pub original_raw: u32,
    pub test_raw: u32,
    pub stage: String,
    pub created_at: String,
}

/// Everything the user interface shows about brightness.
#[derive(Debug, Clone)]
pub struct BrightnessStateSnapshot {
    pub revision: u64,
    pub displays: Vec<BrightnessDisplay>,
    pub preferences: BrightnessPreferences,
    pub active_test_display_id: Option<String>,
}

} // verus!
