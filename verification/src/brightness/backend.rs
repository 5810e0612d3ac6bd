//! The native brightness backend: it finds the monitor a display id names
//! and drives it through WMI or DDC/CI, over the monitor interface of the
//! operating system.
use vstd::prelude::*;

use crate::brightness::hardware::{
    find_physical_monitor, interpret_ddc_high_read, interpret_ddc_vcp_read, interpret_ddc_write,
    is_not_found, is_unsupported, physical_not_found, unsupported_backend,
    wmi_read_result, wmi_write_target, find_wmi_monitor, BrightnessDeviceBackend, BrightnessReadResult,
    EnumeratedMonitor, WmiBrightnessInfo,
};
use crate::brightness::levels::distance_in_range;
use crate::brightness::model::{BrightnessBackend, BrightnessDisplay, BrightnessError};

verus! {

/// The monitor interface of the operating system, as the native backend
/// uses it. The application implements it over the Windows APIs; nothing is
/// assumed of what it answers.
pub trait MonitorHardware: Send + Sync {
    /// The monitors that WMI lists with their brightness levels.
    fn wmi_monitors(&self) -> Result<Vec<WmiBrightnessInfo>, BrightnessError>;

    /// Sets the level of the WMI monitor with this instance name.
    fn set_wmi_level(&self, instance_name: &str, level: u32) -> Result<(), BrightnessError>;

    /// The display devices and their physical monitors; each handle stays
    /// open until it is released.
    fn physical_monitors(&self) -> Vec<EnumeratedMonitor>;

    /// Closes a physical monitor handle.
    fn release_physical_monitor(&self, handle: isize);

    /// `GetMonitorBrightness`: whether the call succeeded, and minimum,
    /// current and maximum.
    fn monitor_brightness(&self, handle: isize) -> (bool, u32, u32, u32);

    /// `SetMonitorBrightness`: whether the call succeeded.
    fn set_monitor_brightness(&self, handle: isize, raw: u32) -> bool;

    /// VCP code 0x10 read: whether the call succeeded, current and maximum.
    fn vcp_brightness(&self, handle: isize) -> (bool, u32, u32);

    /// VCP code 0x10 write: whether the call succeeded.
    fn set_vcp_brightness(&self, handle: isize, raw: u32) -> bool;
}

/// The backend that drives real monitors. Without a monitor interface it
/// finds no monitor at all.
pub struct NativeBrightnessBackend {
    hardware: Option<Box<dyn MonitorHardware>>,
}

/// A DDC/CI request on one physical monitor.
enum DdcRequest {
    ReadHigh,
    ReadVcp,
    WriteHigh(u32),
    WriteVcp(u32),
}

impl NativeBrightnessBackend {
    /// A backend without a monitor interface.
    pub fn new() -> (b: Self)
        ensures
            !b.has_hardware(),
    {
        NativeBrightnessBackend { hardware: None }
    }

    /// A backend over the given monitor interface.
    pub fn with_hardware(hardware: Box<dyn MonitorHardware>) -> (b: Self)
        ensures
            b.has_hardware(),
    {
        NativeBrightnessBackend { hardware: Some(hardware) }
    }

    /// The backend has a monitor interface.
    pub closed spec fn has_hardware(&self) -> bool {
        self.hardware is Some
    }

    /// Runs a DDC/CI request on the first physical monitor that answers to
    /// the display id, then releases every handle that was opened.
    fn with_physical_monitor(hw: &Box<dyn MonitorHardware>, display_id: &str, request: DdcRequest) -> (r: BrightnessReadResult)
        ensures
            request is ReadHigh ==> match r {
                Ok(v) => v.0 < v.2 && v.3 is None,
                Err(e) => is_not_found(e, "with_physical_monitor"@) || ddc_failure(e, "ddc_read_failed"@, "GetMonitorBrightness"@),
            },
            request is ReadVcp ==> match r {
                Ok(v) => v.0 == 0 && 0 < v.2 && v.3 is None,
                Err(e) => is_not_found(e, "with_physical_monitor"@) || ddc_failure(e, "ddc_vcp_read_failed"@, "GetVCPFeature(0x10)"@),
            },
            request matches DdcRequest::WriteHigh(_) ==> (r matches Err(e) ==> is_not_found(e, "with_physical_monitor"@)
                || ddc_failure(e, "ddc_write_failed"@, "SetMonitorBrightness"@)),
            request matches DdcRequest::WriteVcp(_) ==> (r matches Err(e) ==> is_not_found(e, "with_physical_monitor"@)
                || ddc_failure(e, "ddc_vcp_write_failed"@, "SetVCPFeature(0x10)"@)),
    {
        let monitors = hw.physical_monitors();
        let result = match find_physical_monitor(&monitors, display_id) {
            Some((d, p)) => {
                let handle = monitors[d].physical_handles[p].0;
                match request {
                    DdcRequest::ReadHigh => {
                        let (ok, min, cur, max) = hw.monitor_brightness(handle);
                        match interpret_ddc_high_read(ok, min, cur, max) {
                            Ok(v) => Ok((v.0, v.1, v.2, None)),
                            Err(e) => Err(e),
                        }
                    },
                    DdcRequest::ReadVcp => {
                        let (ok, cur, max) = hw.vcp_brightness(handle);
                        match interpret_ddc_vcp_read(ok, cur, max) {
                            Ok(v) => Ok((v.0, v.1, v.2, None)),
                            Err(e) => Err(e),
                        }
                    },
                    DdcRequest::WriteHigh(raw) => {
                        let ok = hw.set_monitor_brightness(handle, raw);
                        match interpret_ddc_write(ok, false) {
                            Ok(()) => Ok((raw, raw, raw, None)),
                            Err(e) => Err(e),
                        }
                    },
                    DdcRequest::WriteVcp(raw) => {
                        let ok = hw.set_vcp_brightness(handle, raw);
                        match interpret_ddc_write(ok, true) {
                            Ok(()) => Ok((raw, raw, raw, None)),
                            Err(e) => Err(e),
                        }
                    },
                }
            },
            None => Err(physical_not_found()),
        };
        let mut d: usize = 0;
        while d < monitors.len()
            decreases monitors.len() - d,
        {
            let mut p: usize = 0;
            while p < monitors[d].physical_handles.len()
                invariant
                    d < monitors@.len(),
                decreases monitors@[d as int].physical_handles@.len() - p,
            {
                hw.release_physical_monitor(monitors[d].physical_handles[p].0);
                p = p + 1;
            }
            d = d + 1;
        }
        result
    }
}

/// A DDC/CI call that the monitor did not answer: retryable, without a
/// native code.
pub open spec fn ddc_failure(e: BrightnessError, code: Seq<char>, operation: Seq<char>) -> bool {
    e.code@ == code && e.operation@ == operation && e.retryable && e.native_code is None
}

/// Every level a monitor lists is within the distance that the level search
/// can measure from `raw` (its arithmetic is 32-bit signed).
pub open spec fn levels_measurable(levels: Seq<u32>, raw: u32) -> bool {
    forall|j: int| 0 <= j < levels.len() ==> distance_in_range(raw, #[trigger] levels[j])
}

fn levels_in_range(levels: &Vec<u32>, raw: u32) -> (r: bool)
    ensures
        r == levels_measurable(levels@, raw),
{
    let mut j: usize = 0;
    while j < levels.len()
        invariant
            j <= levels@.len(),
            forall|b: int| 0 <= b < j ==> distance_in_range(raw, #[trigger] levels@[b]),
        decreases levels.len() - j,
    {
        let l = levels[j];
        let ra: i64 = if raw <= 0x7fff_ffff { raw as i64 } else { raw as i64 - 0x1_0000_0000 };
        let la: i64 = if l <= 0x7fff_ffff { l as i64 } else { l as i64 - 0x1_0000_0000 };
        if ra - la < -0x7fff_ffff || ra - la > 0x7fff_ffff {
            return false;
        }
        j = j + 1;
    }
    true
}

impl BrightnessDeviceBackend for NativeBrightnessBackend {
    /// Reads a display through its backend: WMI gives the monitor's level on
    /// a 0..100 range and its level list, DDC/CI the monitor's own range.
    fn read_brightness(&self, display: &BrightnessDisplay) -> (r: BrightnessReadResult)
        ensures
            display.backend is None ==> (r matches Err(e) && is_unsupported(e, "read_brightness"@)),
            display.backend == Some(BrightnessBackend::Wmi) && !self.has_hardware() ==> (r matches Err(e)
                && is_not_found(e, "read_wmi_monitors"@)),
            display.backend is Some && display.backend != Some(BrightnessBackend::Wmi) && !self.has_hardware()
                ==> (r matches Err(e) && is_not_found(e, "with_physical_monitor"@)),
            display.backend == Some(BrightnessBackend::Wmi) ==> (r matches Ok(v) ==> v.0 == 0 && v.2 == 100),
            display.backend == Some(BrightnessBackend::DdcHigh) ==> match r {
                Ok(v) => v.0 < v.2 && v.3 is None,
                Err(e) => is_not_found(e, "with_physical_monitor"@) || ddc_failure(e, "ddc_read_failed"@, "GetMonitorBrightness"@),
            },
            display.backend == Some(BrightnessBackend::DdcVcp) ==> match r {
                Ok(v) => v.0 == 0 && 0 < v.2 && v.3 is None,
                Err(e) => is_not_found(e, "with_physical_monitor"@) || ddc_failure(e, "ddc_vcp_read_failed"@, "GetVCPFeature(0x10)"@),
            },
    {
        match display.backend {
            None => Err(unsupported_backend("read_brightness")),
            Some(BrightnessBackend::Wmi) => {
                match &self.hardware {
                    None => wmi_read_result(&Vec::new(), display.id.as_str()),
                    Some(hw) => match hw.wmi_monitors() {
                        Ok(monitors) => wmi_read_result(&monitors, display.id.as_str()),
                        Err(e) => Err(e),
                    },
                }
            },
            Some(BrightnessBackend::DdcHigh) => match &self.hardware {
                None => Err(physical_not_found()),
                Some(hw) => Self::with_physical_monitor(hw, display.id.as_str(), DdcRequest::ReadHigh),
            },
            Some(BrightnessBackend::DdcVcp) => match &self.hardware {
                None => Err(physical_not_found()),
                Some(hw) => Self::with_physical_monitor(hw, display.id.as_str(), DdcRequest::ReadVcp),
            },
        }
    }

    /// Writes a raw value through the display's backend; over WMI the value
    /// goes to the nearest level the monitor lists. A value whose distance
    /// to some level that the addressed monitor lists does not fit the 32-bit
    /// signed arithmetic of the level search is refused with
    /// `level_out_of_range`.
    fn write_brightness(&self, display: &BrightnessDisplay, raw_value: u32) -> (r: Result<(), BrightnessError>)
        ensures
            display.backend is None ==> (r matches Err(e) && is_unsupported(e, "write_brightness"@)),
            display.backend == Some(BrightnessBackend::Wmi) && !self.has_hardware() ==> (r matches Err(e)
                && is_not_found(e, "write_wmi_brightness"@)),
            display.backend is Some && display.backend != Some(BrightnessBackend::Wmi) && !self.has_hardware()
                ==> (r matches Err(e) && is_not_found(e, "with_physical_monitor"@)),
            display.backend == Some(BrightnessBackend::DdcHigh) ==> (r matches Err(e) ==> is_not_found(e, "with_physical_monitor"@)
                || ddc_failure(e, "ddc_write_failed"@, "SetMonitorBrightness"@)),
            display.backend == Some(BrightnessBackend::DdcVcp) ==> (r matches Err(e) ==> is_not_found(e, "with_physical_monitor"@)
                || ddc_failure(e, "ddc_vcp_write_failed"@, "SetVCPFeature(0x10)"@)),
    {
        match display.backend {
            None => Err(unsupported_backend("write_brightness")),
            Some(BrightnessBackend::Wmi) => {
                let monitors = match &self.hardware {
                    None => Vec::new(),
                    Some(hw) => match hw.wmi_monitors() {
                        Ok(monitors) => monitors,
                        Err(e) => return Err(e),
                    },
                };
                match find_wmi_monitor(&monitors, display.id.as_str()) {
                    None => Err(BrightnessError::new("device_not_found", "write_wmi_brightness", false)),
                    Some(i) => {
                        if !levels_in_range(&monitors[i].levels, raw_value) {
                            return Err(BrightnessError::new("level_out_of_range", "write_wmi_brightness", false));
                        }
                        match wmi_write_target(&monitors, display.id.as_str(), raw_value) {
                            Ok((k, level)) => match &self.hardware {
                                Some(hw) => hw.set_wmi_level(monitors[k].instance_name.as_str(), level),
                                None => Err(BrightnessError::new("device_not_found", "write_wmi_brightness", false)),
                            },
                            Err(e) => Err(e),
                        }
                    },
                }
            },
            Some(BrightnessBackend::DdcHigh) => match &self.hardware {
                None => Err(physical_not_found()),
                Some(hw) => match Self::with_physical_monitor(hw, display.id.as_str(), DdcRequest::WriteHigh(raw_value)) {
                    Ok(_) => Ok(()),
                    Err(e) => Err(e),
                },
            },
            Some(BrightnessBackend::DdcVcp) => match &self.hardware {
                None => Err(physical_not_found()),
                Some(hw) => match Self::with_physical_monitor(hw, display.id.as_str(), DdcRequest::WriteVcp(raw_value)) {
                    Ok(_) => Ok(()),
                    Err(e) => Err(e),
                },
            },
        }
    }
}

} // verus!
