//! How monitors are identified and matched, and what the native brightness
//! backend decides around its hardware calls.
use vstd::prelude::*;

use crate::brightness::levels::{distance_in_range, find_nearest_level, nearest_level};
use crate::brightness::model::{BrightnessDisplay, BrightnessError};
use crate::text::{chars_of, dec, owned, push_decimal, push_str, str_eq};
use vstd::string::StringSliceAdditionalSpecFns;

verus! {

/// The lowercase hexadecimal BLAKE3 digest of `data`, as `blake3::hash(data).to_hex()` gives it.
pub uninterp spec fn blake3_hex(data: Seq<u8>) -> Seq<char>;

/// `blake3::hash` rendered with `Hash::to_hex`. The crate's source renders the
/// 32-byte digest as 64 characters of `0123456789abcdef`; that length is all
/// that is stated besides the name.
#[verifier::external_body]
pub(crate) fn blake3_hex_of(data: &[u8]) -> (r: String)
    ensures
        r@ == blake3_hex(data@),
        r@.len() == 64,
{
    blake3::hash(data).to_hex().to_string()
}

/// The first twelve characters of the digest of `s`'s UTF-8 bytes.
pub open spec fn short_digest(s: Seq<char>) -> Seq<char> {
    blake3_hex(vstd::utf8::encode_utf8(s)).take(12)
}

fn short_digest_exec(s: &String) -> (r: String)
    ensures
        r@ == short_digest(s@),
{
    let bytes = s.as_str().as_bytes();
    let hex = blake3_hex_of(bytes);
    let hv = chars_of(hex.as_str());
    crate::text::string_of_range(&hv, 0, 12)
}

/// The text whose digest identifies a physical monitor.
pub open spec fn display_key_text(device_name: Seq<char>, desc: Seq<char>, phys_idx: nat) -> Seq<char> {
    device_name + ":"@ + desc + ":"@ + dec(phys_idx)
}

/// The stable id of a physical monitor.
pub open spec fn display_id_of(device_name: Seq<char>, desc: Seq<char>, phys_idx: nat) -> Seq<char> {
    "disp_"@ + short_digest(display_key_text(device_name, desc, phys_idx))
}

/// The stable id of a monitor driven through WMI.
pub open spec fn wmi_id_of(instance_name: Seq<char>) -> Seq<char> {
    "wmi_"@ + short_digest(instance_name)
}

/// The id of the `phys_idx`-th physical monitor of a display device.
pub fn compute_display_id(device_name: &str, desc: &str, phys_idx: usize) -> (r: String)
    ensures
        r@ == display_id_of(device_name@, desc@, phys_idx as nat),
{
    let mut key = owned(device_name);
    push_str(&mut key, ":");
    push_str(&mut key, desc);
    push_str(&mut key, ":");
    push_decimal(&mut key, phys_idx as u64);
    let d = short_digest_exec(&key);
    let mut r = owned("disp_");
    push_str(&mut r, d.as_str());
    r
}

/// The id of a WMI monitor.
pub fn wmi_display_id(instance_name: &String) -> (r: String)
    ensures
        r@ == wmi_id_of(instance_name@),
{
    let d = short_digest_exec(instance_name);
    let mut r = owned("wmi_");
    push_str(&mut r, d.as_str());
    r
}

/// A monitor as WMI reports it.
#[derive(Debug, Clone)]
pub struct WmiBrightnessInfo {
    pub instance_name: String,
    pub current: u32,
    pub levels: Vec<u32>,
}

/// A display device and the physical monitors behind it (handle, description).
#[derive(Debug, Clone)]
pub struct EnumeratedMonitor {
    pub device_name: String,
    pub is_primary: bool,
    pub physical_handles: Vec<(isize, String)>,
}

/// A WMI monitor answers to a display id by its digest id or its instance name.
pub open spec fn wmi_matches(m: WmiBrightnessInfo, display_id: Seq<char>) -> bool {
    wmi_id_of(m.instance_name@) == display_id || m.instance_name@ == display_id
}

/// Index of the first WMI monitor that answers to `display_id`.
pub fn find_wmi_monitor(monitors: &Vec<WmiBrightnessInfo>, display_id: &str) -> (r: Option<usize>)
    ensures
        r matches Some(i) ==> i < monitors@.len() && wmi_matches(monitors@[i as int], display_id@)
            && forall|j: int| 0 <= j < i ==> !wmi_matches(#[trigger] monitors@[j], display_id@),
        r is None ==> forall|j: int| 0 <= j < monitors@.len() ==> !wmi_matches(#[trigger] monitors@[j], display_id@),
{
    let mut i: usize = 0;
    while i < monitors.len()
        invariant
            i <= monitors@.len(),
            forall|j: int| 0 <= j < i ==> !wmi_matches(#[trigger] monitors@[j], display_id@),
        decreases monitors.len() - i,
    {
        let id = wmi_display_id(&monitors[i].instance_name);
        if str_eq(id.as_str(), display_id) || str_eq(monitors[i].instance_name.as_str(), display_id) {
            return Some(i);
        }
        i = i + 1;
    }
    None
}

/// What a backend reads: minimum, current and maximum raw value, and the
/// discrete levels if the monitor has them.
pub type BrightnessReadResult = Result<(u32, u32, u32, Option<Vec<u32>>), BrightnessError>;

/// A brightness driver. The application implements it over the hardware;
/// tests implement it over plain values.
pub trait BrightnessDeviceBackend: Send + Sync {
    fn read_brightness(&self, display: &BrightnessDisplay) -> BrightnessReadResult;

    fn write_brightness(&self, display: &BrightnessDisplay, raw_value: u32) -> Result<(), BrightnessError>;
}

/// The error of a monitor that the backend cannot find.
pub open spec fn is_not_found(e: BrightnessError, operation: Seq<char>) -> bool {
    e.code@ == "device_not_found"@ && e.operation@ == operation && e.native_code is None && !e.retryable
}

/// The error of a display without a backend.
pub open spec fn is_unsupported(e: BrightnessError, operation: Seq<char>) -> bool {
    e.code@ == "unsupported_backend"@ && e.operation@ == operation && e.native_code is None && !e.retryable
}

/// The WMI reading for `display_id`: range 0..100, the monitor's current
/// level, and its levels when it lists any.
pub fn wmi_read_result(monitors: &Vec<WmiBrightnessInfo>, display_id: &str) -> (r: BrightnessReadResult)
    ensures
        r is Err <==> forall|j: int| 0 <= j < monitors@.len() ==> !wmi_matches(#[trigger] monitors@[j], display_id@),
        r matches Err(e) ==> is_not_found(e, "read_wmi_monitors"@),
        r matches Ok(v) ==> exists|i: int| 0 <= i < monitors@.len() && wmi_matches(#[trigger] monitors@[i], display_id@)
            && (forall|j: int| 0 <= j < i ==> !wmi_matches(#[trigger] monitors@[j], display_id@))
            && v.0 == 0 && v.1 == monitors@[i].current && v.2 == 100
            && (if monitors@[i].levels@.len() == 0 { v.3 is None } else { v.3 is Some && v.3->0@ == monitors@[i].levels@ }),
{
    match find_wmi_monitor(monitors, display_id) {
        Some(i) => {
            let m = &monitors[i];
            let levels = if m.levels.len() == 0 {
                None
            } else {
                Some(m.levels.clone())
            };
            Ok((0, m.current, 100, levels))
        },
        None => Err(BrightnessError::new("device_not_found", "read_wmi_monitors", false)),
    }
}

/// The WMI level a raw value maps to on a monitor: the nearest listed level,
/// or the value capped at 100 when the monitor lists none.
pub open spec fn wmi_level(m: WmiBrightnessInfo, raw: u32) -> u32 {
    nearest_level(raw, m.levels@)
}

/// The WMI monitor and level that writing `raw` to `display_id` addresses.
pub fn wmi_write_target(monitors: &Vec<WmiBrightnessInfo>, display_id: &str, raw: u32) -> (r: Result<(usize, u32), BrightnessError>)
    requires
        forall|i: int| #![trigger monitors@[i]] 0 <= i < monitors@.len() && wmi_matches(monitors@[i], display_id@)
            && (forall|k: int| 0 <= k < i ==> !wmi_matches(#[trigger] monitors@[k], display_id@))
            ==> forall|j: int| 0 <= j < monitors@[i].levels@.len() ==> distance_in_range(raw, #[trigger] monitors@[i].levels@[j]),
    ensures
        r is Err <==> forall|j: int| 0 <= j < monitors@.len() ==> !wmi_matches(#[trigger] monitors@[j], display_id@),
        r matches Err(e) ==> is_not_found(e, "write_wmi_brightness"@),
        r matches Ok(v) ==> v.0 < monitors@.len() && wmi_matches(monitors@[v.0 as int], display_id@)
            && (forall|j: int| 0 <= j < v.0 ==> !wmi_matches(#[trigger] monitors@[j], display_id@))
            && v.1 == wmi_level(monitors@[v.0 as int], raw),
{
    match find_wmi_monitor(monitors, display_id) {
        Some(i) => {
            let level = find_nearest_level(raw, monitors[i].levels.as_slice());
            Ok((i, level))
        },
        None => Err(BrightnessError::new("device_not_found", "write_wmi_brightness", false)),
    }
}

/// The physical monitor `(device, index)` answers to `display_id`.
pub open spec fn physical_matches(ms: Seq<EnumeratedMonitor>, d: int, p: int, display_id: Seq<char>) -> bool {
    0 <= d < ms.len() && 0 <= p < ms[d].physical_handles@.len()
        && display_id_of(ms[d].device_name@, ms[d].physical_handles@[p].1@, p as nat) == display_id
}

/// `(d, p)` comes before `(d2, p2)` in enumeration order.
pub open spec fn before(d: int, p: int, d2: int, p2: int) -> bool {
    d < d2 || (d == d2 && p < p2)
}

/// The first physical monitor, in enumeration order, that answers to `display_id`.
pub fn find_physical_monitor(monitors: &Vec<EnumeratedMonitor>, display_id: &str) -> (r: Option<(usize, usize)>)
    ensures
        r matches Some(t) ==> physical_matches(monitors@, t.0 as int, t.1 as int, display_id@)
            && forall|d: int, p: int| before(d, p, t.0 as int, t.1 as int) ==> !physical_matches(monitors@, d, p, display_id@),
        r is None ==> forall|d: int, p: int| !physical_matches(monitors@, d, p, display_id@),
{
    let mut d: usize = 0;
    while d < monitors.len()
        invariant
            d <= monitors@.len(),
            forall|dd: int, p: int| dd < d ==> !physical_matches(monitors@, dd, p, display_id@),
        decreases monitors.len() - d,
    {
        let em = &monitors[d];
        let mut p: usize = 0;
        while p < em.physical_handles.len()
            invariant
                d < monitors@.len(),
                *em == monitors@[d as int],
                p <= em.physical_handles@.len(),
                forall|dd: int, pp: int| dd < d ==> !physical_matches(monitors@, dd, pp, display_id@),
                forall|pp: int| pp < p ==> !physical_matches(monitors@, d as int, pp, display_id@),
            decreases em.physical_handles.len() - p,
        {
            let id = compute_display_id(em.device_name.as_str(), em.physical_handles[p].1.as_str(), p);
            if str_eq(id.as_str(), display_id) {
                return Some((d, p));
            }
            p = p + 1;
        }
        d = d + 1;
    }
    None
}

/// The result of a DDC/CI read with the high-level monitor API: a range is
/// only accepted when the call succeeded and the maximum exceeds the minimum.
pub fn interpret_ddc_high_read(call_ok: bool, min: u32, cur: u32, max: u32) -> (r: Result<(u32, u32, u32), BrightnessError>)
    ensures
        r is Ok <==> call_ok && max > min,
        r matches Ok(v) ==> v == (min, cur, max),
        r matches Err(e) ==> e.code@ == "ddc_read_failed"@ && e.operation@ == "GetMonitorBrightness"@ && e.retryable && e.native_code is None,
{
    if call_ok && max > min {
        Ok((min, cur, max))
    } else {
        Err(BrightnessError::new("ddc_read_failed", "GetMonitorBrightness", true))
    }
}

/// The result of reading VCP code 0x10: accepted when the call succeeded and
/// the maximum is positive; the minimum is 0.
pub fn interpret_ddc_vcp_read(call_ok: bool, cur: u32, max: u32) -> (r: Result<(u32, u32, u32), BrightnessError>)
    ensures
        r is Ok <==> call_ok && max > 0,
        r matches Ok(v) ==> v == (0u32, cur, max),
        r matches Err(e) ==> e.code@ == "ddc_vcp_read_failed"@ && e.operation@ == "GetVCPFeature(0x10)"@ && e.retryable && e.native_code is None,
{
    if call_ok && max > 0 {
        Ok((0, cur, max))
    } else {
        Err(BrightnessError::new("ddc_vcp_read_failed", "GetVCPFeature(0x10)", true))
    }
}

/// The result of a DDC/CI write call.
pub fn interpret_ddc_write(call_ok: bool, vcp: bool) -> (r: Result<(), BrightnessError>)
    ensures
        r is Ok <==> call_ok,
        r matches Err(e) ==> e.retryable && e.native_code is None && if vcp {
            e.code@ == "ddc_vcp_write_failed"@ && e.operation@ == "SetVCPFeature(0x10)"@
        } else {
            e.code@ == "ddc_write_failed"@ && e.operation@ == "SetMonitorBrightness"@
        },
{
    if call_ok {
        Ok(())
    } else if vcp {
        Err(BrightnessError::new("ddc_vcp_write_failed", "SetVCPFeature(0x10)", true))
    } else {
        Err(BrightnessError::new("ddc_write_failed", "SetMonitorBrightness", true))
    }
}

/// The error for a physical monitor that is no longer present.
pub fn physical_not_found() -> (e: BrightnessError)
    ensures
        is_not_found(e, "with_physical_monitor"@),
{
    BrightnessError::new("device_not_found", "with_physical_monitor", false)
}

/// The error for a display that has no backend, for the named operation.
pub fn unsupported_backend(operation: &str) -> (e: BrightnessError)
    ensures
        is_unsupported(e, operation@),
{
    BrightnessError::new("unsupported_backend", operation, false)
}

} // verus!
