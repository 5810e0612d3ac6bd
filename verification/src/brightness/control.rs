//! The decisions of the brightness service over its state snapshot: which
//! monitor a request names, what a request changes, which writes a burst of
//! requests comes down to, how a hardware test is planned and how its outcome
//! is recorded.
use vstd::prelude::*;

use crate::brightness::levels::{as_i32, percent_of, percent_to_raw, raw_of, raw_to_percent};
use crate::brightness::model::{
    backend_name, BrightnessDisplay, BrightnessError, BrightnessMonitorPreference,
    BrightnessPreferences, BrightnessStateSnapshot, BrightnessTestRecoveryRecord, ProbeState,
    VerificationState,
};
use crate::text::{dec, decimal, push_decimal};
use crate::text::{chars_eq_str, owned, str_eq};

verus! {

/// `ds[i]` is the first display whose id is `id`.
pub open spec fn is_first_with_id(ds: Seq<BrightnessDisplay>, id: Seq<char>, i: int) -> bool {
    &&& 0 <= i < ds.len()
    &&& ds[i].id@ == id
    &&& forall|j: int| 0 <= j < i ==> (#[trigger] ds[j]).id@ != id
}

/// Some display has the id `id`.
pub open spec fn has_id(ds: Seq<BrightnessDisplay>, id: Seq<char>) -> bool {
    exists|i: int| 0 <= i < ds.len() && (#[trigger] ds[i]).id@ == id
}

/// Index of the first display whose id is `id`.
pub fn find_display(ds: &Vec<BrightnessDisplay>, id: &str) -> (r: Option<usize>)
    ensures
        r matches Some(i) ==> is_first_with_id(ds@, id@, i as int),
        r is None ==> !has_id(ds@, id@),
{
    let mut i: usize = 0;
    while i < ds.len()
        invariant
            i <= ds@.len(),
            forall|j: int| 0 <= j < i ==> (#[trigger] ds@[j]).id@ != id@,
        decreases ds.len() - i,
    {
        if str_eq(ds[i].id.as_str(), id) {
            return Some(i);
        }
        i = i + 1;
    }
    None
}

/// A write that the brightness worker performs.
#[derive(Debug, Clone)]
pub struct WriteCommand {
    pub display_id: String,
    pub target_percent: u32,
    pub generation: u64,
}

pub open spec fn display_not_found_message() -> Seq<char> {
    "Дисплей не найден"@
}

pub open spec fn device_not_ready_message() -> Seq<char> {
    "Устройство не готово к регулировке"@
}

/// `p` capped at 100.
pub open spec fn cap_percent(p: u32) -> u32 {
    if p > 100 {
        100
    } else {
        p
    }
}

/// `d` with a new target and marked busy.
pub open spec fn with_target(d: BrightnessDisplay, pct: u32) -> BrightnessDisplay {
    BrightnessDisplay { target_percent: Some(pct), busy: true, ..d }
}

/// Asks for `display_id` to be set to `target_percent` (capped at 100): the
/// first display with that id records the target and turns busy, and the write
/// for the worker is returned. A display that is missing, or whose brightness
/// could not be read, is refused and nothing changes.
pub fn request_brightness(
    snapshot: &mut BrightnessStateSnapshot,
    display_id: &str,
    target_percent: u32,
    generation: u64,
) -> (r: Result<WriteCommand, String>)
    ensures
        final(snapshot).displays@.len() == old(snapshot).displays@.len(),
        forall|k: int|
            0 <= k < old(snapshot).displays@.len() ==> same_identity(
                #[trigger] final(snapshot).displays@[k],
                old(snapshot).displays@[k],
            ),
        final(snapshot).revision == old(snapshot).revision,
        final(snapshot).preferences == old(snapshot).preferences,
        final(snapshot).active_test_display_id == old(snapshot).active_test_display_id,
        !has_id(old(snapshot).displays@, display_id@) ==> r is Err && r->Err_0@
            == display_not_found_message() && *final(snapshot) == *old(snapshot),
        forall|i: int|
            is_first_with_id(old(snapshot).displays@, display_id@, i) ==> {
                let d = old(snapshot).displays@[i];
                if d.probe_state != ProbeState::ReadOk {
                    &&& r is Err
                    &&& r->Err_0@ == device_not_ready_message()
                    &&& *final(snapshot) == *old(snapshot)
                } else {
                    &&& r is Ok
                    &&& r->Ok_0.display_id@ == display_id@
                    &&& r->Ok_0.target_percent == cap_percent(target_percent)
                    &&& r->Ok_0.generation == generation
                    &&& final(snapshot).displays@ == old(snapshot).displays@.update(
                        i,
                        with_target(d, cap_percent(target_percent)),
                    )
                    &&& final(snapshot).revision == old(snapshot).revision
                    &&& final(snapshot).preferences == old(snapshot).preferences
                    &&& final(snapshot).active_test_display_id == old(
                        snapshot,
                    ).active_test_display_id
                }
            },
{
    let pct = if target_percent > 100 {
        100
    } else {
        target_percent
    };
    match find_display(&snapshot.displays, display_id) {
        None => Err(owned("Дисплей не найден")),
        Some(i) => {
            if snapshot.displays[i].probe_state != ProbeState::ReadOk {
                return Err(owned("Устройство не готово к регулировке"));
            }
            snapshot.displays[i].target_percent = Some(pct);
            snapshot.displays[i].busy = true;
            Ok(WriteCommand { display_id: owned(display_id), target_percent: pct, generation })
        },
    }
}

/// The characters of an optional string slice.
pub open spec fn opt_view(o: Option<&str>) -> Option<Seq<char>> {
    match o {
        Some(s) => Some(s@),
        None => None,
    }
}

/// The monitor's brightness could be read, so it can be adjusted.
pub open spec fn readable(d: BrightnessDisplay) -> bool {
    d.probe_state == ProbeState::ReadOk
}

/// Index of the first display that satisfies `p`.
pub open spec fn first_where(ds: Seq<BrightnessDisplay>, p: spec_fn(BrightnessDisplay) -> bool) -> Option<int> {
    if exists|i: int| 0 <= i < ds.len() && p(#[trigger] ds[i]) && forall|j: int| 0 <= j < i ==> !p(#[trigger] ds[j]) {
        Some(choose|i: int| 0 <= i < ds.len() && p(#[trigger] ds[i]) && forall|j: int| 0 <= j < i ==> !p(#[trigger] ds[j]))
    } else {
        None
    }
}

proof fn lemma_first_where(ds: Seq<BrightnessDisplay>, p: spec_fn(BrightnessDisplay) -> bool, k: int)
    requires
        0 <= k <= ds.len(),
        forall|j: int| 0 <= j < k ==> !p(#[trigger] ds[j]),
        k < ds.len() ==> p(ds[k]),
    ensures
        k < ds.len() ==> first_where(ds, p) == Some(k),
        k == ds.len() ==> first_where(ds, p) is None,
{
    if k < ds.len() {
        assert(0 <= k < ds.len() && p(ds[k]) && forall|j: int| 0 <= j < k ==> !p(#[trigger] ds[j]));
        let c = choose|i: int| 0 <= i < ds.len() && p(#[trigger] ds[i]) && forall|j: int| 0 <= j < i ==> !p(#[trigger] ds[j]);
        assert(c == k) by {
            if c < k {
                assert(!p(ds[c]));
            } else if c > k {
                assert(!p(ds[k]));
            }
        }
    }
}

pub open spec fn on_device(dev: Seq<char>) -> spec_fn(BrightnessDisplay) -> bool {
    |d: BrightnessDisplay| d.device_name is Some && d.device_name->0@ == dev && readable(d)
}

pub open spec fn primary_readable() -> spec_fn(BrightnessDisplay) -> bool {
    |d: BrightnessDisplay| d.is_primary && readable(d)
}

pub open spec fn any_readable() -> spec_fn(BrightnessDisplay) -> bool {
    |d: BrightnessDisplay| readable(d)
}

fn find_on_device(ds: &Vec<BrightnessDisplay>, dev: &str) -> (r: Option<usize>)
    ensures
        r matches Some(i) ==> first_where(ds@, on_device(dev@)) == Some(i as int) && i < ds@.len(),
        r is None ==> first_where(ds@, on_device(dev@)) is None,
{
    let mut i: usize = 0;
    while i < ds.len()
        invariant
            i <= ds@.len(),
            forall|j: int| 0 <= j < i ==> !on_device(dev@)(#[trigger] ds@[j]),
        decreases ds.len() - i,
    {
        let hit = match &ds[i].device_name {
            Some(n) => str_eq(n.as_str(), dev) && ds[i].probe_state == ProbeState::ReadOk,
            None => false,
        };
        if hit {
            proof {
                lemma_first_where(ds@, on_device(dev@), i as int);
            }
            return Some(i);
        }
        i = i + 1;
    }
    proof {
        lemma_first_where(ds@, on_device(dev@), i as int);
    }
    None
}

fn find_primary_readable(ds: &Vec<BrightnessDisplay>) -> (r: Option<usize>)
    ensures
        r matches Some(i) ==> first_where(ds@, primary_readable()) == Some(i as int) && i < ds@.len(),
        r is None ==> first_where(ds@, primary_readable()) is None,
{
    let mut i: usize = 0;
    while i < ds.len()
        invariant
            i <= ds@.len(),
            forall|j: int| 0 <= j < i ==> !primary_readable()(#[trigger] ds@[j]),
        decreases ds.len() - i,
    {
        if ds[i].is_primary && ds[i].probe_state == ProbeState::ReadOk {
            proof {
                lemma_first_where(ds@, primary_readable(), i as int);
            }
            return Some(i);
        }
        i = i + 1;
    }
    proof {
        lemma_first_where(ds@, primary_readable(), i as int);
    }
    None
}

fn find_readable(ds: &Vec<BrightnessDisplay>) -> (r: Option<usize>)
    ensures
        r matches Some(i) ==> first_where(ds@, any_readable()) == Some(i as int) && i < ds@.len(),
        r is None ==> first_where(ds@, any_readable()) is None,
{
    let mut i: usize = 0;
    while i < ds.len()
        invariant
            i <= ds@.len(),
            forall|j: int| 0 <= j < i ==> !any_readable()(#[trigger] ds@[j]),
        decreases ds.len() - i,
    {
        if ds[i].probe_state == ProbeState::ReadOk {
            proof {
                lemma_first_where(ds@, any_readable(), i as int);
            }
            return Some(i);
        }
        i = i + 1;
    }
    proof {
        lemma_first_where(ds@, any_readable(), i as int);
    }
    None
}

/// Which monitors a relative brightness change applies to.
#[derive(Debug, Clone, Copy, PartialEq, Eq, Structural)]
pub enum AdjustTarget {
    /// Every readable monitor.
    Group,
    /// The monitor under the mouse cursor.
    Cursor,
    /// The primary monitor.
    Primary,
}

/// The target of a relative change: an explicit choice, or the configured
/// one; synchronised groups always change together.
pub open spec fn adjust_target_spec(prefs: BrightnessPreferences, target: Option<Seq<char>>) -> AdjustTarget {
    let m = match target {
        Some(t) => t,
        None => prefs.hotkey_brightness_target@,
    };
    if m == "group"@ || prefs.sync_group {
        AdjustTarget::Group
    } else if m == "cursor"@ {
        AdjustTarget::Cursor
    } else {
        AdjustTarget::Primary
    }
}

pub fn adjust_target(prefs: &BrightnessPreferences, target: Option<&str>) -> (r: AdjustTarget)
    ensures
        r == adjust_target_spec(*prefs, match target {
            Some(t) => Some(t@),
            None => None,
        }),
{
    let m = match target {
        Some(t) => crate::text::chars_of(t),
        None => crate::text::chars_of(prefs.hotkey_brightness_target.as_str()),
    };
    if chars_eq_str(&m, "group") || prefs.sync_group {
        AdjustTarget::Group
    } else if chars_eq_str(&m, "cursor") {
        AdjustTarget::Cursor
    } else {
        AdjustTarget::Primary
    }
}

/// The monitor a single-monitor change applies to: for the cursor target the
/// readable monitor under the cursor, else the readable primary monitor, else
/// the first readable monitor.
#[verifier::opaque]
pub open spec fn single_target(ds: Seq<BrightnessDisplay>, mode: AdjustTarget, cursor_device: Option<Seq<char>>) -> Option<int> {
    let by_cursor = match (mode, cursor_device) {
        (AdjustTarget::Cursor, Some(dev)) => first_where(ds, on_device(dev)),
        _ => None,
    };
    if by_cursor is Some {
        by_cursor
    } else if first_where(ds, primary_readable()) is Some {
        first_where(ds, primary_readable())
    } else {
        first_where(ds, any_readable())
    }
}

/// A percentage moved by `delta` and kept within 0..=100; an unknown current
/// value counts as 50.
pub open spec fn stepped_percent(cur: Option<u32>, delta: i32) -> u32 {
    let c = match cur {
        Some(p) => p,
        None => 50,
    };
    let v = as_i32(c) + delta;
    if v < 0 {
        0
    } else if v > 100 {
        100
    } else {
        v as u32
    }
}

/// Moving the percentage stays within the 32-bit signed range.
pub open spec fn step_in_range(cur: Option<u32>, delta: i32) -> bool {
    let c = match cur {
        Some(p) => p,
        None => 50,
    };
    -0x8000_0000 <= as_i32(c) + delta <= 0x7fff_ffff
}

/// A brightness step moves the current percentage by exactly `delta` while
/// the result stays within 0..=100, and stops at 0 or 100 beyond them; so a
/// step up never lowers the value and a step down never raises it. An
/// unknown current value steps from 50.
pub proof fn lemma_step_moves_by_delta(cur: u32, delta: i32)
    requires
        cur <= 100,
    ensures
        0 <= cur + delta <= 100 ==> stepped_percent(Some(cur), delta) == cur + delta,
        cur + delta < 0 ==> stepped_percent(Some(cur), delta) == 0,
        cur + delta > 100 ==> stepped_percent(Some(cur), delta) == 100,
        delta >= 0 ==> stepped_percent(Some(cur), delta) >= cur,
        delta <= 0 ==> stepped_percent(Some(cur), delta) <= cur,
        stepped_percent(None, delta) == stepped_percent(Some(50), delta),
{
}

pub fn stepped_percent_exec(cur: Option<u32>, delta: i32) -> (r: u32)
    requires
        step_in_range(cur, delta),
    ensures
        r == stepped_percent(cur, delta),
        r <= 100,
{
    let c: u32 = match cur {
        Some(p) => p,
        None => 50,
    };
    let ci: i64 = if c <= 0x7fff_ffff {
        c as i64
    } else {
        c as i64 - 0x1_0000_0000
    };
    let v = ci + delta as i64;
    if v < 0 {
        0
    } else if v > 100 {
        100
    } else {
        v as u32
    }
}

/// The displays' ids are pairwise different.
pub open spec fn ids_unique(ds: Seq<BrightnessDisplay>) -> bool {
    forall|i: int, j: int| 0 <= i < ds.len() && 0 <= j < ds.len() && i != j ==> (#[trigger] ds[i]).id@ != (#[trigger] ds[j]).id@
}

/// The parts of a display that a brightness request leaves alone.
pub open spec fn same_identity(a: BrightnessDisplay, b: BrightnessDisplay) -> bool {
    a.id == b.id && a.probe_state == b.probe_state && a.current_percent == b.current_percent
        && a.is_primary == b.is_primary && a.device_name == b.device_name
}

fn adjust_group(snapshot: &mut BrightnessStateSnapshot, delta: i32, generation: u64) -> (r: Vec<
    WriteCommand,
>)
    requires
        forall|i: int|
            0 <= i < old(snapshot).displays@.len() && readable(old(snapshot).displays@[i])
                ==> step_in_range(#[trigger] old(snapshot).displays@[i].current_percent, delta),
    ensures
        final(snapshot).displays@.len() == old(snapshot).displays@.len(),
        forall|i: int|
            0 <= i < old(snapshot).displays@.len() ==> same_identity(
                #[trigger] final(snapshot).displays@[i],
                old(snapshot).displays@[i],
            ),
        final(snapshot).revision == old(snapshot).revision,
        final(snapshot).preferences == old(snapshot).preferences,
        final(snapshot).active_test_display_id == old(snapshot).active_test_display_id,
        ids_unique(old(snapshot).displays@) ==> forall|i: int|
            0 <= i < old(snapshot).displays@.len() ==> #[trigger] final(snapshot).displays@[i]
                == if readable(old(snapshot).displays@[i]) {
                with_target(
                    old(snapshot).displays@[i],
                    stepped_percent(old(snapshot).displays@[i].current_percent, delta),
                )
            } else {
                old(snapshot).displays@[i]
            },
{
    let ghost old_ds = snapshot.displays@;
    let mut cmds: Vec<WriteCommand> = Vec::new();
    let n = snapshot.displays.len();
    let mut i: usize = 0;
    while i < n
        invariant
            n == old_ds.len(),
            i <= n,
            snapshot.displays@.len() == n,
            forall|k: int| 0 <= k < n ==> same_identity(#[trigger] snapshot.displays@[k], old_ds[k]),
            forall|k: int|
                0 <= k < n && readable(old_ds[k]) ==> step_in_range(
                    #[trigger] old_ds[k].current_percent,
                    delta,
                ),
            snapshot.revision == old(snapshot).revision,
            snapshot.preferences == old(snapshot).preferences,
            snapshot.active_test_display_id == old(snapshot).active_test_display_id,
            ids_unique(old_ds) ==> forall|k: int|
                0 <= k < n ==> #[trigger] snapshot.displays@[k] == if k < i && readable(old_ds[k]) {
                    with_target(old_ds[k], stepped_percent(old_ds[k].current_percent, delta))
                } else {
                    old_ds[k]
                },
        decreases n - i,
    {
        if snapshot.displays[i].probe_state == ProbeState::ReadOk {
            let next = stepped_percent_exec(snapshot.displays[i].current_percent, delta);
            let id = snapshot.displays[i].id.clone();
            let ghost before = snapshot.displays@;
            proof {
                if ids_unique(old_ds) {
                    assert forall|j: int| 0 <= j < i implies (#[trigger] before[j]).id@ != id@ by {
                        assert(same_identity(before[j], old_ds[j]));
                        assert(same_identity(before[i as int], old_ds[i as int]));
                    }
                    assert(is_first_with_id(before, id@, i as int));
                }
            }
            let res = request_brightness(snapshot, id.as_str(), next, generation);
            proof {
                assert forall|k: int| 0 <= k < n implies same_identity(
                    #[trigger] snapshot.displays@[k],
                    old_ds[k],
                ) by {
                    assert(same_identity(snapshot.displays@[k], before[k]));
                    assert(same_identity(before[k], old_ds[k]));
                }
            }
            match res {
                Ok(c) => {
                    cmds.push(c);
                },
                Err(_) => {},
            }
        }
        i = i + 1;
    }
    cmds
}

fn pick_single(ds: &Vec<BrightnessDisplay>, mode: AdjustTarget, cursor_device: Option<&str>) -> (r:
    Option<usize>)
    requires
        mode != AdjustTarget::Group,
    ensures
        r matches Some(t) ==> single_target(ds@, mode, opt_view(cursor_device)) == Some(t as int)
            && t < ds@.len(),
        r is None ==> single_target(ds@, mode, opt_view(cursor_device)) is None,
{
    proof {
        reveal(single_target);
    }
    let by_cursor = match (mode, cursor_device) {
        (AdjustTarget::Cursor, Some(dev)) => find_on_device(ds, dev),
        _ => None,
    };
    match by_cursor {
        Some(t) => Some(t),
        None => match find_primary_readable(ds) {
            Some(t) => Some(t),
            None => find_readable(ds),
        },
    }
}

fn adjust_single(
    snapshot: &mut BrightnessStateSnapshot,
    mode: AdjustTarget,
    delta: i32,
    cursor_device: Option<&str>,
    generation: u64,
) -> (r: Result<Vec<WriteCommand>, String>)
    requires
        mode != AdjustTarget::Group,
        single_target(old(snapshot).displays@, mode, opt_view(cursor_device)) is Some
            ==> step_in_range(
            old(snapshot).displays@[single_target(
                old(snapshot).displays@,
                mode,
                opt_view(cursor_device),
            )->0].current_percent,
            delta,
        ),
    ensures
        final(snapshot).displays@.len() == old(snapshot).displays@.len(),
        forall|i: int|
            0 <= i < old(snapshot).displays@.len() ==> same_identity(
                #[trigger] final(snapshot).displays@[i],
                old(snapshot).displays@[i],
            ),
        final(snapshot).revision == old(snapshot).revision,
        final(snapshot).preferences == old(snapshot).preferences,
        final(snapshot).active_test_display_id == old(snapshot).active_test_display_id,
        ids_unique(old(snapshot).displays@) ==> match single_target(
            old(snapshot).displays@,
            mode,
            opt_view(cursor_device),
        ) {
            Some(t) => {
                &&& r is Ok
                &&& r->Ok_0@.len() == 1
                &&& r->Ok_0@[0].target_percent == stepped_percent(
                    old(snapshot).displays@[t].current_percent,
                    delta,
                )
                &&& r->Ok_0@[0].display_id@ == old(snapshot).displays@[t].id@
                &&& final(snapshot).displays@ == old(snapshot).displays@.update(
                    t,
                    with_target(
                        old(snapshot).displays@[t],
                        stepped_percent(old(snapshot).displays@[t].current_percent, delta),
                    ),
                )
            },
            None => r is Ok && r->Ok_0@.len() == 0 && *final(snapshot) == *old(snapshot),
        },
{
    let ghost old_ds = snapshot.displays@;
    let mut cmds: Vec<WriteCommand> = Vec::new();
    match pick_single(&snapshot.displays, mode, cursor_device) {
        None => Ok(cmds),
        Some(t) => {
            let next = stepped_percent_exec(snapshot.displays[t].current_percent, delta);
            let id = snapshot.displays[t].id.clone();
            let ghost unique = ids_unique(old_ds);
            proof {
                if unique {
                    assert forall|j: int| 0 <= j < t implies (#[trigger] old_ds[j]).id@ != id@ by {}
                    assert(is_first_with_id(old_ds, id@, t as int));
                }
            }
            let res = request_brightness(snapshot, id.as_str(), next, generation);
            proof {
                if unique {
                    assert(old_ds[t as int].probe_state == ProbeState::ReadOk) by {
                        reveal(single_target);
                        lemma_single_target_readable(old_ds, mode, opt_view(cursor_device));
                    }
                }
            }
            match res {
                Ok(c) => {
                    cmds.push(c);
                    Ok(cmds)
                },
                Err(e) => Err(e),
            }
        },
    }
}

proof fn lemma_first_where_holds(ds: Seq<BrightnessDisplay>, p: spec_fn(BrightnessDisplay) -> bool)
    ensures
        first_where(ds, p) matches Some(i) ==> 0 <= i < ds.len() && p(ds[i]),
{
}

proof fn lemma_single_target_readable(ds: Seq<BrightnessDisplay>, mode: AdjustTarget, dev: Option<Seq<char>>)
    ensures
        single_target(ds, mode, dev) matches Some(t) ==> 0 <= t < ds.len() && readable(ds[t]),
{
    reveal(single_target);
    lemma_first_where_holds(ds, any_readable());
    lemma_first_where_holds(ds, primary_readable());
    if let Some(d) = dev {
        lemma_first_where_holds(ds, on_device(d));
    }
}

/// Applies a relative brightness change. The group target changes every
/// readable monitor; the others change one monitor (`cursor_device` names
/// the monitor under the cursor, if known). Returns the writes for the worker.
pub fn adjust_brightness(
    snapshot: &mut BrightnessStateSnapshot,
    mode: AdjustTarget,
    delta: i32,
    cursor_device: Option<&str>,
    generation: u64,
) -> (r: Result<Vec<WriteCommand>, String>)
    requires
        mode == AdjustTarget::Group ==> forall|i: int|
            0 <= i < old(snapshot).displays@.len() && readable(old(snapshot).displays@[i])
                ==> step_in_range(#[trigger] old(snapshot).displays@[i].current_percent, delta),
        mode != AdjustTarget::Group && single_target(
            old(snapshot).displays@,
            mode,
            opt_view(cursor_device),
        ) is Some ==> step_in_range(
            old(snapshot).displays@[single_target(
                old(snapshot).displays@,
                mode,
                opt_view(cursor_device),
            )->0].current_percent,
            delta,
        ),
    ensures
        final(snapshot).displays@.len() == old(snapshot).displays@.len(),
        forall|i: int|
            0 <= i < old(snapshot).displays@.len() ==> same_identity(
                #[trigger] final(snapshot).displays@[i],
                old(snapshot).displays@[i],
            ),
        final(snapshot).revision == old(snapshot).revision,
        final(snapshot).preferences == old(snapshot).preferences,
        final(snapshot).active_test_display_id == old(snapshot).active_test_display_id,
        mode == AdjustTarget::Group ==> r is Ok,
        mode == AdjustTarget::Group && ids_unique(old(snapshot).displays@) ==> forall|i: int|
            0 <= i < old(snapshot).displays@.len() ==> #[trigger] final(snapshot).displays@[i]
                == if readable(old(snapshot).displays@[i]) {
                with_target(
                    old(snapshot).displays@[i],
                    stepped_percent(old(snapshot).displays@[i].current_percent, delta),
                )
            } else {
                old(snapshot).displays@[i]
            },
        mode != AdjustTarget::Group && ids_unique(old(snapshot).displays@) ==> match single_target(
            old(snapshot).displays@,
            mode,
            opt_view(cursor_device),
        ) {
            Some(t) => {
                &&& r is Ok
                &&& r->Ok_0@.len() == 1
                &&& r->Ok_0@[0].target_percent == stepped_percent(
                    old(snapshot).displays@[t].current_percent,
                    delta,
                )
                &&& r->Ok_0@[0].display_id@ == old(snapshot).displays@[t].id@
                &&& final(snapshot).displays@ == old(snapshot).displays@.update(
                    t,
                    with_target(
                        old(snapshot).displays@[t],
                        stepped_percent(old(snapshot).displays@[t].current_percent, delta),
                    ),
                )
            },
            None => r is Ok && r->Ok_0@.len() == 0 && *final(snapshot) == *old(snapshot),
        },
{
    if mode == AdjustTarget::Group {
        Ok(adjust_group(snapshot, delta, generation))
    } else {
        adjust_single(snapshot, mode, delta, cursor_device, generation)
    }
}

/// `a - b`, or 0 when `b > a`.
pub open spec fn sat_sub(a: u32, b: u32) -> int {
    if a >= b {
        a - b
    } else {
        0
    }
}

/// The step of a hardware test: a fifth of the raw range, at least 1.
pub open spec fn test_step(min: u32, max: u32) -> int {
    let s = sat_sub(max, min) / 5;
    if s < 1 {
        1
    } else {
        s
    }
}

/// The raw value a hardware test sets: one step down when the current value
/// is at least two steps above the minimum, else up by a step (but not past
/// the maximum).
pub open spec fn test_raw(min: u32, cur: u32, max: u32) -> int {
    let step = test_step(min, max);
    if sat_sub(cur, min) >= 2 * step {
        cur - step
    } else {
        let up = if step < sat_sub(max, cur) {
            step
        } else {
            sat_sub(max, cur)
        };
        cur + up
    }
}

pub fn test_target_raw(min: u32, cur: u32, max: u32) -> (r: u32)
    ensures
        r == test_raw(min, cur, max),
{
    let range = max.saturating_sub(min);
    let step = if range / 5 < 1 {
        1
    } else {
        range / 5
    };
    if cur.saturating_sub(min) >= 2 * step {
        cur - step
    } else {
        let room = max.saturating_sub(cur);
        let up = if step < room {
            step
        } else {
            room
        };
        cur + up
    }
}

/// A hardware test on a range of at least two raw steps stays within the
/// range and really changes the brightness.
pub proof fn lemma_test_raw_changes_value(min: u32, cur: u32, max: u32)
    requires
        min <= cur <= max,
        max >= min + 2,
    ensures
        min <= test_raw(min, cur, max) <= max,
        test_raw(min, cur, max) != cur,
{
}

pub open spec fn test_impossible_message() -> Seq<char> {
    "Тестирование невозможно: экран не поддерживает управление"@
}

/// Which display a hardware test runs on: the first with the id, if its
/// brightness can be read and it has a backend.
pub fn test_precheck(snapshot: &BrightnessStateSnapshot, display_id: &str) -> (r: Result<usize, String>)
    ensures
        !has_id(snapshot.displays@, display_id@) ==> r is Err && r->Err_0@ == display_not_found_message(),
        forall|i: int| is_first_with_id(snapshot.displays@, display_id@, i) ==> {
            let d = snapshot.displays@[i];
            if readable(d) && d.backend is Some {
                r == Ok::<usize, String>(i as usize)
            } else {
                r is Err && r->Err_0@ == test_impossible_message()
            }
        },
{
    match find_display(&snapshot.displays, display_id) {
        None => Err(owned("Дисплей не найден")),
        Some(i) => {
            if snapshot.displays[i].probe_state != ProbeState::ReadOk || snapshot.displays[i].backend.is_none() {
                Err(owned("Тестирование невозможно: экран не поддерживает управление"))
            } else {
                Ok(i)
            }
        },
    }
}

/// The journal entry written before a hardware test touches the monitor.
pub fn recovery_record(
    test_id: u64,
    display_id: &str,
    display: &BrightnessDisplay,
    original_raw: u32,
    test_raw_value: u32,
    created_at: String,
) -> (r: BrightnessTestRecoveryRecord)
    requires
        display.backend is Some,
    ensures
        r.test_id@ == dec(test_id as nat),
        r.display_key@ == display_id@,
        r.connection_key@ == match display.connection {
            Some(c) => c@,
            None => Seq::empty(),
        },
        r.backend@ == backend_name(display.backend->0),
        r.original_raw == original_raw,
        r.test_raw == test_raw_value,
        r.stage@ == "testing_"@ + dec(test_id as nat),
        r.created_at == created_at,
{
    let connection_key = match &display.connection {
        Some(c) => c.clone(),
        None => String::new(),
    };
    let backend = match display.backend {
        Some(b) => owned(b.as_str()),
        None => String::new(),
    };
    let mut stage = owned("testing_");
    push_decimal(&mut stage, test_id);
    BrightnessTestRecoveryRecord {
        test_id: decimal(test_id),
        display_key: owned(display_id),
        connection_key,
        backend,
        original_raw,
        test_raw: test_raw_value,
        stage,
        created_at,
    }
}

/// Marks a hardware test as running on `display_id`.
pub fn begin_test(snapshot: &mut BrightnessStateSnapshot, display_id: &str)
    ensures
        final(snapshot).active_test_display_id is Some,
        final(snapshot).active_test_display_id->0@ == display_id@,
        final(snapshot).revision == old(snapshot).revision,
        final(snapshot).preferences == old(snapshot).preferences,
        !has_id(old(snapshot).displays@, display_id@) ==> final(snapshot).displays == old(snapshot).displays,
        forall|i: int| is_first_with_id(old(snapshot).displays@, display_id@, i) ==>
            final(snapshot).displays@ == old(snapshot).displays@.update(i, BrightnessDisplay { verification: VerificationState::Testing, ..old(snapshot).displays@[i] }),
{
    snapshot.active_test_display_id = Some(owned(display_id));
    if let Some(i) = find_display(&snapshot.displays, display_id) {
        snapshot.displays[i].verification = VerificationState::Testing;
    }
}

/// The restore write of a test attempt counts as done: the write succeeded
/// and reading back gave the original value, or reading back failed.
pub open spec fn restore_done(write_ok: bool, readback: Option<u32>, original_raw: u32) -> bool {
    write_ok && match readback {
        Some(c) => c == original_raw,
        None => true,
    }
}

pub fn restore_attempt_done(write_ok: bool, readback: Option<u32>, original_raw: u32) -> (r: bool)
    ensures
        r == restore_done(write_ok, readback, original_raw),
{
    write_ok && match readback {
        Some(c) => c == original_raw,
        None => true,
    }
}

/// How many times a test tries to write the original value back.
pub const RESTORE_ATTEMPTS: u32 = 3;

/// The phases of a running hardware test.
#[derive(Debug, Clone, Copy, PartialEq, Eq, Structural)]
pub enum TestPhase {
    /// Write the test value, then pause 500 ms.
    ShowTestValue,
    /// Read the monitor back, then pause 2500 ms.
    ConfirmTestValue,
    /// Write the original value (`attempt` counts from 0), pause 500 ms,
    /// and read back if the write succeeded.
    RestoreOriginal { confirmed: bool, attempt: u32 },
    /// Record the outcome.
    Finish { restored: bool, confirmed: bool },
}

/// The phase after `phase`, given what its hardware work gave: whether the
/// write succeeded and what was read back. The test value counts as
/// confirmed when it reads back exactly; restoring stops at the first attempt
/// that is done, or after three.
pub open spec fn next_phase(phase: TestPhase, write_ok: bool, readback: Option<u32>, target_raw: u32, original_raw: u32) -> TestPhase {
    match phase {
        TestPhase::ShowTestValue => TestPhase::ConfirmTestValue,
        TestPhase::ConfirmTestValue => TestPhase::RestoreOriginal { confirmed: readback == Some(target_raw), attempt: 0 },
        TestPhase::RestoreOriginal { confirmed, attempt } => if restore_done(write_ok, readback, original_raw) {
            TestPhase::Finish { restored: true, confirmed }
        } else if attempt + 1 >= RESTORE_ATTEMPTS {
            TestPhase::Finish { restored: false, confirmed }
        } else {
            TestPhase::RestoreOriginal { confirmed, attempt: (attempt + 1) as u32 }
        },
        TestPhase::Finish { .. } => phase,
    }
}

/// Decides the next phase of a hardware test.
pub fn next_test_phase(phase: TestPhase, write_ok: bool, readback: Option<u32>, target_raw: u32, original_raw: u32) -> (r: TestPhase)
    ensures
        r == next_phase(phase, write_ok, readback, target_raw, original_raw),
{
    match phase {
        TestPhase::ShowTestValue => TestPhase::ConfirmTestValue,
        TestPhase::ConfirmTestValue => TestPhase::RestoreOriginal { confirmed: readback_matches(readback, target_raw), attempt: 0 },
        TestPhase::RestoreOriginal { confirmed, attempt } => if restore_attempt_done(write_ok, readback, original_raw) {
            TestPhase::Finish { restored: true, confirmed }
        } else if attempt >= RESTORE_ATTEMPTS - 1 {
            TestPhase::Finish { restored: false, confirmed }
        } else {
            TestPhase::RestoreOriginal { confirmed, attempt: attempt + 1 }
        },
        TestPhase::Finish { .. } => phase,
    }
}

/// The most hardware steps a test phase can still take before it finishes.
pub open spec fn steps_left(phase: TestPhase) -> int {
    match phase {
        TestPhase::ShowTestValue => 2 + RESTORE_ATTEMPTS,
        TestPhase::ConfirmTestValue => 1 + RESTORE_ATTEMPTS,
        TestPhase::RestoreOriginal { attempt, .. } => RESTORE_ATTEMPTS - attempt,
        TestPhase::Finish { .. } => 0,
    }
}

/// A phase that can occur: a restore phase has an attempt left.
pub open spec fn phase_ok(phase: TestPhase) -> bool {
    phase matches TestPhase::RestoreOriginal { attempt, .. } ==> attempt < RESTORE_ATTEMPTS
}

/// Every hardware test finishes: whatever the monitor answers, each step
/// leads to a phase that can occur and has fewer steps left, so a test takes
/// at most five steps, three of them restore attempts.
pub proof fn lemma_test_finishes(phase: TestPhase, write_ok: bool, readback: Option<u32>, target_raw: u32, original_raw: u32)
    requires
        phase_ok(phase),
        !(phase is Finish),
    ensures
        phase_ok(next_phase(phase, write_ok, readback, target_raw, original_raw)),
        0 <= steps_left(next_phase(phase, write_ok, readback, target_raw, original_raw)) < steps_left(phase),
{
}

/// The verification state a finished hardware test leaves: confirmed by the
/// device when the test value read back and the restore succeeded, pending
/// recovery when the restore failed, unchanged otherwise.
pub open spec fn test_outcome(restored: bool, confirmed: bool, prev: VerificationState) -> VerificationState {
    if restored && confirmed {
        VerificationState::DeviceConfirmed
    } else if !restored {
        VerificationState::RecoveryPending
    } else {
        prev
    }
}

/// Records the end of a hardware test on `display_id`: the test is no longer
/// active, the display shows `percent` as current and target brightness, and
/// its verification state follows the outcome.
pub fn finish_test(
    snapshot: &mut BrightnessStateSnapshot,
    display_id: &str,
    restored: bool,
    confirmed: bool,
    percent: u32,
)
    ensures
        final(snapshot).active_test_display_id == if old(snapshot).active_test_display_id matches Some(a) && a@ == display_id@ {
            None
        } else {
            old(snapshot).active_test_display_id
        },
        final(snapshot).revision == old(snapshot).revision,
        final(snapshot).preferences == old(snapshot).preferences,
        !has_id(old(snapshot).displays@, display_id@) ==> final(snapshot).displays == old(snapshot).displays,
        forall|i: int| is_first_with_id(old(snapshot).displays@, display_id@, i) ==>
            final(snapshot).displays@ == old(snapshot).displays@.update(i, BrightnessDisplay {
                current_percent: Some(percent),
                target_percent: Some(percent),
                verification: test_outcome(restored, confirmed, old(snapshot).displays@[i].verification),
                ..old(snapshot).displays@[i]
            }),
{
    let clear = match &snapshot.active_test_display_id {
        Some(a) => str_eq(a.as_str(), display_id),
        None => false,
    };
    if clear {
        snapshot.active_test_display_id = None;
    }
    if let Some(i) = find_display(&snapshot.displays, display_id) {
        snapshot.displays[i].current_percent = Some(percent);
        snapshot.displays[i].target_percent = Some(percent);
        if restored && confirmed {
            snapshot.displays[i].verification = VerificationState::DeviceConfirmed;
        } else if !restored {
            snapshot.displays[i].verification = VerificationState::RecoveryPending;
        }
    }
}

/// The percentage a raw value stands at on a display (an unknown range reads
/// as 0..100).
pub open spec fn display_percent(d: BrightnessDisplay, raw: u32) -> int {
    percent_of(raw, match d.raw_min { Some(m) => m, None => 0 }, match d.raw_max { Some(m) => m, None => 100 })
}

pub fn display_percent_exec(d: &BrightnessDisplay, raw: u32) -> (r: u32)
    ensures
        r == display_percent(*d, raw),
        r <= 100,
{
    let min = match d.raw_min {
        Some(m) => m,
        None => 0,
    };
    let max = match d.raw_max {
        Some(m) => m,
        None => 100,
    };
    raw_to_percent(raw, min, max)
}

/// The raw value a percentage stands for on a display.
pub open spec fn display_raw(d: BrightnessDisplay, percent: u32) -> int {
    raw_of(percent, match d.raw_min { Some(m) => m, None => 0 }, match d.raw_max { Some(m) => m, None => 100 })
}

pub fn display_raw_exec(d: &BrightnessDisplay, percent: u32) -> (r: u32)
    ensures
        r == display_raw(*d, percent),
{
    let min = match d.raw_min {
        Some(m) => m,
        None => 0,
    };
    let max = match d.raw_max {
        Some(m) => m,
        None => 100,
    };
    percent_to_raw(percent, min, max)
}

/// Shows a restored raw value on the first display with `display_id`, as
/// current and target brightness.
pub fn show_restored_raw(snapshot: &mut BrightnessStateSnapshot, display_id: &str, original_raw: u32)
    ensures
        final(snapshot).active_test_display_id == old(snapshot).active_test_display_id,
        final(snapshot).revision == old(snapshot).revision,
        final(snapshot).preferences == old(snapshot).preferences,
        !has_id(old(snapshot).displays@, display_id@) ==> final(snapshot).displays == old(snapshot).displays,
        forall|i: int| is_first_with_id(old(snapshot).displays@, display_id@, i) ==>
            final(snapshot).displays@ == old(snapshot).displays@.update(i, BrightnessDisplay {
                current_percent: Some(display_percent(old(snapshot).displays@[i], original_raw) as u32),
                target_percent: Some(display_percent(old(snapshot).displays@[i], original_raw) as u32),
                ..old(snapshot).displays@[i]
            }),
{
    if let Some(i) = find_display(&snapshot.displays, display_id) {
        let pct = display_percent_exec(&snapshot.displays[i], original_raw);
        snapshot.displays[i].current_percent = Some(pct);
        snapshot.displays[i].target_percent = Some(pct);
    }
}

/// Records a cancelled test: no test is active any more, and the display is
/// untested again when its original brightness was restored, or pending
/// recovery when it was not.
pub fn finish_cancel(snapshot: &mut BrightnessStateSnapshot, display_id: &str, restored: bool)
    ensures
        final(snapshot).active_test_display_id is None,
        final(snapshot).revision == old(snapshot).revision,
        final(snapshot).preferences == old(snapshot).preferences,
        !has_id(old(snapshot).displays@, display_id@) ==> final(snapshot).displays == old(snapshot).displays,
        forall|i: int| is_first_with_id(old(snapshot).displays@, display_id@, i) ==>
            final(snapshot).displays@ == old(snapshot).displays@.update(i, BrightnessDisplay {
                verification: if restored { VerificationState::NotTested } else { VerificationState::RecoveryPending },
                ..old(snapshot).displays@[i]
            }),
{
    snapshot.active_test_display_id = None;
    if let Some(i) = find_display(&snapshot.displays, display_id) {
        snapshot.displays[i].verification = if restored {
            VerificationState::NotTested
        } else {
            VerificationState::RecoveryPending
        };
    }
}

/// The state a user's verdict on a test gives.
pub fn confirmation_state(user_confirmed: bool) -> (r: VerificationState)
    ensures
        r == if user_confirmed { VerificationState::UserConfirmed } else { VerificationState::Failed },
{
    if user_confirmed {
        VerificationState::UserConfirmed
    } else {
        VerificationState::Failed
    }
}

/// The monitor preference that stores a user's verdict.
pub fn confirmation_preference(display_id: &str, state: VerificationState) -> (r: BrightnessMonitorPreference)
    ensures
        r.display_key@ == display_id@,
        r.preferred_backend is None,
        r.last_verification_state == state,
        r.last_verification_connection is None,
        r.custom_name is None,
{
    BrightnessMonitorPreference {
        display_key: owned(display_id),
        preferred_backend: None,
        last_verification_state: state,
        last_verification_connection: None,
        custom_name: None,
    }
}

/// Records how the user judged a test: no test is active any more and the
/// display takes the judged state.
pub fn finish_confirm(snapshot: &mut BrightnessStateSnapshot, display_id: &str, state: VerificationState)
    ensures
        final(snapshot).active_test_display_id is None,
        final(snapshot).revision == old(snapshot).revision,
        final(snapshot).preferences == old(snapshot).preferences,
        !has_id(old(snapshot).displays@, display_id@) ==> final(snapshot).displays == old(snapshot).displays,
        forall|i: int| is_first_with_id(old(snapshot).displays@, display_id@, i) ==>
            final(snapshot).displays@ == old(snapshot).displays@.update(i, BrightnessDisplay {
                verification: state,
                ..old(snapshot).displays@[i]
            }),
{
    snapshot.active_test_display_id = None;
    if let Some(i) = find_display(&snapshot.displays, display_id) {
        snapshot.displays[i].verification = state;
    }
}

/// A read-back confirms the raw value that was written.
pub fn readback_matches(readback: Option<u32>, expected: u32) -> (r: bool)
    ensures
        r == (readback == Some(expected)),
{
    match readback {
        Some(c) => c == expected,
        None => false,
    }
}

/// Index of the last preference stored for `key` (later entries override
/// earlier ones).
pub open spec fn last_pref_index(ps: Seq<BrightnessMonitorPreference>, key: Seq<char>) -> Option<int>
    decreases ps.len(),
{
    if ps.len() == 0 {
        None
    } else if ps.last().display_key@ == key {
        Some(ps.len() - 1)
    } else {
        last_pref_index(ps.drop_last(), key)
    }
}

/// A display with its stored preference applied: the stored verification
/// state, and the custom name and preferred backend where they are set.
pub open spec fn with_preference(d: BrightnessDisplay, p: BrightnessMonitorPreference) -> BrightnessDisplay {
    BrightnessDisplay {
        verification: p.last_verification_state,
        name: match p.custom_name {
            Some(n) => n,
            None => d.name,
        },
        backend: match p.preferred_backend {
            Some(b) => Some(b),
            None => d.backend,
        },
        ..d
    }
}

/// A display merged with the preferences.
pub open spec fn merged_display(d: BrightnessDisplay, ps: Seq<BrightnessMonitorPreference>) -> BrightnessDisplay {
    match last_pref_index(ps, d.id@) {
        Some(k) => with_preference(d, ps[k]),
        None => d,
    }
}

proof fn lemma_last_pref_bounds(ps: Seq<BrightnessMonitorPreference>, key: Seq<char>)
    ensures
        last_pref_index(ps, key) matches Some(k) ==> 0 <= k < ps.len() && ps[k].display_key@ == key,
    decreases ps.len(),
{
    if ps.len() > 0 {
        lemma_last_pref_bounds(ps.drop_last(), key);
    }
}

fn find_last_pref(ps: &Vec<BrightnessMonitorPreference>, key: &str) -> (r: Option<usize>)
    ensures
        r matches Some(k) ==> last_pref_index(ps@, key@) == Some(k as int) && k < ps@.len(),
        r is None ==> last_pref_index(ps@, key@) is None,
{
    let mut k = ps.len();
    assert(ps@.take(ps@.len() as int) =~= ps@);
    while k > 0
        invariant
            k <= ps@.len(),
            last_pref_index(ps@, key@) == last_pref_index(ps@.take(k as int), key@),
        decreases k,
    {
        assert(ps@.take(k as int).drop_last() =~= ps@.take(k - 1));
        if str_eq(ps[k - 1].display_key.as_str(), key) {
            return Some(k - 1);
        }
        k = k - 1;
    }
    None
}

/// Applies the stored monitor preferences to freshly discovered displays.
pub fn merge_monitor_preferences(displays: &mut Vec<BrightnessDisplay>, prefs: &Vec<BrightnessMonitorPreference>)
    ensures
        final(displays)@.len() == old(displays)@.len(),
        forall|i: int| 0 <= i < old(displays)@.len() ==> #[trigger] final(displays)@[i] == merged_display(old(displays)@[i], prefs@),
{
    let ghost old_ds = displays@;
    let n = displays.len();
    let mut i: usize = 0;
    while i < n
        invariant
            n == old_ds.len(),
            i <= n,
            displays@.len() == n,
            forall|k: int| 0 <= k < i ==> #[trigger] displays@[k] == merged_display(old_ds[k], prefs@),
            forall|k: int| i <= k < n ==> #[trigger] displays@[k] == old_ds[k],
        decreases n - i,
    {
        let found = find_last_pref(prefs, displays[i].id.as_str());
        if let Some(k) = found {
            proof {
                lemma_last_pref_bounds(prefs@, old_ds[i as int].id@);
            }
            displays[i].verification = prefs[k].last_verification_state;
            if let Some(name) = &prefs[k].custom_name {
                displays[i].name = name.clone();
            }
            if let Some(b) = prefs[k].preferred_backend {
                displays[i].backend = Some(b);
            }
        }
        i = i + 1;
    }
}

/// A copy of a write command.
pub fn copy_command(c: &WriteCommand) -> (r: WriteCommand)
    ensures
        r == *c,
{
    WriteCommand { display_id: c.display_id.clone(), target_percent: c.target_percent, generation: c.generation }
}

/// Index of the last command for `id`.
pub open spec fn last_command_index(cs: Seq<WriteCommand>, id: Seq<char>) -> Option<int>
    decreases cs.len(),
{
    if cs.len() == 0 {
        None
    } else if cs.last().display_id@ == id {
        Some(cs.len() - 1)
    } else {
        last_command_index(cs.drop_last(), id)
    }
}

/// `c` is the last command for its display in `cs`.
pub open spec fn is_last_for(cs: Seq<WriteCommand>, c: WriteCommand) -> bool {
    last_command_index(cs, c.display_id@) is Some && c == cs[last_command_index(cs, c.display_id@)->0]
}

proof fn lemma_last_command_push(cs: Seq<WriteCommand>, c: WriteCommand, id: Seq<char>)
    ensures
        last_command_index(cs.push(c), id) == if c.display_id@ == id {
            Some(cs.len() as int)
        } else {
            last_command_index(cs, id)
        },
{
    assert(cs.push(c).drop_last() =~= cs);
}

proof fn lemma_last_command_bounds(cs: Seq<WriteCommand>, id: Seq<char>)
    ensures
        last_command_index(cs, id) matches Some(k) ==> 0 <= k < cs.len() && cs[k].display_id@ == id,
        last_command_index(cs, id) is None ==> forall|k: int| 0 <= k < cs.len() ==> (#[trigger] cs[k]).display_id@ != id,
    decreases cs.len(),
{
    if cs.len() > 0 {
        lemma_last_command_bounds(cs.drop_last(), id);
        if last_command_index(cs, id) is None {
            assert forall|k: int| 0 <= k < cs.len() implies (#[trigger] cs[k]).display_id@ != id by {
                if k < cs.len() - 1 {
                    assert(cs.drop_last()[k] == cs[k]);
                }
            }
        }
    }
}

/// The writes a burst of commands comes down to: one per display, the last
/// one asked for, in the order in which the displays were first named.
pub fn coalesce_commands(cmds: &Vec<WriteCommand>) -> (r: Vec<WriteCommand>)
    ensures
        forall|i: int, j: int| 0 <= i < j < r@.len() ==> (#[trigger] r@[i]).display_id@ != (#[trigger] r@[j]).display_id@,
        forall|j: int| 0 <= j < r@.len() ==> is_last_for(cmds@, #[trigger] r@[j]),
        forall|i: int| 0 <= i < cmds@.len() ==> exists|j: int| 0 <= j < r@.len() && (#[trigger] r@[j]).display_id@ == (#[trigger] cmds@[i]).display_id@,
{
    let mut out: Vec<WriteCommand> = Vec::new();
    let mut i: usize = 0;
    while i < cmds.len()
        invariant
            i <= cmds@.len(),
            forall|a: int, b: int| 0 <= a < b < out@.len() ==> (#[trigger] out@[a]).display_id@ != (#[trigger] out@[b]).display_id@,
            forall|j: int| 0 <= j < out@.len() ==> is_last_for(cmds@.take(i as int), #[trigger] out@[j]),
            forall|a: int| 0 <= a < i ==> exists|j: int| 0 <= j < out@.len() && (#[trigger] out@[j]).display_id@ == (#[trigger] cmds@[a]).display_id@,
        decreases cmds.len() - i,
    {
        let c = &cmds[i];
        let ghost pre = cmds@.take(i as int);
        assert(cmds@.take(i + 1) =~= pre.push(*c));
        let mut found: Option<usize> = None;
        let mut j: usize = 0;
        while j < out.len()
            invariant
                j <= out@.len(),
                found is None ==> forall|b: int| 0 <= b < j ==> (#[trigger] out@[b]).display_id@ != c.display_id@,
                found matches Some(f) ==> f < out@.len() && out@[f as int].display_id@ == c.display_id@,
            decreases out.len() - j,
        {
            if found.is_none() && out[j].display_id == c.display_id {
                found = Some(j);
            }
            j = j + 1;
        }
        let ghost before = out@;
        match found {
            Some(f) => {
                out.set(f, copy_command(c));
            },
            None => {
                out.push(copy_command(c));
            },
        }
        proof {
            assert forall|jj: int| 0 <= jj < out@.len() implies is_last_for(cmds@.take(i + 1), #[trigger] out@[jj]) by {
                lemma_last_command_push(pre, *c, out@[jj].display_id@);
                if out@[jj].display_id@ != c.display_id@ {
                    assert(out@[jj] == before[jj]);
                    let k = last_command_index(pre, out@[jj].display_id@)->0;
                    lemma_last_command_bounds(pre, out@[jj].display_id@);
                }
            }
            assert forall|a: int| 0 <= a < i + 1 implies exists|jj: int| 0 <= jj < out@.len() && (#[trigger] out@[jj]).display_id@ == (#[trigger] cmds@[a]).display_id@ by {
                if a < i {
                    let jj = choose|jj: int| 0 <= jj < before.len() && (#[trigger] before[jj]).display_id@ == cmds@[a].display_id@;
                    if found is Some && jj == found->0 {
                        assert(out@[jj].display_id@ == cmds@[a].display_id@);
                    } else {
                        assert(out@[jj] == before[jj]);
                    }
                } else {
                    if let Some(f) = found {
                        assert(out@[f as int].display_id@ == cmds@[a].display_id@);
                    } else {
                        assert(out@[before.len() as int].display_id@ == cmds@[a].display_id@);
                    }
                }
            }
        }
        i = i + 1;
    }
    assert(cmds@.take(cmds@.len() as int) =~= cmds@);
    out
}

/// A command issued before the current generation of displays is stale.
pub fn command_is_current(command_generation: u64, current_generation: u64) -> (r: bool)
    ensures
        r == (command_generation >= current_generation),
{
    !(command_generation < current_generation)
}

/// Records the result of a write: the snapshot takes the new revision, and the
/// display is no longer busy; on success it shows the written percentage and
/// no error, on failure it keeps the error.
pub fn apply_write_result(
    snapshot: &mut BrightnessStateSnapshot,
    display_id: &str,
    percent: u32,
    result: Result<(), BrightnessError>,
    revision: u64,
)
    ensures
        final(snapshot).revision == revision,
        final(snapshot).preferences == old(snapshot).preferences,
        final(snapshot).active_test_display_id == old(snapshot).active_test_display_id,
        !has_id(old(snapshot).displays@, display_id@) ==> final(snapshot).displays == old(snapshot).displays,
        forall|i: int| is_first_with_id(old(snapshot).displays@, display_id@, i) ==>
            final(snapshot).displays@ == old(snapshot).displays@.update(i, match result {
                Ok(_) => BrightnessDisplay { busy: false, current_percent: Some(percent), error: None, ..old(snapshot).displays@[i] },
                Err(e) => BrightnessDisplay { busy: false, error: Some(e), ..old(snapshot).displays@[i] },
            }),
{
    snapshot.revision = revision;
    if let Some(i) = find_display(&snapshot.displays, display_id) {
        snapshot.displays[i].busy = false;
        match result {
            Ok(()) => {
                snapshot.displays[i].current_percent = Some(percent);
                snapshot.displays[i].error = None;
            },
            Err(e) => {
                snapshot.displays[i].error = Some(e);
            },
        }
    }
}

} // verus!
