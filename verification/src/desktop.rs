//! Clean-desktop mode: hiding desktop icons and/or the taskbar, remembering the
//! state the desktop had before, and restoring it.
use vstd::prelude::*;

use crate::text::{chars_eq_str, chars_of, owned, push_str};
use crate::types::CleanDesktopState;

verus! {

/// Access to the desktop shell. The application implements it over the
/// operating system; tests implement it over plain flags.
pub trait DesktopBackend: Send + Sync {
    fn are_desktop_icons_hidden(&self) -> Result<bool, String>;

    fn set_desktop_icons_hidden(&self, hidden: bool) -> Result<(), String>;

    fn is_primary_taskbar_hidden(&self) -> Result<bool, String>;

    fn set_taskbars_hidden(&self, hidden: bool) -> Result<(), String>;
}

/// The persisted part of the clean-desktop feature: the chosen mode, whether
/// it is in force, the desktop state found before hiding started, and the
/// marker that says a restore is owed after a crash.
#[derive(Debug, Clone)]
pub struct CleanDesktopRecord {
    pub current_mode: String,
    pub is_hidden: bool,
    pub baseline_icons_hidden: bool,
    pub baseline_taskbar_hidden: bool,
    pub recovery_marker: bool,
}

impl CleanDesktopRecord {
    /// The record of a fresh installation.
    pub fn initial() -> (r: Self)
        ensures
            r.current_mode@ == "icons_only"@,
            !r.is_hidden,
            !r.baseline_icons_hidden,
            !r.baseline_taskbar_hidden,
            !r.recovery_marker,
    {
        CleanDesktopRecord {
            current_mode: owned("icons_only"),
            is_hidden: false,
            baseline_icons_hidden: false,
            baseline_taskbar_hidden: false,
            recovery_marker: false,
        }
    }
}

/// The mode a request names, in canonical form; `None` for an unknown name.
pub open spec fn requested_mode(m: Seq<char>) -> Option<Seq<char>> {
    if m == "none"@ {
        Some("none"@)
    } else if m == "icons"@ || m == "icons_only"@ {
        Some("icons"@)
    } else if m == "taskbar"@ || m == "taskbar_only"@ {
        Some("taskbar"@)
    } else if m == "all"@ {
        Some("all"@)
    } else {
        None
    }
}

/// The canonical form of a stored mode; unknown names read as "none".
pub open spec fn stored_mode(m: Seq<char>) -> Seq<char> {
    if m == "icons"@ || m == "icons_only"@ {
        "icons"@
    } else if m == "taskbar"@ || m == "taskbar_only"@ {
        "taskbar"@
    } else if m == "all"@ {
        "all"@
    } else {
        "none"@
    }
}

/// The mode that is kept for the next time hiding is switched on.
pub open spec fn retained_mode(m: Seq<char>) -> Seq<char> {
    if m.len() == 0 || m == "none"@ {
        "icons"@
    } else {
        m
    }
}

/// The mode a toggle asks for.
pub open spec fn toggle_target(r: CleanDesktopRecord) -> Seq<char> {
    if r.is_hidden {
        "none"@
    } else {
        retained_mode(r.current_mode@)
    }
}

/// Whether hiding is in force, as reported.
pub open spec fn reported_hidden(r: CleanDesktopRecord) -> bool {
    r.is_hidden && stored_mode(r.current_mode@) != "none"@
}

/// The mode in force, as reported.
pub open spec fn reported_mode(r: CleanDesktopRecord) -> Seq<char> {
    if reported_hidden(r) {
        stored_mode(r.current_mode@)
    } else {
        "none"@
    }
}

/// How a successful request for `mode` leaves the record.
pub open spec fn applied(old: CleanDesktopRecord, mode: Seq<char>, new: CleanDesktopRecord) -> bool {
    match requested_mode(mode) {
        Some(n) => if n == "none"@ {
            &&& new.current_mode@ == retained_mode(old.current_mode@)
            &&& !new.is_hidden
            &&& new.baseline_icons_hidden == old.baseline_icons_hidden
            &&& new.baseline_taskbar_hidden == old.baseline_taskbar_hidden
            &&& (new.recovery_marker ==> old.recovery_marker)
        } else {
            &&& new.current_mode@ == n
            &&& new.is_hidden
            &&& new.recovery_marker
            &&& (old.is_hidden ==> new.baseline_icons_hidden == old.baseline_icons_hidden
                && new.baseline_taskbar_hidden == old.baseline_taskbar_hidden)
        },
        None => false,
    }
}

/// The message for an unknown mode.
pub open spec fn unknown_mode_message(mode: Seq<char>) -> Seq<char> {
    "Unknown mode: "@ + mode
}

/// Switches the clean-desktop modes over a desktop backend.
pub struct DesktopManager {
    backend: Box<dyn DesktopBackend>,
}

/// Which of the four canonical modes a string is.
fn mode_kind(m: &Vec<char>) -> (k: u8)
    ensures
        k == 0 <==> requested_mode(m@) == Some("none"@),
        k == 1 <==> requested_mode(m@) == Some("icons"@),
        k == 2 <==> requested_mode(m@) == Some("taskbar"@),
        k == 3 <==> requested_mode(m@) == Some("all"@),
        k == 4 <==> requested_mode(m@) is None,
{
    proof {
        lemma_mode_names_distinct();
    }
    if chars_eq_str(m, "none") {
        0
    } else if chars_eq_str(m, "icons") || chars_eq_str(m, "icons_only") {
        1
    } else if chars_eq_str(m, "taskbar") || chars_eq_str(m, "taskbar_only") {
        2
    } else if chars_eq_str(m, "all") {
        3
    } else {
        4
    }
}

proof fn lemma_mode_names_distinct()
    ensures
        "none"@ != "icons"@,
        "none"@ != "taskbar"@,
        "none"@ != "all"@,
        "icons"@ != "taskbar"@,
        "icons"@ != "all"@,
        "taskbar"@ != "all"@,
        "icons"@.len() > 0,
{
    reveal_strlit("none");
    reveal_strlit("icons");
    reveal_strlit("taskbar");
    reveal_strlit("all");
    assert("none"@[0] != "icons"@[0]);
    assert("none"@[0] != "taskbar"@[0]);
    assert("none"@[0] != "all"@[0]);
    assert("icons"@[0] != "taskbar"@[0]);
    assert("icons"@[0] != "all"@[0]);
    assert("taskbar"@[0] != "all"@[0]);
}

/// The canonical form of a stored mode.
fn stored_mode_exec(m: &String) -> (r: &'static str)
    ensures
        r@ == stored_mode(m@),
{
    let cs = chars_of(m.as_str());
    if chars_eq_str(&cs, "icons") || chars_eq_str(&cs, "icons_only") {
        "icons"
    } else if chars_eq_str(&cs, "taskbar") || chars_eq_str(&cs, "taskbar_only") {
        "taskbar"
    } else if chars_eq_str(&cs, "all") {
        "all"
    } else {
        "none"
    }
}

/// The mode kept for the next time hiding is switched on.
pub fn retained_mode_exec(m: &String) -> (r: String)
    ensures
        r@ == retained_mode(m@),
{
    let cs = chars_of(m.as_str());
    if cs.len() == 0 || chars_eq_str(&cs, "none") {
        owned("icons")
    } else {
        m.clone()
    }
}

/// The state reported for a record and the desktop state read from the shell.
pub fn reported_state(r: &CleanDesktopRecord, icons_hidden: bool, taskbar_hidden: bool) -> (s:
    CleanDesktopState)
    ensures
        s.current_mode@ == reported_mode(*r),
        s.is_hidden == reported_hidden(*r),
        s.actual_icons_hidden == icons_hidden,
        s.actual_taskbar_hidden == taskbar_hidden,
{
    let norm = stored_mode_exec(&r.current_mode);
    let ncs = chars_of(norm);
    let hidden = r.is_hidden && !chars_eq_str(&ncs, "none");
    let mode = if hidden {
        owned(norm)
    } else {
        owned("none")
    };
    CleanDesktopState {
        current_mode: mode,
        is_hidden: hidden,
        actual_icons_hidden: icons_hidden,
        actual_taskbar_hidden: taskbar_hidden,
    }
}

/// The record after hiding was switched off, where the shell read back
/// `icons_now` and `taskbar_now`: the chosen mode is kept for next time,
/// nothing is hidden, the recorded state stays, and the restore marker is
/// cleared exactly when the shell reads back the recorded state.
pub open spec fn switched_off(old: CleanDesktopRecord, icons_now: bool, taskbar_now: bool, new: CleanDesktopRecord) -> bool {
    &&& new.current_mode@ == retained_mode(old.current_mode@)
    &&& !new.is_hidden
    &&& new.baseline_icons_hidden == old.baseline_icons_hidden
    &&& new.baseline_taskbar_hidden == old.baseline_taskbar_hidden
    &&& new.recovery_marker == (old.recovery_marker && !(icons_now == old.baseline_icons_hidden
        && taskbar_now == old.baseline_taskbar_hidden))
}

/// The record once hiding has begun: when nothing was hidden, the shell
/// state read before (`icons_before`, `taskbar_before`) is recorded; the
/// restore marker is set; mode and hidden flag are not changed yet.
pub open spec fn marked(old: CleanDesktopRecord, icons_before: bool, taskbar_before: bool, new: CleanDesktopRecord) -> bool {
    &&& new.current_mode == old.current_mode
    &&& new.is_hidden == old.is_hidden
    &&& new.recovery_marker
    &&& new.baseline_icons_hidden == if old.is_hidden { old.baseline_icons_hidden } else { icons_before }
    &&& new.baseline_taskbar_hidden == if old.is_hidden { old.baseline_taskbar_hidden } else { taskbar_before }
}

/// The record after hiding in mode `n` was carried out.
pub open spec fn hidden_in(old: CleanDesktopRecord, n: Seq<char>, icons_before: bool, taskbar_before: bool, new: CleanDesktopRecord) -> bool {
    &&& new.current_mode@ == n
    &&& new.is_hidden
    &&& new.recovery_marker
    &&& new.baseline_icons_hidden == if old.is_hidden { old.baseline_icons_hidden } else { icons_before }
    &&& new.baseline_taskbar_hidden == if old.is_hidden { old.baseline_taskbar_hidden } else { taskbar_before }
}

/// How a request for `mode` that the shell carried out leaves the record,
/// for some values the shell read.
pub open spec fn request_done(old: CleanDesktopRecord, mode: Seq<char>, new: CleanDesktopRecord) -> bool {
    match requested_mode(mode) {
        Some(n) => if n == "none"@ {
            exists|i: bool, t: bool| switched_off(old, i, t, new)
        } else {
            exists|i: bool, t: bool| hidden_in(old, n, i, t, new)
        },
        None => false,
    }
}

/// How a request for a known mode that the shell refused leaves the record:
/// unchanged, or, when hiding had begun, marked.
pub open spec fn request_failed(old: CleanDesktopRecord, mode: Seq<char>, new: CleanDesktopRecord) -> bool {
    ||| new == old
    ||| requested_mode(mode) != Some("none"@) && exists|i: bool, t: bool| marked(old, i, t, new)
}

/// The shell calls a request for a mode makes, in order: read the shell
/// state first (to record it), then set the desktop icons, then set the
/// taskbars; and the mode hidden afterwards (none when hiding is switched
/// off).
#[derive(Debug, Clone)]
pub struct DesktopPlan {
    pub read_baseline: bool,
    pub set_icons: Option<bool>,
    pub set_taskbar: Option<bool>,
    pub hide_mode: Option<String>,
}

/// Decides the shell calls of a request for `mode`: "none" sets both parts
/// back to the recorded state; "icons", "taskbar" and "all" hide the named
/// parts and leave the other alone, reading the shell state first exactly
/// when nothing is hidden yet. An unknown mode is refused.
pub fn desktop_plan(record: &CleanDesktopRecord, mode: &str) -> (r: Result<DesktopPlan, String>)
    ensures
        r is Err <==> requested_mode(mode@) is None,
        r matches Err(e) ==> e@ == unknown_mode_message(mode@),
        requested_mode(mode@) == Some("none"@) ==> (r matches Ok(p) && !p.read_baseline
            && p.set_icons == Some(record.baseline_icons_hidden)
            && p.set_taskbar == Some(record.baseline_taskbar_hidden) && p.hide_mode is None),
        requested_mode(mode@) == Some("icons"@) ==> (r matches Ok(p) && p.read_baseline == !record.is_hidden
            && p.set_icons == Some(true) && p.set_taskbar is None
            && (p.hide_mode matches Some(m) && m@ == "icons"@)),
        requested_mode(mode@) == Some("taskbar"@) ==> (r matches Ok(p) && p.read_baseline == !record.is_hidden
            && p.set_icons is None && p.set_taskbar == Some(true)
            && (p.hide_mode matches Some(m) && m@ == "taskbar"@)),
        requested_mode(mode@) == Some("all"@) ==> (r matches Ok(p) && p.read_baseline == !record.is_hidden
            && p.set_icons == Some(true) && p.set_taskbar == Some(true)
            && (p.hide_mode matches Some(m) && m@ == "all"@)),
{
    let mv = chars_of(mode);
    let kind = mode_kind(&mv);
    proof {
        lemma_mode_names_distinct();
    }
    if kind == 4 {
        let mut msg = owned("Unknown mode: ");
        push_str(&mut msg, mode);
        Err(msg)
    } else if kind == 0 {
        Ok(DesktopPlan {
            read_baseline: false,
            set_icons: Some(record.baseline_icons_hidden),
            set_taskbar: Some(record.baseline_taskbar_hidden),
            hide_mode: None,
        })
    } else if kind == 1 {
        Ok(DesktopPlan { read_baseline: !record.is_hidden, set_icons: Some(true), set_taskbar: None, hide_mode: Some(owned("icons")) })
    } else if kind == 2 {
        Ok(DesktopPlan { read_baseline: !record.is_hidden, set_icons: None, set_taskbar: Some(true), hide_mode: Some(owned("taskbar")) })
    } else {
        Ok(DesktopPlan { read_baseline: !record.is_hidden, set_icons: Some(true), set_taskbar: Some(true), hide_mode: Some(owned("all")) })
    }
}

/// Records that hiding was switched off, given what the shell read back.
pub fn finish_switch_off(record: &mut CleanDesktopRecord, icons_now: bool, taskbar_now: bool)
    ensures
        switched_off(*old(record), icons_now, taskbar_now, *final(record)),
{
    if icons_now == record.baseline_icons_hidden && taskbar_now == record.baseline_taskbar_hidden {
        record.recovery_marker = false;
    }
    let retained = retained_mode_exec(&record.current_mode);
    record.current_mode = retained;
    record.is_hidden = false;
}

/// The shell state a restore at startup or exit writes back: the recorded
/// one, when a restore is owed.
pub fn restore_writes(record: &CleanDesktopRecord) -> (r: Option<(bool, bool)>)
    ensures
        r == if record.recovery_marker {
            Some((record.baseline_icons_hidden, record.baseline_taskbar_hidden))
        } else {
            None
        },
{
    if record.recovery_marker {
        Some((record.baseline_icons_hidden, record.baseline_taskbar_hidden))
    } else {
        None
    }
}

impl DesktopManager {
    pub fn with_backend(backend: Box<dyn DesktopBackend>) -> (m: Self) {
        DesktopManager { backend }
    }

    /// The reported state: the chosen mode if hiding is in force, "none"
    /// otherwise, and what the shell shows (a failed read counts as shown).
    pub fn get_actual_state(&self, record: &CleanDesktopRecord) -> (s: CleanDesktopState)
        ensures
            s.current_mode@ == reported_mode(*record),
            s.is_hidden == reported_hidden(*record),
    {
        let icons_hidden = match self.backend.are_desktop_icons_hidden() {
            Ok(b) => b,
            Err(_) => false,
        };
        let taskbar_hidden = match self.backend.is_primary_taskbar_hidden() {
            Ok(b) => b,
            Err(_) => false,
        };
        reported_state(record, icons_hidden, taskbar_hidden)
    }

    /// Switches to `mode` by carrying out `desktop_plan`: "none" sets the
    /// shell back to the recorded state and clears the restore marker when
    /// the shell reads that state back; "icons", "taskbar" and "all" (also
    /// "icons_only", "taskbar_only") record the shell state when nothing is
    /// hidden yet, set the restore marker, and hide the named parts.
    pub fn apply_mode(&self, record: &mut CleanDesktopRecord, mode: &str) -> (r: Result<
        CleanDesktopState,
        String,
    >)
        ensures
            requested_mode(mode@) is None ==> r is Err && *final(record) == *old(record)
                && r->Err_0@ == unknown_mode_message(mode@),
            r is Ok ==> request_done(*old(record), mode@, *final(record)),
            r is Ok ==> applied(*old(record), mode@, *final(record)),
            r is Err && requested_mode(mode@) is Some ==> request_failed(*old(record), mode@, *final(record)),
            r is Ok ==> r->Ok_0.current_mode@ == reported_mode(*final(record))
                && r->Ok_0.is_hidden == reported_hidden(*final(record)),
    {
        let ghost old_r = *record;
        proof {
            lemma_mode_names_distinct();
        }
        let plan = match desktop_plan(record, mode) {
            Ok(p) => p,
            Err(e) => return Err(e),
        };
        let ghost mut bi: bool = record.baseline_icons_hidden;
        let ghost mut bt: bool = record.baseline_taskbar_hidden;
        if plan.read_baseline {
            let i = self.backend.are_desktop_icons_hidden()?;
            let t = self.backend.is_primary_taskbar_hidden()?;
            proof {
                bi = i;
                bt = t;
            }
            record.baseline_icons_hidden = i;
            record.baseline_taskbar_hidden = t;
        }
        if plan.hide_mode.is_some() {
            record.recovery_marker = true;
            assert(marked(old_r, bi, bt, *record));
        }
        if let Some(b) = plan.set_icons {
            self.backend.set_desktop_icons_hidden(b)?;
        }
        if let Some(b) = plan.set_taskbar {
            self.backend.set_taskbars_hidden(b)?;
        }
        match plan.hide_mode {
            Some(n) => {
                record.current_mode = n;
                record.is_hidden = true;
                assert(hidden_in(old_r, requested_mode(mode@)->0, bi, bt, *record));
            },
            None => {
                let icons_now = match self.backend.are_desktop_icons_hidden() {
                    Ok(b) => b,
                    Err(_) => record.baseline_icons_hidden,
                };
                let taskbar_now = match self.backend.is_primary_taskbar_hidden() {
                    Ok(b) => b,
                    Err(_) => record.baseline_taskbar_hidden,
                };
                finish_switch_off(record, icons_now, taskbar_now);
                assert(switched_off(old_r, icons_now, taskbar_now, *record));
            },
        }
        Ok(self.get_actual_state(record))
    }

    /// Switches hiding off when it is in force, and back on with the last
    /// chosen mode ("icons" when none was chosen) when it is not.
    pub fn toggle_mode(&self, record: &mut CleanDesktopRecord) -> (r: Result<
        CleanDesktopState,
        String,
    >)
        ensures
            requested_mode(toggle_target(*old(record))) is None ==> r is Err && *final(record) == *old(record)
                && r->Err_0@ == unknown_mode_message(toggle_target(*old(record))),
            r is Ok ==> request_done(*old(record), toggle_target(*old(record)), *final(record)),
            r is Ok ==> applied(*old(record), toggle_target(*old(record)), *final(record)),
            r is Err && requested_mode(toggle_target(*old(record))) is Some ==> request_failed(
                *old(record),
                toggle_target(*old(record)),
                *final(record),
            ),
            r is Ok ==> r->Ok_0.current_mode@ == reported_mode(*final(record))
                && r->Ok_0.is_hidden == reported_hidden(*final(record)),
    {
        if record.is_hidden {
            proof {
                reveal_strlit("none");
            }
            self.apply_mode(record, "none")
        } else {
            let target = retained_mode_exec(&record.current_mode);
            self.apply_mode(record, target.as_str())
        }
    }

    /// After a crash or on exit: if a restore is owed, writes the recorded
    /// shell state back (icons, then taskbars; a failed write is not
    /// retried) and marks hiding as off, keeping the chosen mode.
    pub fn restore_all_on_startup_or_exit(&self, record: &mut CleanDesktopRecord)
        ensures
            old(record).recovery_marker ==> ({
                &&& !final(record).recovery_marker
                &&& !final(record).is_hidden
                &&& final(record).current_mode == old(record).current_mode
                &&& final(record).baseline_icons_hidden == old(record).baseline_icons_hidden
                &&& final(record).baseline_taskbar_hidden == old(record).baseline_taskbar_hidden
            }),
            !old(record).recovery_marker ==> *final(record) == *old(record),
    {
        if let Some((icons, taskbar)) = restore_writes(record) {
            let _ = self.backend.set_desktop_icons_hidden(icons);
            let _ = self.backend.set_taskbars_hidden(taskbar);
            record.recovery_marker = false;
            record.is_hidden = false;
        }
    }
}

/// Switching hiding off and on again with two toggles brings back the mode
/// that was in force, and hiding is in force again.
pub proof fn lemma_toggle_twice_restores_mode(
    r0: CleanDesktopRecord,
    r1: CleanDesktopRecord,
    r2: CleanDesktopRecord,
)
    requires
        r0.is_hidden,
        r0.current_mode@ == "icons"@ || r0.current_mode@ == "taskbar"@ || r0.current_mode@
            == "all"@,
        applied(r0, toggle_target(r0), r1),
        applied(r1, toggle_target(r1), r2),
    ensures
        r2.current_mode@ == r0.current_mode@,
        r2.is_hidden,
        reported_mode(r2) == r0.current_mode@,
{
    lemma_mode_names_distinct();
    reveal_strlit("none");
    reveal_strlit("icons");
    reveal_strlit("icons_only");
    reveal_strlit("taskbar");
    reveal_strlit("taskbar_only");
    reveal_strlit("all");
}

/// Switching hiding off keeps the recorded desktop state and the chosen mode,
/// so that switching it on again can bring the mode back.
pub proof fn lemma_restore_keeps_mode(r0: CleanDesktopRecord, r1: CleanDesktopRecord)
    requires
        r0.current_mode@ == "icons"@ || r0.current_mode@ == "taskbar"@ || r0.current_mode@
            == "all"@,
        applied(r0, "none"@, r1),
    ensures
        r1.current_mode@ == r0.current_mode@,
        !r1.is_hidden,
        reported_mode(r1) == "none"@,
        toggle_target(r1) == r0.current_mode@,
{
    lemma_mode_names_distinct();
    reveal_strlit("none");
    reveal_strlit("icons");
    reveal_strlit("taskbar");
    reveal_strlit("all");
}

} // verus!
