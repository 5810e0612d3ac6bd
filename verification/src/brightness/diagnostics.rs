//! The plain-text diagnostics report of the detected displays.
use vstd::prelude::*;

use crate::brightness::model::{backend_name, verification_name, BrightnessDisplay, ProbeState};
use crate::text::{dec, decimal, owned, push_str};

verus! {

/// How `{:?}` prints a probe state.
pub open spec fn probe_debug(p: ProbeState) -> Seq<char> {
    match p {
        ProbeState::NotChecked => "NotChecked"@,
        ProbeState::Checking => "Checking"@,
        ProbeState::ReadOk => "ReadOk"@,
        ProbeState::NoResponse => "NoResponse"@,
        ProbeState::Unavailable => "Unavailable"@,
        ProbeState::Ambiguous => "Ambiguous"@,
        ProbeState::Disconnected => "Disconnected"@,
    }
}

fn probe_debug_str(p: ProbeState) -> (s: &'static str)
    ensures
        s@ == probe_debug(p),
{
    match p {
        ProbeState::NotChecked => "NotChecked",
        ProbeState::Checking => "Checking",
        ProbeState::ReadOk => "ReadOk",
        ProbeState::NoResponse => "NoResponse",
        ProbeState::Unavailable => "Unavailable",
        ProbeState::Ambiguous => "Ambiguous",
        ProbeState::Disconnected => "Disconnected",
    }
}

/// A number, or a dash when there is none.
pub open spec fn number_or_dash(o: Option<u32>) -> Seq<char> {
    match o {
        Some(v) => dec(v as nat),
        None => "—"@,
    }
}

/// How `{}` prints a boolean.
pub open spec fn bool_text(b: bool) -> Seq<char> {
    if b { "true"@ } else { "false"@ }
}

/// The numbers of a list separated by `, `.
pub open spec fn joined(l: Seq<u32>) -> Seq<char>
    decreases l.len(),
{
    if l.len() == 0 {
        Seq::empty()
    } else if l.len() == 1 {
        dec(l[0] as nat)
    } else {
        joined(l.drop_last()) + ", "@ + dec(l.last() as nat)
    }
}

/// How `{:?}` prints a list of numbers.
pub open spec fn list_debug(l: Seq<u32>) -> Seq<char> {
    "["@ + joined(l) + "]"@
}

/// How `{:?}` prints an optional number.
pub open spec fn option_debug(o: Option<u32>) -> Seq<char> {
    match o {
        Some(v) => "Some("@ + dec(v as nat) + ")"@,
        None => "None"@,
    }
}

/// The lines that every display gets in the report.
pub open spec fn display_lines(i: nat, d: BrightnessDisplay) -> Seq<char> {
    "[Display #"@ + dec(i + 1) + "]\n"@
        + "  ID: "@ + d.id@ + "\n"@
        + "  Name: "@ + d.name@ + "\n"@
        + "  Primary: "@ + bool_text(d.is_primary) + "\n"@
        + "  Connection: "@ + (match d.connection {
            Some(c) => c@,
            None => "Unknown"@,
        }) + "\n"@
        + "  Backend: "@ + (match d.backend {
            Some(b) => backend_name(b),
            None => "None"@,
        }) + "\n"@
        + "  Probe State: "@ + probe_debug(d.probe_state) + "\n"@
        + "  Verification: "@ + verification_name(d.verification) + "\n"@
        + "  Current Brightness: "@ + number_or_dash(d.current_percent) + "%\n"@
        + "  Raw Range: ["@ + number_or_dash(d.raw_min) + " - "@ + number_or_dash(d.raw_max) + "]\n"@
}

/// The report section of display number `i + 1`: its lines, its levels and
/// its last error where it has them, and a blank line.
pub open spec fn display_section(i: nat, d: BrightnessDisplay) -> Seq<char> {
    display_lines(i, d)
        + (match d.available_levels {
            Some(l) => "  Supported Discrete Levels: "@ + list_debug(l@) + "\n"@,
            None => Seq::empty(),
        })
        + (match d.error {
            Some(e) => "  Last Error: "@ + e.code@ + " (op: "@ + e.operation@ + ", code: "@ + option_debug(e.native_code)
                + ", retryable: "@ + bool_text(e.retryable) + ")\n"@,
            None => Seq::empty(),
        })
        + "\n"@
}

/// The sections of the first `n` displays.
pub open spec fn sections(ds: Seq<BrightnessDisplay>, n: nat) -> Seq<char>
    decreases n,
{
    if n == 0 || n > ds.len() {
        Seq::empty()
    } else {
        sections(ds, (n - 1) as nat) + display_section((n - 1) as nat, ds[n - 1])
    }
}

/// The whole report.
pub open spec fn diagnostics_report(ds: Seq<BrightnessDisplay>, app_version: Seq<char>, generated_at: Seq<char>) -> Seq<char> {
    "Avel Brightness Diagnostics Report (v"@ + app_version + ")\n"@
        + "Generated at: "@ + generated_at + "\n"@
        + "----------------------------------------\n"@
        + "Detected Displays: "@ + dec(ds.len()) + "\n\n"@
        + sections(ds, ds.len())
        + "----------------------------------------\n"@
        + "End of Report\n"@
}

fn push_number_or_dash(r: &mut String, o: Option<u32>)
    ensures
        final(r)@ == old(r)@ + number_or_dash(o),
{
    match o {
        Some(v) => {
            let d = decimal(v as u64);
            push_str(r, d.as_str());
        },
        None => push_str(r, "—"),
    }
}

fn push_bool(r: &mut String, b: bool)
    ensures
        final(r)@ == old(r)@ + bool_text(b),
{
    if b {
        push_str(r, "true");
    } else {
        push_str(r, "false");
    }
}

fn push_list(r: &mut String, l: &Vec<u32>)
    ensures
        final(r)@ == old(r)@ + list_debug(l@),
{
    let ghost start = r@;
    push_str(r, "[");
    let mut i: usize = 0;
    while i < l.len()
        invariant
            i <= l@.len(),
            r@ == start + "["@ + joined(l@.take(i as int)),
        decreases l.len() - i,
    {
        let ghost before = r@;
        if i > 0 {
            push_str(r, ", ");
        }
        let d = decimal(l[i] as u64);
        push_str(r, d.as_str());
        proof {
            let t = l@.take(i + 1);
            assert(t.drop_last() =~= l@.take(i as int));
            if i == 0 {
                assert(joined(l@.take(0)) =~= Seq::<char>::empty());
                assert(r@ =~= start + "["@ + joined(t));
            } else {
                assert(r@ =~= start + "["@ + joined(t));
            }
        }
        i = i + 1;
    }
    assert(l@.take(l@.len() as int) =~= l@);
    push_str(r, "]");
    assert(r@ =~= start + list_debug(l@));
}

fn lines_text(i: usize, d: &BrightnessDisplay) -> (b: String)
    requires
        i < u64::MAX,
    ensures
        b@ == display_lines(i as nat, *d),
{
    let mut b = String::new();
    push_str(&mut b, "[Display #");
    assert(b@ =~= "[Display #"@);
    let n = decimal(i as u64 + 1);
    push_str(&mut b, n.as_str());
    push_str(&mut b, "]\n");
    push_str(&mut b, "  ID: ");
    push_str(&mut b, d.id.as_str());
    push_str(&mut b, "\n");
    push_str(&mut b, "  Name: ");
    push_str(&mut b, d.name.as_str());
    push_str(&mut b, "\n");
    push_str(&mut b, "  Primary: ");
    push_bool(&mut b, d.is_primary);
    push_str(&mut b, "\n");
    push_str(&mut b, "  Connection: ");
    match &d.connection {
        Some(c) => push_str(&mut b, c.as_str()),
        None => push_str(&mut b, "Unknown"),
    }
    push_str(&mut b, "\n");
    push_str(&mut b, "  Backend: ");
    match d.backend {
        Some(be) => push_str(&mut b, be.as_str()),
        None => push_str(&mut b, "None"),
    }
    push_str(&mut b, "\n");
    push_str(&mut b, "  Probe State: ");
    push_str(&mut b, probe_debug_str(d.probe_state));
    push_str(&mut b, "\n");
    push_str(&mut b, "  Verification: ");
    push_str(&mut b, d.verification.as_str());
    push_str(&mut b, "\n");
    push_str(&mut b, "  Current Brightness: ");
    push_number_or_dash(&mut b, d.current_percent);
    push_str(&mut b, "%\n");
    push_str(&mut b, "  Raw Range: [");
    push_number_or_dash(&mut b, d.raw_min);
    push_str(&mut b, " - ");
    push_number_or_dash(&mut b, d.raw_max);
    push_str(&mut b, "]\n");
    b
}

fn levels_text(d: &BrightnessDisplay) -> (b: String)
    ensures
        b@ == (match d.available_levels {
            Some(l) => "  Supported Discrete Levels: "@ + list_debug(l@) + "\n"@,
            None => Seq::<char>::empty(),
        }),
{
    let mut b = String::new();
    match &d.available_levels {
        Some(l) => {
            push_str(&mut b, "  Supported Discrete Levels: ");
            assert(b@ =~= "  Supported Discrete Levels: "@);
            push_list(&mut b, l);
            push_str(&mut b, "\n");
        },
        None => {},
    }
    b
}

fn error_text(d: &BrightnessDisplay) -> (b: String)
    ensures
        b@ == (match d.error {
            Some(e) => "  Last Error: "@ + e.code@ + " (op: "@ + e.operation@ + ", code: "@ + option_debug(e.native_code)
                + ", retryable: "@ + bool_text(e.retryable) + ")\n"@,
            None => Seq::<char>::empty(),
        }),
{
    let mut b = String::new();
    match &d.error {
        Some(e) => {
            push_str(&mut b, "  Last Error: ");
            assert(b@ =~= "  Last Error: "@);
            push_str(&mut b, e.code.as_str());
            push_str(&mut b, " (op: ");
            push_str(&mut b, e.operation.as_str());
            push_str(&mut b, ", code: ");
            let ghost before = b@;
            match e.native_code {
                Some(c) => {
                    let mut t = owned("Some(");
                    let cd = decimal(c as u64);
                    push_str(&mut t, cd.as_str());
                    push_str(&mut t, ")");
                    push_str(&mut b, t.as_str());
                },
                None => push_str(&mut b, "None"),
            }
            assert(b@ == before + option_debug(e.native_code));
            push_str(&mut b, ", retryable: ");
            push_bool(&mut b, e.retryable);
            push_str(&mut b, ")\n");
        },
        None => {},
    }
    b
}

fn push_section(r: &mut String, i: usize, d: &BrightnessDisplay)
    requires
        i < u64::MAX,
    ensures
        final(r)@ == old(r)@ + display_section(i as nat, *d),
{
    let mut b = lines_text(i, d);
    let lv = levels_text(d);
    push_str(&mut b, lv.as_str());
    let er = error_text(d);
    push_str(&mut b, er.as_str());
    push_str(&mut b, "\n");
    push_str(r, b.as_str());
}

/// Writes the diagnostics report of the detected displays; the time of
/// writing is given as text.
pub fn generate_diagnostics_report(displays: &Vec<BrightnessDisplay>, app_version: &str, generated_at: &str) -> (r: String)
    ensures
        r@ == diagnostics_report(displays@, app_version@, generated_at@),
{
    let mut r = owned("Avel Brightness Diagnostics Report (v");
    push_str(&mut r, app_version);
    push_str(&mut r, ")\n");
    push_str(&mut r, "Generated at: ");
    push_str(&mut r, generated_at);
    push_str(&mut r, "\n");
    push_str(&mut r, "----------------------------------------\n");
    push_str(&mut r, "Detected Displays: ");
    let n = decimal(displays.len() as u64);
    push_str(&mut r, n.as_str());
    push_str(&mut r, "\n\n");
    let ghost head = r@;
    let mut i: usize = 0;
    while i < displays.len()
        invariant
            i <= displays@.len(),
            r@ == head + sections(displays@, i as nat),
        decreases displays.len() - i,
    {
        push_section(&mut r, i, &displays[i]);
        proof {
            assert(sections(displays@, (i + 1) as nat) == sections(displays@, i as nat) + display_section(i as nat, displays@[i as int]));
            assert(r@ =~= head + sections(displays@, (i + 1) as nat));
        }
        i = i + 1;
    }
    push_str(&mut r, "----------------------------------------\n");
    push_str(&mut r, "End of Report\n");
    assert(r@ =~= diagnostics_report(displays@, app_version@, generated_at@));
    r
}

} // verus!
