//! Building the list of displays from what enumerating and probing the
//! monitors found.
use vstd::prelude::*;

use crate::brightness::hardware::{compute_display_id, display_id_of, wmi_display_id, wmi_id_of, WmiBrightnessInfo};
use crate::brightness::levels::{percent_of, raw_to_percent};
use crate::brightness::model::{
    BrightnessBackend, BrightnessDisplay, BrightnessError, ProbeState, VerificationState,
};
use crate::text::{chars_eq_str, chars_of, contains, dec, has_infix, owned, push_decimal};

verus! {

/// The name and connection type the display configuration reports for a
/// monitor device path.
#[derive(Debug, Clone)]
pub struct DisplayConnectionMeta {
    pub friendly_name: String,
    pub connection_type: String,
}

/// A physical monitor behind a display device, with what probing it over
/// DDC/CI read: the backend that answered and its minimum, current and
/// maximum raw value.
#[derive(Debug, Clone)]
pub struct ProbedPhysical {
    pub description: String,
    pub reading: Option<(BrightnessBackend, u32, u32, u32)>,
}

/// A display device and its probed physical monitors.
#[derive(Debug, Clone)]
pub struct ProbedMonitor {
    pub device_name: String,
    pub is_primary: bool,
    pub physicals: Vec<ProbedPhysical>,
}

/// Number of physical monitors behind the first `n` devices.
pub open spec fn physical_count(ms: Seq<ProbedMonitor>, n: int) -> nat
    decreases n,
{
    if n <= 0 {
        0
    } else {
        physical_count(ms, n - 1) + ms[n - 1].physicals@.len()
    }
}

/// The connection entry describes the device: one name contains the other.
pub open spec fn meta_matches(dev: Seq<char>, path: Seq<char>) -> bool {
    has_infix(dev, path) || has_infix(path, dev)
}

/// Index of the first connection entry that describes the device.
pub open spec fn meta_index(metas: Seq<(String, DisplayConnectionMeta)>, dev: Seq<char>) -> Option<int> {
    if exists|k: int| 0 <= k < metas.len() && meta_matches(dev, (#[trigger] metas[k]).0@) && forall|j: int| 0 <= j < k ==> !meta_matches(dev, (#[trigger] metas[j]).0@) {
        Some(choose|k: int| 0 <= k < metas.len() && meta_matches(dev, (#[trigger] metas[k]).0@) && forall|j: int| 0 <= j < k ==> !meta_matches(dev, (#[trigger] metas[j]).0@))
    } else {
        None
    }
}

/// The error recorded for a monitor that answered neither DDC/CI method.
pub open spec fn is_ddc_unsupported(e: BrightnessError) -> bool {
    e.code@ == "ddc_not_supported"@ && e.operation@ == "DDC/CI Probe"@ && e.retryable && e.native_code is None
}

/// The name shown for a physical monitor: the configured friendly name, else
/// its own description unless it is the generic one, else "Монитор N" with its
/// position among all physical monitors.
pub open spec fn physical_name(friendly: Seq<char>, desc: Seq<char>, ordinal: nat) -> Seq<char> {
    if friendly.len() > 0 {
        friendly
    } else if desc.len() > 0 && desc != "Generic PnP Monitor"@ {
        desc
    } else {
        "Монитор "@ + dec(ordinal)
    }
}

/// `d` is how the `j`-th physical monitor of `m` is shown.
pub open spec fn physical_shown(
    d: BrightnessDisplay,
    generation: u64,
    m: ProbedMonitor,
    j: int,
    metas: Seq<(String, DisplayConnectionMeta)>,
    ordinal: nat,
) -> bool {
    let ph = m.physicals@[j];
    let mi = meta_index(metas, m.device_name@);
    let friendly = match mi {
        Some(k) => metas[k].1.friendly_name@,
        None => Seq::empty(),
    };
    let conn = match mi {
        Some(k) => metas[k].1.connection_type@,
        None => "HDMI / DP"@,
    };
    &&& d.id@ == display_id_of(m.device_name@, ph.description@, j as nat)
    &&& d.generation == generation
    &&& d.name@ == physical_name(friendly, ph.description@, ordinal)
    &&& d.connection is Some && d.connection->0@ == conn
    &&& d.is_primary == m.is_primary
    &&& d.verification == VerificationState::NotTested
    &&& d.available_levels is None
    &&& !d.busy
    &&& d.device_name is Some && d.device_name->0@ == m.device_name@
    &&& match ph.reading {
        Some(r) => {
            &&& d.backend == Some(r.0)
            &&& d.probe_state == ProbeState::ReadOk
            &&& d.current_percent == Some(percent_of(r.2, r.1, r.3) as u32)
            &&& d.target_percent == d.current_percent
            &&& d.raw_min == Some(r.1)
            &&& d.raw_max == Some(r.3)
            &&& d.error is None
        },
        None => {
            &&& d.backend is None
            &&& d.probe_state == ProbeState::NoResponse
            &&& d.current_percent is None
            &&& d.target_percent is None
            &&& d.raw_min is None
            &&& d.raw_max is None
            &&& d.error is Some && is_ddc_unsupported(d.error->0)
        },
    }
}

/// `d` is how the `i`-th WMI monitor is shown.
pub open spec fn wmi_shown(d: BrightnessDisplay, generation: u64, w: WmiBrightnessInfo, i: int, is_primary: bool) -> bool {
    &&& d.id@ == wmi_id_of(w.instance_name@)
    &&& d.generation == generation
    &&& d.name@ == "Встроенный экран "@ + dec((i + 1) as nat)
    &&& d.connection is Some && d.connection->0@ == "Internal"@
    &&& d.is_primary == is_primary
    &&& d.backend == Some(BrightnessBackend::Wmi)
    &&& d.probe_state == ProbeState::ReadOk
    &&& d.verification == VerificationState::NotTested
    &&& d.current_percent == Some(w.current)
    &&& d.target_percent == Some(w.current)
    &&& d.raw_min == Some(0u32)
    &&& d.raw_max == Some(100u32)
    &&& (if w.levels@.len() == 0 { d.available_levels is None } else { d.available_levels is Some && d.available_levels->0@ == w.levels@ })
    &&& !d.busy
    &&& d.error is None
    &&& d.device_name is None
}

/// The ids of the WMI monitors at the given indices.
pub open spec fn wmi_ids(wmis: Seq<WmiBrightnessInfo>, idx: Seq<int>) -> Seq<Seq<char>> {
    idx.map_values(|k: int| wmi_id_of(wmis[k].instance_name@))
}

/// Indices of the WMI monitors among the first `n` that are shown: those whose
/// id no monitor shown before has.
pub open spec fn wmi_added(prior: Seq<Seq<char>>, wmis: Seq<WmiBrightnessInfo>, n: int) -> Seq<int>
    decreases n,
{
    if n <= 0 {
        Seq::empty()
    } else {
        let a = wmi_added(prior, wmis, n - 1);
        if (prior + wmi_ids(wmis, a)).contains(wmi_id_of(wmis[n - 1].instance_name@)) {
            a
        } else {
            a.push(n - 1)
        }
    }
}

/// The ids of a list of displays.
pub open spec fn ids_of(ds: Seq<BrightnessDisplay>) -> Seq<Seq<char>> {
    ds.map_values(|d: BrightnessDisplay| d.id@)
}

fn meta_lookup(metas: &Vec<(String, DisplayConnectionMeta)>, dev: &String) -> (r: Option<usize>)
    ensures
        r matches Some(k) ==> meta_index(metas@, dev@) == Some(k as int) && k < metas@.len(),
        r is None ==> meta_index(metas@, dev@) is None,
{
    let dv = chars_of(dev.as_str());
    let mut k: usize = 0;
    while k < metas.len()
        invariant
            dv@ == dev@,
            k <= metas@.len(),
            forall|j: int| 0 <= j < k ==> !meta_matches(dev@, (#[trigger] metas@[j]).0@),
        decreases metas.len() - k,
    {
        let pv = chars_of(metas[k].0.as_str());
        if contains(&dv, metas[k].0.as_str()) || contains(&pv, dev.as_str()) {
            proof {
                let kk = k as int;
                assert(0 <= kk < metas@.len() && meta_matches(dev@, metas@[kk].0@) && forall|j: int| 0 <= j < kk ==> !meta_matches(dev@, (#[trigger] metas@[j]).0@));
                let c = choose|c: int| 0 <= c < metas@.len() && meta_matches(dev@, (#[trigger] metas@[c]).0@) && forall|j: int| 0 <= j < c ==> !meta_matches(dev@, (#[trigger] metas@[j]).0@);
                assert(c == kk) by {
                    if c < kk {
                        assert(!meta_matches(dev@, metas@[c].0@));
                    } else if c > kk {
                        assert(!meta_matches(dev@, metas@[kk].0@));
                    }
                }
            }
            return Some(k);
        }
        k = k + 1;
    }
    None
}

fn physical_display(
    generation: u64,
    m: &ProbedMonitor,
    j: usize,
    metas: &Vec<(String, DisplayConnectionMeta)>,
    ordinal: u64,
) -> (d: BrightnessDisplay)
    requires
        j < m.physicals@.len(),
    ensures
        physical_shown(d, generation, *m, j as int, metas@, ordinal as nat),
{
    let mi = meta_lookup(metas, &m.device_name);
    let friendly = match mi {
        Some(k) => metas[k].1.friendly_name.clone(),
        None => String::new(),
    };
    let conn = match mi {
        Some(k) => metas[k].1.connection_type.clone(),
        None => owned("HDMI / DP"),
    };
    let ph = &m.physicals[j];
    let desc = chars_of(ph.description.as_str());
    let name = if chars_of(friendly.as_str()).len() > 0 {
        friendly
    } else if desc.len() > 0 && !chars_eq_str(&desc, "Generic PnP Monitor") {
        ph.description.clone()
    } else {
        let mut n = owned("Монитор ");
        push_decimal(&mut n, ordinal);
        n
    };
    let id = compute_display_id(m.device_name.as_str(), ph.description.as_str(), j);
    match ph.reading {
        Some((b, min, cur, max)) => {
            let pct = raw_to_percent(cur, min, max);
            BrightnessDisplay {
                id,
                generation,
                name,
                connection: Some(conn),
                is_primary: m.is_primary,
                backend: Some(b),
                probe_state: ProbeState::ReadOk,
                verification: VerificationState::NotTested,
                current_percent: Some(pct),
                target_percent: Some(pct),
                raw_min: Some(min),
                raw_max: Some(max),
                available_levels: None,
                busy: false,
                error: None,
                device_name: Some(m.device_name.clone()),
            }
        },
        None => BrightnessDisplay {
            id,
            generation,
            name,
            connection: Some(conn),
            is_primary: m.is_primary,
            backend: None,
            probe_state: ProbeState::NoResponse,
            verification: VerificationState::NotTested,
            current_percent: None,
            target_percent: None,
            raw_min: None,
            raw_max: None,
            available_levels: None,
            busy: false,
            error: Some(BrightnessError::new("ddc_not_supported", "DDC/CI Probe", true)),
            device_name: Some(m.device_name.clone()),
        },
    }
}

fn wmi_display(generation: u64, w: &WmiBrightnessInfo, i: usize, is_primary: bool) -> (d: BrightnessDisplay)
    requires
        i < 0xffff_ffff_ffff_ffff,
    ensures
        wmi_shown(d, generation, *w, i as int, is_primary),
{
    let mut name = owned("Встроенный экран ");
    push_decimal(&mut name, (i as u64) + 1);
    BrightnessDisplay {
        id: wmi_display_id(&w.instance_name),
        generation,
        name,
        connection: Some(owned("Internal")),
        is_primary,
        backend: Some(BrightnessBackend::Wmi),
        probe_state: ProbeState::ReadOk,
        verification: VerificationState::NotTested,
        current_percent: Some(w.current),
        target_percent: Some(w.current),
        raw_min: Some(0),
        raw_max: Some(100),
        available_levels: if w.levels.len() == 0 {
            None
        } else {
            Some(w.levels.clone())
        },
        busy: false,
        error: None,
        device_name: None,
    }
}

fn has_display_id(ds: &Vec<BrightnessDisplay>, id: &String) -> (r: bool)
    ensures
        r == ids_of(ds@).contains(id@),
{
    let mut i: usize = 0;
    while i < ds.len()
        invariant
            i <= ds@.len(),
            forall|j: int| 0 <= j < i ==> (#[trigger] ds@[j]).id@ != id@,
        decreases ds.len() - i,
    {
        if ds[i].id == *id {
            assert(ids_of(ds@)[i as int] == id@);
            return true;
        }
        i = i + 1;
    }
    proof {
        if ids_of(ds@).contains(id@) {
            let k = choose|k: int| 0 <= k < ids_of(ds@).len() && ids_of(ds@)[k] == id@;
            assert(ds@[k].id@ == id@);
        }
    }
    false
}

proof fn lemma_physical_count_step(ms: Seq<ProbedMonitor>, n: int)
    requires
        0 <= n < ms.len(),
    ensures
        physical_count(ms, n + 1) == physical_count(ms, n) + ms[n].physicals@.len(),
{
}

proof fn lemma_physical_count_mono(ms: Seq<ProbedMonitor>, a: int, b: int)
    requires
        0 <= a <= b <= ms.len(),
    ensures
        physical_count(ms, a) + ms[a].physicals@.len() <= physical_count(ms, b) || a == b,
        physical_count(ms, a) <= physical_count(ms, b),
    decreases b - a,
{
    if a < b {
        lemma_physical_count_mono(ms, a, b - 1);
        if a < b - 1 {
            lemma_physical_count_mono(ms, a, b - 1);
        }
    }
}

/// The displays found: every physical monitor in enumeration order, then each
/// WMI monitor whose id none of the displays before it has. Only when no
/// physical monitor is found is the first WMI monitor the primary one.
pub fn assemble_displays(
    generation: u64,
    monitors: &Vec<ProbedMonitor>,
    metas: &Vec<(String, DisplayConnectionMeta)>,
    wmi: &Vec<WmiBrightnessInfo>,
) -> (r: Vec<BrightnessDisplay>)
    requires
        physical_count(monitors@, monitors@.len() as int) < 0x7fff_ffff,
    ensures
        ({
            let p = physical_count(monitors@, monitors@.len() as int);
            let added = wmi_added(ids_of(r@.take(p as int)), wmi@, wmi@.len() as int);
            &&& r@.len() == p + added.len()
            &&& forall|mi: int, j: int|
                0 <= mi < monitors@.len() && 0 <= j < monitors@[mi].physicals@.len() ==> physical_shown(
                    #[trigger] r@[physical_count(monitors@, mi) + j],
                    generation,
                    monitors@[mi],
                    j,
                    metas@,
                    (physical_count(monitors@, mi) + j + 1) as nat,
                )
            &&& forall|t: int|
                0 <= t < added.len() ==> wmi_shown(
                    #[trigger] r@[p + t],
                    generation,
                    wmi@[added[t]],
                    added[t],
                    p == 0 && added[t] == 0,
                )
        }),
{
    let mut out: Vec<BrightnessDisplay> = Vec::new();
    let mut ordinal: u64 = 1;
    let mut mi: usize = 0;
    while mi < monitors.len()
        invariant
            mi <= monitors@.len(),
            out@.len() == physical_count(monitors@, mi as int),
            ordinal == out@.len() + 1,
            physical_count(monitors@, monitors@.len() as int) < 0x7fff_ffff,
            forall|m2: int, j: int|
                0 <= m2 < mi && 0 <= j < monitors@[m2].physicals@.len() ==> physical_shown(
                    #[trigger] out@[physical_count(monitors@, m2) + j],
                    generation,
                    monitors@[m2],
                    j,
                    metas@,
                    (physical_count(monitors@, m2) + j + 1) as nat,
                ),
        decreases monitors.len() - mi,
    {
        let m = &monitors[mi];
        proof {
            lemma_physical_count_mono(monitors@, mi as int + 1, monitors@.len() as int);
            lemma_physical_count_step(monitors@, mi as int);
        }
        let mut j: usize = 0;
        while j < m.physicals.len()
            invariant
                mi < monitors@.len(),
                *m == monitors@[mi as int],
                j <= m.physicals@.len(),
                out@.len() == physical_count(monitors@, mi as int) + j,
                ordinal == out@.len() + 1,
                physical_count(monitors@, mi as int) + m.physicals@.len() < 0x7fff_ffff,
                forall|m2: int, jj: int|
                    0 <= m2 < mi && 0 <= jj < monitors@[m2].physicals@.len() ==> physical_shown(
                        #[trigger] out@[physical_count(monitors@, m2) + jj],
                        generation,
                        monitors@[m2],
                        jj,
                        metas@,
                        (physical_count(monitors@, m2) + jj + 1) as nat,
                    ),
                forall|jj: int|
                    0 <= jj < j ==> physical_shown(
                        #[trigger] out@[physical_count(monitors@, mi as int) + jj],
                        generation,
                        monitors@[mi as int],
                        jj,
                        metas@,
                        (physical_count(monitors@, mi as int) + jj + 1) as nat,
                    ),
            decreases m.physicals.len() - j,
        {
            let d = physical_display(generation, m, j, metas, ordinal);
            let ghost before = out@;
            out.push(d);
            proof {
                assert forall|m2: int, jj: int|
                    0 <= m2 < mi && 0 <= jj < monitors@[m2].physicals@.len() implies physical_shown(
                        #[trigger] out@[physical_count(monitors@, m2) + jj],
                        generation,
                        monitors@[m2],
                        jj,
                        metas@,
                        (physical_count(monitors@, m2) + jj + 1) as nat,
                    ) by {
                    lemma_physical_count_mono(monitors@, m2, mi as int);
                    lemma_physical_count_mono(monitors@, m2 + 1, mi as int);
                    lemma_physical_count_step(monitors@, m2);
                    assert(out@[physical_count(monitors@, m2) + jj] == before[physical_count(monitors@, m2) + jj]);
                }
            }
            ordinal = ordinal + 1;
            j = j + 1;
        }
        mi = mi + 1;
    }
    let ghost p = out@.len();
    let ghost prior = ids_of(out@);
    let mut i: usize = 0;
    while i < wmi.len()
        invariant
            i <= wmi@.len(),
            p == physical_count(monitors@, monitors@.len() as int),
            prior == ids_of(out@.take(p as int)),
            out@.len() == p + wmi_added(prior, wmi@, i as int).len(),
            ids_of(out@) == prior + wmi_ids(wmi@, wmi_added(prior, wmi@, i as int)),
            forall|t: int| 0 <= t < wmi_added(prior, wmi@, i as int).len() ==> 0 <= #[trigger] wmi_added(prior, wmi@, i as int)[t] < i,
            forall|m2: int, j: int|
                0 <= m2 < monitors@.len() && 0 <= j < monitors@[m2].physicals@.len() ==> physical_shown(
                    #[trigger] out@[physical_count(monitors@, m2) + j],
                    generation,
                    monitors@[m2],
                    j,
                    metas@,
                    (physical_count(monitors@, m2) + j + 1) as nat,
                ),
            forall|t: int|
                0 <= t < wmi_added(prior, wmi@, i as int).len() ==> wmi_shown(
                    #[trigger] out@[p + t],
                    generation,
                    wmi@[wmi_added(prior, wmi@, i as int)[t]],
                    wmi_added(prior, wmi@, i as int)[t],
                    p == 0 && wmi_added(prior, wmi@, i as int)[t] == 0,
                ),
        decreases wmi.len() - i,
    {
        let id = wmi_display_id(&wmi[i].instance_name);
        let ghost a = wmi_added(prior, wmi@, i as int);
        if !has_display_id(&out, &id) {
            let primary = out.len() == 0 && i == 0;
            let d = wmi_display(generation, &wmi[i], i, primary);
            let ghost before = out@;
            out.push(d);
            proof {
                assert(wmi_added(prior, wmi@, i + 1) == a.push(i as int));
                assert(ids_of(out@) =~= ids_of(before).push(d.id@));
                assert(wmi_ids(wmi@, a.push(i as int)) =~= wmi_ids(wmi@, a).push(wmi_id_of(wmi@[i as int].instance_name@)));
                assert(out@.take(p as int) =~= before.take(p as int));
                assert forall|m2: int, j: int|
                    0 <= m2 < monitors@.len() && 0 <= j < monitors@[m2].physicals@.len() implies physical_shown(
                        #[trigger] out@[physical_count(monitors@, m2) + j],
                        generation,
                        monitors@[m2],
                        j,
                        metas@,
                        (physical_count(monitors@, m2) + j + 1) as nat,
                    ) by {
                    lemma_physical_count_mono(monitors@, m2 + 1, monitors@.len() as int);
                    lemma_physical_count_step(monitors@, m2);
                    assert(out@[physical_count(monitors@, m2) + j] == before[physical_count(monitors@, m2) + j]);
                }
                if primary {
                    assert(p == 0);
                } else {
                    if p == 0 && i == 0 {
                        assert(before.len() == 0);
                    }
                }
            }
        } else {
            proof {
                assert(wmi_added(prior, wmi@, i + 1) == a);
            }
        }
        i = i + 1;
    }
    proof {
        assert(out@.take(p as int) =~= out@.take(p as int));
    }
    out
}

} // verus!
