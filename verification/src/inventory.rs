//! The capability inventory: which monitors are attached, and for each,
//! the set of resolution and refresh-rate pairs it supports.  Built once
//! at startup from what the windowing thread reports; read-only after.

use vstd::prelude::*;
use vstd::string::StrSliceExecFns;
use vstd::string::StringExecFns;
use crate::sink::RefreshRate;
use crate::sink::Resolution;
use crate::sink::ResolutionJson;
use crate::sink::resolution_json;

verus! {

/// One raw display mode as the windowing subsystem reports it: a pixel
/// size and a refresh rate in millihertz.
#[derive(Clone, Copy, PartialEq, Eq, Debug, Structural)]
pub struct VideoMode {
    pub width: u32,
    pub height: u32,
    pub refresh_rate_millihertz: u32,
}

/// One raw monitor as the windowing subsystem reports it: its name and
/// every video mode it advertises.
#[derive(Clone, PartialEq, Eq, Debug)]
pub struct MonitorReport {
    pub name: String,
    pub modes: Vec<VideoMode>,
}

/// The refresh rates supported at one resolution.
#[derive(Clone, PartialEq, Eq, Debug)]
pub struct ResolutionRates {
    pub resolution: ResolutionJson,
    pub refresh_rates_hz: Vec<RefreshRate>,
}

/// One monitor's entry in the inventory: its sanitized name and its
/// supported modes, grouped by resolution.
#[derive(Clone, PartialEq, Eq, Debug)]
pub struct MonitorData {
    pub name: String,
    pub modes: Vec<ResolutionRates>,
}

/// The queried set of monitors and the display modes each supports.
#[derive(Clone, PartialEq, Eq, Debug)]
pub struct CapabilityInventory {
    pub monitors: Vec<MonitorData>,
}

/// `s` with every backslash removed.
pub open spec fn strip_backslashes(s: Seq<char>) -> Seq<char>
    decreases s.len(),
{
    if s.len() == 0 {
        Seq::empty()
    } else if s.last() == '\\' {
        strip_backslashes(s.drop_last())
    } else {
        strip_backslashes(s.drop_last()) + seq![s.last()]
    }
}

/// Removes every backslash from a monitor name, so that names coming
/// from the windowing subsystem (such as `\\.\DISPLAY1`) compare stably.
pub fn sanitize_monitor_name(monitor_name: String) -> (r: String)
    ensures
        r@ == strip_backslashes(monitor_name@),
{
    let s = monitor_name.as_str();
    let len = s.unicode_len();
    let mut out = String::new();
    let mut i: usize = 0;
    while i < len
        invariant
            0 <= i <= len,
            len == s@.len(),
            out@ == strip_backslashes(s@.subrange(0, i as int)),
        decreases len - i,
    {
        let c = s.get_char(i);
        proof {
            assert(s@.subrange(0, i + 1).drop_last() =~= s@.subrange(0, i as int));
            assert(s@.subrange(0, i + 1).last() == s@[i as int]);
        }
        if c != '\\' {
            let piece = s.substring_char(i, i + 1);
            proof {
                assert(piece@ =~= seq![s@[i as int]]);
            }
            out.append(piece);
        }
        i = i + 1;
    }
    proof {
        assert(s@.subrange(0, len as int) =~= s@);
    }
    out
}

/// A mode list holds resolution text `res` at `hz` hertz.
pub open spec fn list_has_mode(l: Seq<ResolutionRates>, res: Seq<char>, hz: u32) -> bool {
    exists|i: int, j: int|
        {
            &&& 0 <= i < l.len()
            &&& l[i].resolution@ == res
            &&& 0 <= j < l[i].refresh_rates_hz@.len()
            &&& #[trigger] l[i].refresh_rates_hz@[j] == hz
        }
}

/// The monitor `m` supports resolution text `res` at `hz` hertz.
pub open spec fn monitor_has_mode(m: MonitorData, res: Seq<char>, hz: u32) -> bool {
    list_has_mode(m.modes@, res, hz)
}

/// The raw report `r` advertises resolution text `res` at `hz` hertz,
/// with millihertz truncated to whole hertz.
pub open spec fn report_has_mode(r: MonitorReport, res: Seq<char>, hz: u32) -> bool {
    exists|k: int|
        {
            &&& 0 <= k < r.modes@.len()
            &&& resolution_json(
                (#[trigger] r.modes@[k]).width as nat,
                r.modes@[k].height as nat,
            ) == res
            &&& r.modes@[k].refresh_rate_millihertz / 1000 == hz
        }
}

/// A mode list is well formed: resolutions occur once each, and the
/// rates under one resolution occur once each.
pub open spec fn mode_list_wf(l: Seq<ResolutionRates>) -> bool {
    &&& forall|i: int, j: int|
        0 <= i < j < l.len() ==> (#[trigger] l[i]).resolution@ != (#[trigger] l[j]).resolution@
    &&& forall|i: int, j: int, k: int|
        0 <= i < l.len() && 0 <= j < k < l[i].refresh_rates_hz@.len() ==> (
        #[trigger] l[i].refresh_rates_hz@[j]) != (#[trigger] l[i].refresh_rates_hz@[k])
}

/// A monitor entry is well formed: resolutions occur once each, and the
/// rates under one resolution occur once each.
pub open spec fn monitor_data_wf(m: MonitorData) -> bool {
    mode_list_wf(m.modes@)
}

/// The inventory is well formed: monitor names occur once each and every
/// entry is well formed.
pub open spec fn inventory_wf(inv: CapabilityInventory) -> bool {
    &&& forall|i: int, j: int|
        0 <= i < j < inv.monitors@.len() ==> (#[trigger] inv.monitors@[i]).name@ != (
        #[trigger] inv.monitors@[j]).name@
    &&& forall|i: int|
        0 <= i < inv.monitors@.len() ==> monitor_data_wf(#[trigger] inv.monitors@[i])
}

/// Some entry of the run carries this monitor name.
pub open spec fn entries_contain(entries: Seq<MonitorData>, name: Seq<char>) -> bool {
    exists|i: int| 0 <= i < entries.len() && (#[trigger] entries[i]).name@ == name
}

/// Some entry of the inventory carries this monitor name.
pub open spec fn contains_monitor(inv: CapabilityInventory, name: Seq<char>) -> bool {
    entries_contain(inv.monitors@, name)
}

/// The index of the inventory entry carrying this monitor name.
pub open spec fn monitor_index(inv: CapabilityInventory, name: Seq<char>) -> int {
    choose|i: int| 0 <= i < inv.monitors@.len() && (#[trigger] inv.monitors@[i]).name@ == name
}

/// The names of all monitors in the inventory, in order.
pub open spec fn monitor_names(inv: CapabilityInventory) -> Seq<Seq<char>> {
    inv.monitors@.map_values(|m: MonitorData| m.name@)
}

/// A run of monitor entries holds, under this monitor name, this
/// resolution text at this rate.
pub open spec fn entries_have_mode(
    entries: Seq<MonitorData>,
    name: Seq<char>,
    res: Seq<char>,
    hz: u32,
) -> bool {
    exists|i: int|
        0 <= i < entries.len() && (#[trigger] entries[i]).name@ == name && monitor_has_mode(
            entries[i],
            res,
            hz,
        )
}

/// The inventory holds, under this monitor name, this resolution text
/// at this rate.
pub open spec fn inventory_has_mode(
    inv: CapabilityInventory,
    name: Seq<char>,
    res: Seq<char>,
    hz: u32,
) -> bool {
    entries_have_mode(inv.monitors@, name, res, hz)
}

/// One of the reports carries this sanitized name.
pub open spec fn report_named(reports: Seq<MonitorReport>, name: Seq<char>) -> bool {
    exists|k: int|
        0 <= k < reports.len() && strip_backslashes((#[trigger] reports[k]).name@) == name
}

/// Some report with this sanitized name advertises this mode.
pub open spec fn reports_have_mode(
    reports: Seq<MonitorReport>,
    name: Seq<char>,
    res: Seq<char>,
    hz: u32,
) -> bool {
    exists|k: int|
        {
            &&& 0 <= k < reports.len()
            &&& strip_backslashes((#[trigger] reports[k]).name@) == name
            &&& report_has_mode(reports[k], res, hz)
        }
}

/// Whether `rates` holds `hz`.
pub(crate) fn rates_hold(rates: &Vec<RefreshRate>, hz: RefreshRate) -> (r: bool)
    ensures
        r == rates@.contains(hz),
{
    let n = rates.len();
    let mut i: usize = 0;
    while i < n
        invariant
            0 <= i <= n,
            n == rates@.len(),
            forall|k: int| 0 <= k < i ==> rates@[k] != hz,
        decreases n - i,
    {
        if rates[i] == hz {
            return true;
        }
        i = i + 1;
    }
    false
}

/// A plain copy of a rate list.
pub(crate) fn copy_rate_list(v: &Vec<RefreshRate>) -> (r: Vec<RefreshRate>)
    ensures
        r@ == v@,
{
    let n = v.len();
    let mut out: Vec<RefreshRate> = Vec::new();
    let mut i: usize = 0;
    while i < n
        invariant
            0 <= i <= n,
            n == v@.len(),
            out@ == v@.subrange(0, i as int),
        decreases n - i,
    {
        out.push(v[i]);
        proof {
            assert(out@ =~= v@.subrange(0, i + 1));
        }
        i = i + 1;
    }
    proof {
        assert(v@.subrange(0, n as int) =~= v@);
    }
    out
}

/// The position of the entry for this resolution text, if any.
pub(crate) fn find_rates_for(l: &Vec<ResolutionRates>, res: &String) -> (r: Option<usize>)
    ensures
        match r {
            Some(i) => 0 <= i < l@.len() && (l@[i as int]).resolution@ == res@,
            None => forall|i: int| 0 <= i < l@.len() ==> (#[trigger] l@[i]).resolution@ != res@,
        },
{
    let n = l.len();
    let mut i: usize = 0;
    while i < n
        invariant
            0 <= i <= n,
            n == l@.len(),
            forall|k: int| 0 <= k < i ==> (#[trigger] l@[k]).resolution@ != res@,
        decreases n - i,
    {
        if l[i].resolution == *res {
            return Some(i);
        }
        i = i + 1;
    }
    None
}

/// Enters one mode into a grouped list: a new resolution entry when the
/// resolution is new, a new rate under the existing entry when the rate
/// is new, and nothing when the pair is already present.
fn add_mode_to_list(l: &mut Vec<ResolutionRates>, res: String, hz: RefreshRate)
    requires
        mode_list_wf(old(l)@),
    ensures
        mode_list_wf(final(l)@),
        list_has_mode(final(l)@, res@, hz),
        forall|r2: Seq<char>, h2: u32|
            #[trigger] list_has_mode(old(l)@, r2, h2) ==> list_has_mode(final(l)@, r2, h2),
        forall|i: int, j: int|
            0 <= i < final(l)@.len() && 0 <= j < final(l)@[i].refresh_rates_hz@.len()
                ==> list_has_mode(
                old(l)@,
                final(l)@[i].resolution@,
                #[trigger] final(l)@[i].refresh_rates_hz@[j],
            ) || (final(l)@[i].resolution@ == res@ && final(l)@[i].refresh_rates_hz@[j] == hz),
{
    match find_rates_for(l, &res) {
        None => {
            let mut rates: Vec<RefreshRate> = Vec::new();
            rates.push(hz);
            let ghost before = l@;
            l.push(ResolutionRates { resolution: res, refresh_rates_hz: rates });
            proof {
                let n = l@.len() - 1;
                assert(l@[n].refresh_rates_hz@[0] == hz);
                assert(list_has_mode(l@, res@, hz));
                assert forall|r2: Seq<char>, h2: u32|
                    #[trigger] list_has_mode(before, r2, h2) implies list_has_mode(
                    l@,
                    r2,
                    h2,
                ) by {
                    let (i, j) = choose|i: int, j: int|
                        {
                            &&& 0 <= i < before.len()
                            &&& before[i].resolution@ == r2
                            &&& 0 <= j < before[i].refresh_rates_hz@.len()
                            &&& #[trigger] before[i].refresh_rates_hz@[j] == h2
                        };
                    assert(l@[i].refresh_rates_hz@[j] == h2);
                }
            }
        },
        Some(i) => {
            if !rates_hold(&l[i].refresh_rates_hz, hz) {
                let mut rates = copy_rate_list(&l[i].refresh_rates_hz);
                rates.push(hz);
                let name = l[i].resolution.clone();
                let ghost before = l@;
                l.set(i, ResolutionRates { resolution: name, refresh_rates_hz: rates });
                proof {
                    let ln = l@[i as int].refresh_rates_hz@.len() - 1;
                    assert(l@[i as int].refresh_rates_hz@[ln] == hz);
                    assert(list_has_mode(l@, res@, hz));
                    assert forall|r2: Seq<char>, h2: u32|
                        #[trigger] list_has_mode(before, r2, h2) implies list_has_mode(
                        l@,
                        r2,
                        h2,
                    ) by {
                        let (a, b) = choose|a: int, b: int|
                            {
                                &&& 0 <= a < before.len()
                                &&& before[a].resolution@ == r2
                                &&& 0 <= b < before[a].refresh_rates_hz@.len()
                                &&& #[trigger] before[a].refresh_rates_hz@[b] == h2
                            };
                        if a == i {
                            assert(l@[a].refresh_rates_hz@[b] == h2);
                        } else {
                            assert(l@[a].refresh_rates_hz@[b] == h2);
                        }
                    }
                }
            } else {
                proof {
                    let b = choose|b: int|
                        0 <= b < l@[i as int].refresh_rates_hz@.len()
                            && l@[i as int].refresh_rates_hz@[b] == hz;
                    assert(l@[i as int].refresh_rates_hz@[b] == hz);
                    assert(list_has_mode(l@, res@, hz));
                }
            }
        },
    }
}

/// Folds a report's raw video modes into a grouped list, converting
/// millihertz to whole hertz.  Every pair already in the list stays;
/// every advertised pair ends up present; nothing else appears.
fn merge_modes(base: Vec<ResolutionRates>, modes: &Vec<VideoMode>) -> (r: Vec<ResolutionRates>)
    requires
        mode_list_wf(base@),
    ensures
        mode_list_wf(r@),
        forall|r2: Seq<char>, h2: u32|
            #[trigger] list_has_mode(base@, r2, h2) ==> list_has_mode(r@, r2, h2),
        forall|t: int|
            0 <= t < modes@.len() ==> list_has_mode(
                r@,
                resolution_json((#[trigger] modes@[t]).width as nat, modes@[t].height as nat),
                modes@[t].refresh_rate_millihertz / 1000,
            ),
        forall|i: int, j: int|
            0 <= i < r@.len() && 0 <= j < r@[i].refresh_rates_hz@.len() ==> list_has_mode(
                base@,
                r@[i].resolution@,
                #[trigger] r@[i].refresh_rates_hz@[j],
            ) || (exists|t: int|
                {
                    &&& 0 <= t < modes@.len()
                    &&& resolution_json(
                        (#[trigger] modes@[t]).width as nat,
                        modes@[t].height as nat,
                    ) == r@[i].resolution@
                    &&& modes@[t].refresh_rate_millihertz / 1000 == r@[i].refresh_rates_hz@[j]
                }),
{
    let mut out = base;
    let n = modes.len();
    let mut t: usize = 0;
    while t < n
        invariant
            0 <= t <= n,
            n == modes@.len(),
            mode_list_wf(out@),
            forall|r2: Seq<char>, h2: u32|
                #[trigger] list_has_mode(base@, r2, h2) ==> list_has_mode(out@, r2, h2),
            forall|a: int|
                0 <= a < t ==> list_has_mode(
                    out@,
                    resolution_json((#[trigger] modes@[a]).width as nat, modes@[a].height as nat),
                    modes@[a].refresh_rate_millihertz / 1000,
                ),
            forall|i: int, j: int|
                0 <= i < out@.len() && 0 <= j < out@[i].refresh_rates_hz@.len() ==> list_has_mode(
                    base@,
                    out@[i].resolution@,
                    #[trigger] out@[i].refresh_rates_hz@[j],
                ) || (exists|a: int|
                    {
                        &&& 0 <= a < t
                        &&& resolution_json(
                            (#[trigger] modes@[a]).width as nat,
                            modes@[a].height as nat,
                        ) == out@[i].resolution@
                        &&& modes@[a].refresh_rate_millihertz / 1000 == out@[i].refresh_rates_hz@[j]
                    }),
        decreases n - t,
    {
        let vm = modes[t];
        let res = Resolution { width: vm.width, height: vm.height }.to_json();
        let hz = vm.refresh_rate_millihertz / 1000;
        let ghost prev = out@;
        add_mode_to_list(&mut out, res, hz);
        proof {
            assert forall|a: int|
                0 <= a < t + 1 implies list_has_mode(
                out@,
                resolution_json((#[trigger] modes@[a]).width as nat, modes@[a].height as nat),
                modes@[a].refresh_rate_millihertz / 1000,
            ) by {
                if a < t {
                    assert(list_has_mode(
                        prev,
                        resolution_json(modes@[a].width as nat, modes@[a].height as nat),
                        modes@[a].refresh_rate_millihertz / 1000,
                    ));
                } else {
                    assert(modes@[a] == vm);
                }
            }
            assert forall|i: int, j: int|
                0 <= i < out@.len() && 0 <= j < out@[i].refresh_rates_hz@.len()
                    implies list_has_mode(
                base@,
                out@[i].resolution@,
                #[trigger] out@[i].refresh_rates_hz@[j],
            ) || (exists|a: int|
                {
                    &&& 0 <= a < t + 1
                    &&& resolution_json(
                        (#[trigger] modes@[a]).width as nat,
                        modes@[a].height as nat,
                    ) == out@[i].resolution@
                    &&& modes@[a].refresh_rate_millihertz / 1000 == out@[i].refresh_rates_hz@[j]
                }) by {
                let r2 = out@[i].resolution@;
                let h2 = out@[i].refresh_rates_hz@[j];
                if list_has_mode(prev, r2, h2) {
                    let (x, y) = choose|x: int, y: int|
                        {
                            &&& 0 <= x < prev.len()
                            &&& prev[x].resolution@ == r2
                            &&& 0 <= y < prev[x].refresh_rates_hz@.len()
                            &&& #[trigger] prev[x].refresh_rates_hz@[y] == h2
                        };
                    if !list_has_mode(base@, r2, h2) {
                        let a = choose|a: int|
                            {
                                &&& 0 <= a < t
                                &&& resolution_json(
                                    (#[trigger] modes@[a]).width as nat,
                                    modes@[a].height as nat,
                                ) == prev[x].resolution@
                                &&& modes@[a].refresh_rate_millihertz / 1000
                                    == prev[x].refresh_rates_hz@[y]
                            };
                        assert(resolution_json(modes@[a].width as nat, modes@[a].height as nat)
                            == r2 && modes@[a].refresh_rate_millihertz / 1000 == h2);
                    }
                } else {
                    assert(r2 == res@ && h2 == hz);
                    assert(resolution_json(modes@[t as int].width as nat, modes@[t as int].height as nat)
                        == r2 && modes@[t as int].refresh_rate_millihertz / 1000 == h2);
                }
            }
        }
        t = t + 1;
    }
    out
}

/// The position of the entry carrying this monitor name, if any.
pub(crate) fn find_monitor_entry(monitors: &Vec<MonitorData>, name: &String) -> (r: Option<usize>)
    ensures
        match r {
            Some(i) => 0 <= i < monitors@.len() && (monitors@[i as int]).name@ == name@,
            None => forall|i: int|
                0 <= i < monitors@.len() ==> (#[trigger] monitors@[i]).name@ != name@,
        },
{
    let n = monitors.len();
    let mut i: usize = 0;
    while i < n
        invariant
            0 <= i <= n,
            n == monitors@.len(),
            forall|k: int| 0 <= k < i ==> (#[trigger] monitors@[k]).name@ != name@,
        decreases n - i,
    {
        if monitors[i].name == *name {
            return Some(i);
        }
        i = i + 1;
    }
    None
}

/// A copy of a grouped mode list with the same content.
fn duplicate_modes(l: &Vec<ResolutionRates>) -> (r: Vec<ResolutionRates>)
    ensures
        r@.len() == l@.len(),
        forall|i: int|
            0 <= i < l@.len() ==> (#[trigger] r@[i]).resolution@ == l@[i].resolution@
                && r@[i].refresh_rates_hz@ == l@[i].refresh_rates_hz@,
{
    let n = l.len();
    let mut out: Vec<ResolutionRates> = Vec::new();
    let mut i: usize = 0;
    while i < n
        invariant
            0 <= i <= n,
            n == l@.len(),
            out@.len() == i,
            forall|k: int|
                0 <= k < i ==> (#[trigger] out@[k]).resolution@ == l@[k].resolution@
                    && out@[k].refresh_rates_hz@ == l@[k].refresh_rates_hz@,
        decreases n - i,
    {
        out.push(
            ResolutionRates {
                resolution: l[i].resolution.clone(),
                refresh_rates_hz: copy_rate_list(&l[i].refresh_rates_hz),
            },
        );
        i = i + 1;
    }
    out
}

/// Builds the capability inventory from what the windowing subsystem
/// reports: one entry per distinct sanitized monitor name — present
/// even when a monitor reports zero modes — holding the monitor's
/// advertised resolution and refresh-rate pairs, grouped by resolution,
/// with millihertz truncated to whole hertz.  Reports that share a name
/// after sanitizing pool their modes.  Exactly the advertised pairs
/// appear, each once.
pub fn gather_monitor_info(reports: &Vec<MonitorReport>) -> (r: CapabilityInventory)
    ensures
        inventory_wf(r),
        forall|k: int|
            0 <= k < reports@.len() ==> contains_monitor(
                r,
                strip_backslashes((#[trigger] reports@[k]).name@),
            ),
        forall|i: int|
            0 <= i < r.monitors@.len() ==> report_named(
                reports@,
                (#[trigger] r.monitors@[i]).name@,
            ),
        forall|k: int, t: int|
            0 <= k < reports@.len() && 0 <= t < reports@[k].modes@.len() ==> inventory_has_mode(
                r,
                strip_backslashes(reports@[k].name@),
                resolution_json(
                    (#[trigger] reports@[k].modes@[t]).width as nat,
                    reports@[k].modes@[t].height as nat,
                ),
                reports@[k].modes@[t].refresh_rate_millihertz / 1000,
            ),
        forall|i: int, j: int, l: int|
            0 <= i < r.monitors@.len() && 0 <= j < r.monitors@[i].modes@.len() && 0 <= l
                < r.monitors@[i].modes@[j].refresh_rates_hz@.len() ==> reports_have_mode(
                reports@,
                r.monitors@[i].name@,
                r.monitors@[i].modes@[j].resolution@,
                #[trigger] r.monitors@[i].modes@[j].refresh_rates_hz@[l],
            ),
{
    let n = reports.len();
    let mut monitors: Vec<MonitorData> = Vec::new();
    let mut k: usize = 0;
    while k < n
        invariant
            0 <= k <= n,
            n == reports@.len(),
            forall|a: int, b: int|
                0 <= a < b < monitors@.len() ==> (#[trigger] monitors@[a]).name@ != (
                #[trigger] monitors@[b]).name@,
            forall|a: int| 0 <= a < monitors@.len() ==> mode_list_wf((#[trigger] monitors@[a]).modes@),
            forall|a: int|
                0 <= a < k ==> entries_contain(
                    monitors@,
                    strip_backslashes((#[trigger] reports@[a]).name@),
                ),
            forall|i: int|
                0 <= i < monitors@.len() ==> report_named(
                    reports@.subrange(0, k as int),
                    (#[trigger] monitors@[i]).name@,
                ),
            forall|a: int, t: int|
                0 <= a < k && 0 <= t < reports@[a].modes@.len() ==> entries_have_mode(
                    monitors@,
                    strip_backslashes(reports@[a].name@),
                    resolution_json(
                        (#[trigger] reports@[a].modes@[t]).width as nat,
                        reports@[a].modes@[t].height as nat,
                    ),
                    reports@[a].modes@[t].refresh_rate_millihertz / 1000,
                ),
            forall|i: int, j: int, l: int|
                0 <= i < monitors@.len() && 0 <= j < monitors@[i].modes@.len() && 0 <= l
                    < monitors@[i].modes@[j].refresh_rates_hz@.len() ==> reports_have_mode(
                    reports@.subrange(0, k as int),
                    monitors@[i].name@,
                    monitors@[i].modes@[j].resolution@,
                    #[trigger] monitors@[i].modes@[j].refresh_rates_hz@[l],
                ),
        decreases n - k,
    {
        let report = &reports[k];
        let name = sanitize_monitor_name(report.name.clone());
        let ghost prev = monitors@;
        let ghost sub0 = reports@.subrange(0, k as int);
        let ghost sub1 = reports@.subrange(0, k + 1);
        proof {
            assert(forall|a: int| 0 <= a < k ==> sub0[a] == #[trigger] reports@[a]);
            assert(forall|a: int| 0 <= a <= k ==> sub1[a] == #[trigger] reports@[a]);
        }
        match find_monitor_entry(&monitors, &name) {
            None => {
                let empty_base: Vec<ResolutionRates> = Vec::new();
                let modes = merge_modes(empty_base, &report.modes);
                monitors.push(MonitorData { name, modes });
                proof {
                    let m = monitors@;
                    let last = m.len() - 1;
                    // Names stay distinct: the new name matched no entry.
                    assert forall|a: int, b: int|
                        0 <= a < b < m.len() implies (#[trigger] m[a]).name@ != (
                    #[trigger] m[b]).name@ by {
                        if b == last {
                            assert(m[a] == prev[a]);
                        }
                    }
                    // Old reports still have their entries; the new
                    // report has the pushed entry.
                    assert forall|a: int|
                        0 <= a < k + 1 implies entries_contain(
                        m,
                        strip_backslashes((#[trigger] reports@[a]).name@),
                    ) by {
                        if a < k {
                            let w = choose|w: int|
                                0 <= w < prev.len() && (#[trigger] prev[w]).name@
                                    == strip_backslashes(reports@[a].name@);
                            assert(m[w] == prev[w]);
                            assert((m[w]).name@ == strip_backslashes(reports@[a].name@));
                        } else {
                            assert((m[last]).name@ == strip_backslashes(reports@[k as int].name@));
                        }
                    }
                    // Every entry still answers to some processed report.
                    assert forall|x: int|
                        0 <= x < m.len() implies report_named(sub1, (#[trigger] m[x]).name@) by {
                        if x < last {
                            assert(m[x] == prev[x]);
                            let w = choose|w: int|
                                0 <= w < sub0.len() && strip_backslashes(
                                    (#[trigger] sub0[w]).name@,
                                ) == prev[x].name@;
                            assert(strip_backslashes((sub1[w]).name@) == m[x].name@);
                        } else {
                            assert(strip_backslashes((sub1[k as int]).name@) == m[x].name@);
                        }
                    }
                    // Completeness: modes of old reports still present;
                    // the new report's modes sit in the new entry.
                    assert forall|a: int, t: int|
                        0 <= a < k + 1 && 0 <= t < reports@[a].modes@.len() implies
                        entries_have_mode(
                        m,
                        strip_backslashes(reports@[a].name@),
                        resolution_json(
                            (#[trigger] reports@[a].modes@[t]).width as nat,
                            reports@[a].modes@[t].height as nat,
                        ),
                        reports@[a].modes@[t].refresh_rate_millihertz / 1000,
                    ) by {
                        let res = resolution_json(
                            reports@[a].modes@[t].width as nat,
                            reports@[a].modes@[t].height as nat,
                        );
                        let hz = reports@[a].modes@[t].refresh_rate_millihertz / 1000;
                        if a < k {
                            let w = choose|w: int|
                                0 <= w < prev.len() && (#[trigger] prev[w]).name@
                                    == strip_backslashes(reports@[a].name@) && monitor_has_mode(
                                    prev[w],
                                    res,
                                    hz,
                                );
                            assert(m[w] == prev[w]);
                        } else {
                            assert(report.modes@[t] == reports@[k as int].modes@[t]);
                            assert(list_has_mode(modes@, res, hz));
                            assert(monitor_has_mode(m[last], res, hz));
                        }
                    }
                    // Soundness: every pair of the new entry comes from
                    // the new report; old entries are untouched.
                    assert forall|x: int, j: int, l: int|
                        0 <= x < m.len() && 0 <= j < m[x].modes@.len() && 0 <= l
                            < m[x].modes@[j].refresh_rates_hz@.len() implies reports_have_mode(
                        sub1,
                        m[x].name@,
                        m[x].modes@[j].resolution@,
                        #[trigger] m[x].modes@[j].refresh_rates_hz@[l],
                    ) by {
                        let res = m[x].modes@[j].resolution@;
                        let hz = m[x].modes@[j].refresh_rates_hz@[l];
                        if x < last {
                            assert(m[x] == prev[x]);
                            assert(reports_have_mode(sub0, prev[x].name@, res, hz));
                            let w = choose|w: int|
                                {
                                    &&& 0 <= w < sub0.len()
                                    &&& strip_backslashes((#[trigger] sub0[w]).name@)
                                        == prev[x].name@
                                    &&& report_has_mode(sub0[w], res, hz)
                                };
                            assert(strip_backslashes((sub1[w]).name@) == m[x].name@);
                            assert(report_has_mode(sub1[w], res, hz));
                        } else {
                            assert(!list_has_mode(empty_base@, res, hz));
                            assert(list_has_mode(m[x].modes@, res, hz)) by {
                                assert(m[x].modes@[j].refresh_rates_hz@[l] == hz);
                            }
                            let a = choose|a: int|
                                {
                                    &&& 0 <= a < report.modes@.len()
                                    &&& resolution_json(
                                        (#[trigger] report.modes@[a]).width as nat,
                                        report.modes@[a].height as nat,
                                    ) == res
                                    &&& report.modes@[a].refresh_rate_millihertz / 1000 == hz
                                };
                            assert(report_has_mode(reports@[k as int], res, hz));
                            assert(strip_backslashes((sub1[k as int]).name@) == m[x].name@);
                        }
                    }
                }
            },
            Some(i) => {
                let existing = duplicate_modes(&monitors[i].modes);
                proof {
                    assert forall|r2: Seq<char>, h2: u32|
                        #[trigger] list_has_mode(prev[i as int].modes@, r2, h2) implies
                        list_has_mode(existing@, r2, h2) by {
                        let (x, y) = choose|x: int, y: int|
                            {
                                &&& 0 <= x < prev[i as int].modes@.len()
                                &&& prev[i as int].modes@[x].resolution@ == r2
                                &&& 0 <= y < prev[i as int].modes@[x].refresh_rates_hz@.len()
                                &&& #[trigger] prev[i as int].modes@[x].refresh_rates_hz@[y] == h2
                            };
                        assert(existing@[x].refresh_rates_hz@[y] == h2);
                    }
                    assert forall|r2: Seq<char>, h2: u32|
                        #[trigger] list_has_mode(existing@, r2, h2) implies list_has_mode(
                        prev[i as int].modes@,
                        r2,
                        h2,
                    ) by {
                        let (x, y) = choose|x: int, y: int|
                            {
                                &&& 0 <= x < existing@.len()
                                &&& existing@[x].resolution@ == r2
                                &&& 0 <= y < existing@[x].refresh_rates_hz@.len()
                                &&& #[trigger] existing@[x].refresh_rates_hz@[y] == h2
                            };
                        assert(prev[i as int].modes@[x].refresh_rates_hz@[y] == h2);
                    }
                    assert(mode_list_wf(existing@));
                }
                let merged = merge_modes(existing, &report.modes);
                let entry_name = monitors[i].name.clone();
                monitors.set(i, MonitorData { name: entry_name, modes: merged });
                proof {
                    let m = monitors@;
                    assert(m[i as int].name@ == prev[i as int].name@);
                    assert forall|a: int|
                        0 <= a < k + 1 implies entries_contain(
                        m,
                        strip_backslashes((#[trigger] reports@[a]).name@),
                    ) by {
                        if a < k {
                            let w = choose|w: int|
                                0 <= w < prev.len() && (#[trigger] prev[w]).name@
                                    == strip_backslashes(reports@[a].name@);
                            assert((m[w]).name@ == prev[w].name@);
                        } else {
                            assert((m[i as int]).name@ == strip_backslashes(
                                reports@[k as int].name@,
                            ));
                        }
                    }
                    assert forall|x: int|
                        0 <= x < m.len() implies report_named(sub1, (#[trigger] m[x]).name@) by {
                        assert(m[x].name@ == prev[x].name@);
                        let w = choose|w: int|
                            0 <= w < sub0.len() && strip_backslashes((#[trigger] sub0[w]).name@)
                                == prev[x].name@;
                        assert(strip_backslashes((sub1[w]).name@) == m[x].name@);
                    }
                    assert forall|a: int, t: int|
                        0 <= a < k + 1 && 0 <= t < reports@[a].modes@.len() implies
                        entries_have_mode(
                        m,
                        strip_backslashes(reports@[a].name@),
                        resolution_json(
                            (#[trigger] reports@[a].modes@[t]).width as nat,
                            reports@[a].modes@[t].height as nat,
                        ),
                        reports@[a].modes@[t].refresh_rate_millihertz / 1000,
                    ) by {
                        let res = resolution_json(
                            reports@[a].modes@[t].width as nat,
                            reports@[a].modes@[t].height as nat,
                        );
                        let hz = reports@[a].modes@[t].refresh_rate_millihertz / 1000;
                        if a < k {
                            let w = choose|w: int|
                                0 <= w < prev.len() && (#[trigger] prev[w]).name@
                                    == strip_backslashes(reports@[a].name@) && monitor_has_mode(
                                    prev[w],
                                    res,
                                    hz,
                                );
                            if w == i {
                                assert(list_has_mode(prev[i as int].modes@, res, hz));
                                assert(list_has_mode(existing@, res, hz));
                                assert(list_has_mode(merged@, res, hz));
                                assert(monitor_has_mode(m[i as int], res, hz));
                            } else {
                                assert(m[w] == prev[w]);
                            }
                        } else {
                            assert(report.modes@[t] == reports@[k as int].modes@[t]);
                            assert(list_has_mode(merged@, res, hz));
                            assert(monitor_has_mode(m[i as int], res, hz));
                        }
                    }
                    assert forall|x: int, j: int, l: int|
                        0 <= x < m.len() && 0 <= j < m[x].modes@.len() && 0 <= l
                            < m[x].modes@[j].refresh_rates_hz@.len() implies reports_have_mode(
                        sub1,
                        m[x].name@,
                        m[x].modes@[j].resolution@,
                        #[trigger] m[x].modes@[j].refresh_rates_hz@[l],
                    ) by {
                        let res = m[x].modes@[j].resolution@;
                        let hz = m[x].modes@[j].refresh_rates_hz@[l];
                        if x != i {
                            assert(m[x] == prev[x]);
                            assert(reports_have_mode(sub0, prev[x].name@, res, hz));
                            let w = choose|w: int|
                                {
                                    &&& 0 <= w < sub0.len()
                                    &&& strip_backslashes((#[trigger] sub0[w]).name@)
                                        == prev[x].name@
                                    &&& report_has_mode(sub0[w], res, hz)
                                };
                            assert(strip_backslashes((sub1[w]).name@) == m[x].name@);
                            assert(report_has_mode(sub1[w], res, hz));
                        } else {
                            assert(list_has_mode(merged@, res, hz)) by {
                                assert(m[x].modes@[j].refresh_rates_hz@[l] == hz);
                            }
                            if list_has_mode(existing@, res, hz) {
                                assert(list_has_mode(prev[i as int].modes@, res, hz));
                                let (px, py) = choose|px: int, py: int|
                                    {
                                        &&& 0 <= px < prev[i as int].modes@.len()
                                        &&& prev[i as int].modes@[px].resolution@ == res
                                        &&& 0 <= py
                                            < prev[i as int].modes@[px].refresh_rates_hz@.len()
                                        &&& #[trigger] prev[i as int].modes@[px].refresh_rates_hz@[py]
                                            == hz
                                    };
                                assert(reports_have_mode(
                                    sub0,
                                    prev[i as int].name@,
                                    prev[i as int].modes@[px].resolution@,
                                    prev[i as int].modes@[px].refresh_rates_hz@[py],
                                ));
                                let w = choose|w: int|
                                    {
                                        &&& 0 <= w < sub0.len()
                                        &&& strip_backslashes((#[trigger] sub0[w]).name@)
                                            == prev[i as int].name@
                                        &&& report_has_mode(sub0[w], res, hz)
                                    };
                                assert(strip_backslashes((sub1[w]).name@) == m[x].name@);
                                assert(report_has_mode(sub1[w], res, hz));
                            } else {
                                let a = choose|a: int|
                                    {
                                        &&& 0 <= a < report.modes@.len()
                                        &&& resolution_json(
                                            (#[trigger] report.modes@[a]).width as nat,
                                            report.modes@[a].height as nat,
                                        ) == res
                                        &&& report.modes@[a].refresh_rate_millihertz / 1000 == hz
                                    };
                                assert(report_has_mode(reports@[k as int], res, hz));
                                assert(strip_backslashes((sub1[k as int]).name@) == m[x].name@);
                            }
                        }
                    }
                }
            },
        }
        k = k + 1;
    }
    proof {
        assert(reports@.subrange(0, n as int) =~= reports@);
    }
    CapabilityInventory { monitors }
}

} // verus!
