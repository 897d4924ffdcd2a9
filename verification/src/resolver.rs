//! The mode resolver: validates a sink's requested presentation mode
//! against the capability inventory and produces a concrete target, or a
//! failure that names the attempted value and every valid alternative.
//! Nothing falls back silently: an unresolvable request is a hard error.

use vstd::prelude::*;
use crate::inventory::CapabilityInventory;
use crate::inventory::MonitorData;
use crate::inventory::contains_monitor;
use crate::inventory::inventory_wf;
use crate::inventory::monitor_index;
use crate::sink::FullScreenMode;
use crate::sink::RefreshRate;
use crate::sink::ResolutionJson;

verus! {

/// A concrete, validated presentation target.
#[derive(Clone, PartialEq, Eq, Debug)]
pub enum ResolvedPresentation {
    /// An ordinary window; nothing to pin down.
    Windowed {},
    /// Borderless fullscreen on the named monitor, at its current mode.
    Borderless { monitor: String },
    /// Exclusive fullscreen on the named monitor at a checked
    /// resolution and refresh rate.
    Exclusive { monitor: String, resolution: ResolutionJson, refresh_rate_hz: RefreshRate },
}

/// Why a requested presentation mode cannot be satisfied.  Each failure
/// carries the attempted value and the full list of valid alternatives.
#[derive(Clone, PartialEq, Eq, Debug)]
pub enum ResolutionError {
    /// No attached monitor has this name; `known` lists every name that
    /// the inventory holds, in inventory order.
    UnknownMonitor { name: String, known: Vec<String> },
    /// The monitor exists but does not support this resolution;
    /// `available` lists its resolutions, in inventory order.
    UnknownResolution { resolution: ResolutionJson, available: Vec<ResolutionJson> },
    /// The resolution exists but not at this refresh rate; `available`
    /// lists the rates supported at that resolution.
    UnknownRefreshRate { refresh_rate_hz: RefreshRate, available: Vec<RefreshRate> },
}

/// The monitor `m` supports the resolution written as `res`.
pub open spec fn has_resolution(m: MonitorData, res: Seq<char>) -> bool {
    exists|i: int| 0 <= i < m.modes@.len() && (#[trigger] m.modes@[i]).resolution@ == res
}

/// The index of the monitor's entry for the resolution written as `res`.
pub open spec fn resolution_index(m: MonitorData, res: Seq<char>) -> int {
    choose|i: int| 0 <= i < m.modes@.len() && (#[trigger] m.modes@[i]).resolution@ == res
}

/// `known` spells out every monitor name of the inventory, in order.
pub open spec fn lists_monitor_names(inv: CapabilityInventory, known: Seq<String>) -> bool {
    &&& known.len() == inv.monitors@.len()
    &&& forall|i: int|
        0 <= i < known.len() ==> (#[trigger] known[i])@ == (inv.monitors@[i]).name@
}

/// `available` spells out every resolution of the monitor, in order.
pub open spec fn lists_resolutions(m: MonitorData, available: Seq<String>) -> bool {
    &&& available.len() == m.modes@.len()
    &&& forall|i: int|
        0 <= i < available.len() ==> (#[trigger] available[i])@ == (m.modes@[i]).resolution@
}

/// The index of the inventory entry named `name`, found by scanning.
fn find_monitor_index(inventory: &CapabilityInventory, name: &String) -> (r: Option<usize>)
    requires
        inventory_wf(*inventory),
    ensures
        match r {
            Some(i) => {
                &&& 0 <= i < inventory.monitors@.len()
                &&& (inventory.monitors@[i as int]).name@ == name@
                &&& i == monitor_index(*inventory, name@)
            },
            None => !contains_monitor(*inventory, name@),
        },
{
    let n = inventory.monitors.len();
    let mut i: usize = 0;
    while i < n
        invariant
            0 <= i <= n,
            n == inventory.monitors@.len(),
            inventory_wf(*inventory),
            forall|k: int| 0 <= k < i ==> (#[trigger] inventory.monitors@[k]).name@ != name@,
        decreases n - i,
    {
        if inventory.monitors[i].name == *name {
            proof {
                let j = monitor_index(*inventory, name@);
                assert(0 <= j < inventory.monitors@.len() && (inventory.monitors@[j]).name@
                    == name@);
                assert(j == i);
            }
            return Some(i);
        }
        i = i + 1;
    }
    None
}

/// Every monitor name of the inventory, in order, as fresh strings.
fn list_monitor_names(inventory: &CapabilityInventory) -> (r: Vec<String>)
    ensures
        lists_monitor_names(*inventory, r@),
{
    let n = inventory.monitors.len();
    let mut out: Vec<String> = Vec::new();
    let mut i: usize = 0;
    while i < n
        invariant
            0 <= i <= n,
            n == inventory.monitors@.len(),
            out@.len() == i,
            forall|k: int| 0 <= k < i ==> (#[trigger] out@[k])@ == (inventory.monitors@[k]).name@,
        decreases n - i,
    {
        out.push(inventory.monitors[i].name.clone());
        i = i + 1;
    }
    out
}

/// Every resolution of the monitor, in order, as fresh strings.
fn list_resolutions(m: &MonitorData) -> (r: Vec<ResolutionJson>)
    ensures
        lists_resolutions(*m, r@),
{
    let n = m.modes.len();
    let mut out: Vec<ResolutionJson> = Vec::new();
    let mut i: usize = 0;
    while i < n
        invariant
            0 <= i <= n,
            n == m.modes@.len(),
            out@.len() == i,
            forall|k: int| 0 <= k < i ==> (#[trigger] out@[k])@ == (m.modes@[k]).resolution@,
        decreases n - i,
    {
        out.push(m.modes[i].resolution.clone());
        i = i + 1;
    }
    out
}

/// The index of the monitor's entry for resolution text `res`.
fn find_resolution_index(m: &MonitorData, res: &String) -> (r: Option<usize>)
    ensures
        match r {
            Some(i) => {
                &&& 0 <= i < m.modes@.len()
                &&& (m.modes@[i as int]).resolution@ == res@
                &&& has_resolution(*m, res@)
            },
            None => !has_resolution(*m, res@),
        },
{
    let n = m.modes.len();
    let mut i: usize = 0;
    while i < n
        invariant
            0 <= i <= n,
            n == m.modes@.len(),
            forall|k: int| 0 <= k < i ==> (#[trigger] m.modes@[k]).resolution@ != res@,
        decreases n - i,
    {
        if m.modes[i].resolution == *res {
            return Some(i);
        }
        i = i + 1;
    }
    None
}

/// The requested mode can be satisfied by this inventory: `Windowed`
/// always, `Borderless` when the named monitor is attached, `Exclusive`
/// when the monitor is attached and supports the resolution at the
/// requested refresh rate.
pub open spec fn mode_resolvable(mode: FullScreenMode, inv: CapabilityInventory) -> bool {
    match mode {
        FullScreenMode::Windowed {  } => true,
        FullScreenMode::Borderless { name } => contains_monitor(inv, name@),
        FullScreenMode::Exclusive { info } => {
            &&& contains_monitor(inv, info.name@)
            &&& {
                let m = inv.monitors@[monitor_index(inv, info.name@)];
                &&& has_resolution(m, info.resolution@)
                &&& m.modes@[resolution_index(m, info.resolution@)].refresh_rates_hz@.contains(
                    info.refresh_rate_hz,
                )
            }
        },
    }
}

/// `p` is the concrete target the requested mode pins down.
pub open spec fn resolution_target_matches(
    mode: FullScreenMode,
    inv: CapabilityInventory,
    p: ResolvedPresentation,
) -> bool {
    match mode {
        FullScreenMode::Windowed {  } => p is Windowed,
        FullScreenMode::Borderless { name } => p matches ResolvedPresentation::Borderless {
            monitor,
        } && monitor@ == name@,
        FullScreenMode::Exclusive { info } => p matches ResolvedPresentation::Exclusive {
            monitor,
            resolution,
            refresh_rate_hz,
        } && monitor@ == info.name@ && resolution@ == info.resolution@ && refresh_rate_hz
            == info.refresh_rate_hz,
    }
}

/// `e` is the failure the requested mode must be answered with: the
/// attempted value together with the full list of valid alternatives.
pub open spec fn resolution_error_matches(
    mode: FullScreenMode,
    inv: CapabilityInventory,
    e: ResolutionError,
) -> bool {
    match mode {
        FullScreenMode::Windowed {  } => false,
        FullScreenMode::Borderless { name } => e matches ResolutionError::UnknownMonitor {
            name: attempted,
            known,
        } && attempted@ == name@ && lists_monitor_names(inv, known@),
        FullScreenMode::Exclusive { info } => {
            if !contains_monitor(inv, info.name@) {
                e matches ResolutionError::UnknownMonitor { name: attempted, known } && attempted@
                    == info.name@ && lists_monitor_names(inv, known@)
            } else {
                let m = inv.monitors@[monitor_index(inv, info.name@)];
                if !has_resolution(m, info.resolution@) {
                    e matches ResolutionError::UnknownResolution { resolution: attempted, available }
                        && attempted@ == info.resolution@ && lists_resolutions(m, available@)
                } else {
                    e matches ResolutionError::UnknownRefreshRate {
                        refresh_rate_hz: attempted,
                        available,
                    } && attempted == info.refresh_rate_hz && available@
                        == m.modes@[resolution_index(m, info.resolution@)].refresh_rates_hz@
                }
            }
        },
    }
}

/// An unknown monitor name requested borderless is always answered with
/// `UnknownMonitor` carrying the requested name and the full known-name
/// list: for every name absent from the inventory, whatever error
/// [`resolve`] returns for `Borderless` of that name has this shape.
pub proof fn lemma_unknown_monitor_borderless(
    name: String,
    inv: CapabilityInventory,
    e: ResolutionError,
)
    requires
        !contains_monitor(inv, name@),
        resolution_error_matches(FullScreenMode::Borderless { name }, inv, e),
    ensures
        e matches ResolutionError::UnknownMonitor { name: attempted, known } && attempted@ == name@
            && lists_monitor_names(inv, known@),
        !mode_resolvable(FullScreenMode::Borderless { name }, inv),
{
}

/// An unknown monitor name requested exclusive — at any resolution and
/// refresh rate — is always answered with `UnknownMonitor` carrying the
/// requested name and the full known-name list.
pub proof fn lemma_unknown_monitor_exclusive(
    info: crate::sink::MonitorInfo,
    inv: CapabilityInventory,
    e: ResolutionError,
)
    requires
        !contains_monitor(inv, info.name@),
        resolution_error_matches(FullScreenMode::Exclusive { info }, inv, e),
    ensures
        e matches ResolutionError::UnknownMonitor { name: attempted, known } && attempted@
            == info.name@ && lists_monitor_names(inv, known@),
        !mode_resolvable(FullScreenMode::Exclusive { info }, inv),
{
}

/// Resolves a requested presentation mode against the inventory.
///
/// `Windowed` always succeeds.  `Borderless` succeeds exactly when the
/// named monitor is attached.  `Exclusive` succeeds exactly when the
/// named monitor is attached, supports the resolution, and supports it
/// at the requested refresh rate; each failure names the attempted
/// value and the full list of valid alternatives.  An unknown monitor
/// name — borderless or exclusive — is always answered with the
/// complete known-name list.
pub fn resolve(mode: &FullScreenMode, inventory: &CapabilityInventory) -> (r: Result<
    ResolvedPresentation,
    ResolutionError,
>)
    requires
        inventory_wf(*inventory),
    ensures
        r is Ok <==> mode_resolvable(*mode, *inventory),
        r matches Ok(p) ==> resolution_target_matches(*mode, *inventory, p),
        r matches Err(e) ==> resolution_error_matches(*mode, *inventory, e),
{
    match mode {
        FullScreenMode::Windowed {} => Ok(ResolvedPresentation::Windowed {}),
        FullScreenMode::Borderless { name } => {
            match find_monitor_index(inventory, name) {
                Some(_) => Ok(ResolvedPresentation::Borderless { monitor: name.clone() }),
                None => Err(
                    ResolutionError::UnknownMonitor {
                        name: name.clone(),
                        known: list_monitor_names(inventory),
                    },
                ),
            }
        },
        FullScreenMode::Exclusive { info } => {
            match find_monitor_index(inventory, &info.name) {
                None => Err(
                    ResolutionError::UnknownMonitor {
                        name: info.name.clone(),
                        known: list_monitor_names(inventory),
                    },
                ),
                Some(mi) => {
                    let m = &inventory.monitors[mi];
                    match find_resolution_index(m, &info.resolution) {
                        None => Err(
                            ResolutionError::UnknownResolution {
                                resolution: info.resolution.clone(),
                                available: list_resolutions(m),
                            },
                        ),
                        Some(ri) => {
                            let rates = &m.modes[ri].refresh_rates_hz;
                            proof {
                                assert(crate::inventory::monitor_data_wf(
                                    inventory.monitors@[mi as int],
                                ));
                                let si = resolution_index(*m, info.resolution@);
                                assert(0 <= si < m.modes@.len() && (m.modes@[si]).resolution@
                                    == info.resolution@);
                                assert(si == ri);
                            }
                            if crate::inventory::rates_hold(rates, info.refresh_rate_hz) {
                                Ok(
                                    ResolvedPresentation::Exclusive {
                                        monitor: info.name.clone(),
                                        resolution: info.resolution.clone(),
                                        refresh_rate_hz: info.refresh_rate_hz,
                                    },
                                )
                            } else {
                                Err(
                                    ResolutionError::UnknownRefreshRate {
                                        refresh_rate_hz: info.refresh_rate_hz,
                                        available: crate::inventory::copy_rate_list(rates),
                                    },
                                )
                            }
                        },
                    }
                },
            }
        },
    }
}

} // verus!
