//! Editor-side sink state: the chosen fullscreen mode and monitor, its
//! conversion to and from the declarative form, and the repair pass
//! that keeps a selection valid against the offered monitor catalogue.

use vstd::prelude::*;
use vstd::string::StringExecFns;
use crate::inventory::MonitorData;
use crate::inventory::entries_contain;
use crate::inventory::find_monitor_entry;
use crate::inventory::mode_list_wf;
use crate::parser::ParsedAvailableConfig;
use crate::resolver::has_resolution;
use crate::sink::FullScreenMode;
use crate::sink::MonitorInfo;

verus! {

/// The selected mode is not one of the offered mode names.
#[derive(Clone, PartialEq, Eq, Debug)]
pub struct UnknownModeError {
    pub mode: String,
}

/// A sink's editor state: the chosen fullscreen mode name and the
/// chosen monitor, resolution and refresh rate.
#[derive(Clone, PartialEq, Eq, Debug)]
pub struct MonitorElementConfig {
    pub mode: String,
    pub monitor: MonitorInfo,
}

impl MonitorElementConfig {
    /// Turns the editor state into the declarative presentation mode.
    /// Succeeds exactly on the three offered mode names.
    pub fn to_fullscreen_config(&self) -> (r: Result<FullScreenMode, UnknownModeError>)
        ensures
            self.mode@ == "Windowed"@ ==> (r matches Ok(m) && m is Windowed),
            self.mode@ == "Borderless"@ ==> (r matches Ok(m)
                && m matches FullScreenMode::Borderless { name } && name@ == self.monitor.name@),
            self.mode@ == "Exclusive"@ ==> (r matches Ok(m)
                && m matches FullScreenMode::Exclusive { info } && info.name@ == self.monitor.name@
                && info.resolution@ == self.monitor.resolution@ && info.refresh_rate_hz
                == self.monitor.refresh_rate_hz),
            self.mode@ != "Windowed"@ && self.mode@ != "Borderless"@ && self.mode@ != "Exclusive"@
                ==> (r matches Err(e) && e.mode@ == self.mode@),
    {
        proof {
            reveal_strlit("Windowed");
            reveal_strlit("Borderless");
            reveal_strlit("Exclusive");
            reveal_strlit("");
            assert("Windowed"@.len() == 8);
            assert("Borderless"@.len() == 10);
            assert("Exclusive"@.len() == 9);
            assert("Windowed"@ != "Borderless"@);
            assert("Windowed"@ != "Exclusive"@);
            assert("Borderless"@ != "Exclusive"@);
        }
        if self.mode == String::from_str("Windowed") {
            Ok(FullScreenMode::Windowed {  })
        } else if self.mode == String::from_str("Borderless") {
            Ok(FullScreenMode::Borderless { name: self.monitor.name.clone() })
        } else if self.mode == String::from_str("Exclusive") {
            Ok(
                FullScreenMode::Exclusive {
                    info: MonitorInfo {
                        name: self.monitor.name.clone(),
                        resolution: self.monitor.resolution.clone(),
                        refresh_rate_hz: self.monitor.refresh_rate_hz,
                    },
                },
            )
        } else {
            Err(UnknownModeError { mode: self.mode.clone() })
        }
    }

    /// Turns a declarative presentation mode into editor state, filling
    /// the fields the mode does not constrain with empty values.
    pub fn from_fullscreen_config(mode: &FullScreenMode) -> (r: MonitorElementConfig)
        ensures
            mode is Windowed ==> r.mode@ == "Windowed"@ && r.monitor.name@ == ""@
                && r.monitor.resolution@ == ""@ && r.monitor.refresh_rate_hz == 0,
            mode matches FullScreenMode::Borderless { name } ==> r.mode@ == "Borderless"@
                && r.monitor.name@ == name@ && r.monitor.resolution@ == ""@
                && r.monitor.refresh_rate_hz == 0,
            mode matches FullScreenMode::Exclusive { info } ==> r.mode@ == "Exclusive"@
                && r.monitor.name@ == info.name@ && r.monitor.resolution@ == info.resolution@
                && r.monitor.refresh_rate_hz == info.refresh_rate_hz,
    {
        proof {
            reveal_strlit("Windowed");
            reveal_strlit("Borderless");
            reveal_strlit("Exclusive");
            reveal_strlit("");
        }
        match mode {
            FullScreenMode::Windowed {  } => MonitorElementConfig {
                mode: String::from_str("Windowed"),
                monitor: MonitorInfo {
                    name: String::new(),
                    resolution: String::new(),
                    refresh_rate_hz: 0,
                },
            },
            FullScreenMode::Borderless { name } => MonitorElementConfig {
                mode: String::from_str("Borderless"),
                monitor: MonitorInfo {
                    name: name.clone(),
                    resolution: String::new(),
                    refresh_rate_hz: 0,
                },
            },
            FullScreenMode::Exclusive { info } => MonitorElementConfig {
                mode: String::from_str("Exclusive"),
                monitor: MonitorInfo {
                    name: info.name.clone(),
                    resolution: info.resolution.clone(),
                    refresh_rate_hz: info.refresh_rate_hz,
                },
            },
        }
    }
}

impl Default for MonitorElementConfig {
    /// A windowed selection with nothing chosen yet.
    fn default() -> (r: MonitorElementConfig)
        ensures
            r.mode@ == "Windowed"@,
            r.monitor.name@ == ""@,
            r.monitor.resolution@ == ""@,
            r.monitor.refresh_rate_hz == 0,
    {
        proof {
            reveal_strlit("Windowed");
            reveal_strlit("Borderless");
            reveal_strlit("Exclusive");
            reveal_strlit("");
        }
        MonitorElementConfig {
            mode: String::from_str("Windowed"),
            monitor: MonitorInfo {
                name: String::new(),
                resolution: String::new(),
                refresh_rate_hz: 0,
            },
        }
    }
}

/// The monitor catalogue has one entry per name and well-formed mode
/// lists: the shape `ParsedAvailableConfig` and `CapabilityInventory`
/// guarantee.
pub open spec fn catalogue_wf(ms: Seq<MonitorData>) -> bool {
    &&& forall|a: int, b: int|
        0 <= a < b < ms.len() ==> (#[trigger] ms[a]).name@ != (#[trigger] ms[b]).name@
    &&& forall|i: int| 0 <= i < ms.len() ==> mode_list_wf((#[trigger] ms[i]).modes@)
}

/// The catalogue entry carrying this name.
pub open spec fn entry_for(ms: Seq<MonitorData>, name: Seq<char>) -> MonitorData {
    ms[choose|i: int| 0 <= i < ms.len() && (#[trigger] ms[i]).name@ == name]
}

/// The mode entry of this monitor carrying this resolution text.
pub open spec fn rates_for(m: MonitorData, res: Seq<char>) -> Seq<u32> {
    m.modes@[choose|i: int|
        0 <= i < m.modes@.len() && (#[trigger] m.modes@[i]).resolution@ == res].refresh_rates_hz@
}

/// The monitor name a repair pass settles on: a non-empty name the
/// catalogue knows is kept; anything else falls back to the first
/// offered monitor, or to the empty name when none is offered.
pub open spec fn repaired_name(ms: Seq<MonitorData>, sel: MonitorInfo) -> Seq<char> {
    if sel.name@ != ""@ && entries_contain(ms, sel.name@) {
        sel.name@
    } else if ms.len() > 0 {
        ms[0].name@
    } else {
        ""@
    }
}

/// The resolution a repair pass settles on, given the settled monitor:
/// a resolution that monitor supports is kept; anything else falls back
/// to the monitor's first resolution, or to the empty text for a
/// monitor without modes.  Without a settled monitor the selection is
/// left alone.
pub open spec fn repaired_resolution(ms: Seq<MonitorData>, sel: MonitorInfo) -> Seq<char> {
    let name = repaired_name(ms, sel);
    if entries_contain(ms, name) {
        let e = entry_for(ms, name);
        if has_resolution(e, sel.resolution@) {
            sel.resolution@
        } else if e.modes@.len() > 0 {
            e.modes@[0].resolution@
        } else {
            ""@
        }
    } else {
        sel.resolution@
    }
}

/// The refresh rate a repair pass settles on, given the settled monitor
/// and resolution: a non-zero rate the resolution supports is kept;
/// anything else falls back to the first offered rate, or to zero for a
/// resolution without rates.  Without a settled resolution entry the
/// selection is left alone.
pub open spec fn repaired_rate(ms: Seq<MonitorData>, sel: MonitorInfo) -> u32 {
    let name = repaired_name(ms, sel);
    let res = repaired_resolution(ms, sel);
    if entries_contain(ms, name) {
        let e = entry_for(ms, name);
        if has_resolution(e, res) {
            let rates = rates_for(e, res);
            if sel.refresh_rate_hz != 0 && rates.contains(sel.refresh_rate_hz) {
                sel.refresh_rate_hz
            } else if rates.len() > 0 {
                rates[0]
            } else {
                0
            }
        } else {
            sel.refresh_rate_hz
        }
    } else {
        sel.refresh_rate_hz
    }
}

/// The editor widget for one sink's monitor selection: the offered
/// catalogue and the selection being edited, kept valid by
/// [`MonitorElementWidget::ensure_good_selection`].
#[derive(Debug)]
pub struct MonitorElementWidget {
    pub config: ParsedAvailableConfig,
    pub mode: String,
    pub monitor: MonitorInfo,
}

impl MonitorElementWidget {
    /// A widget over the offered catalogue and a sink's selection, with
    /// the selection repaired up front.
    pub fn new(parsed_config: ParsedAvailableConfig, sink_data: MonitorElementConfig) -> (r:
        MonitorElementWidget)
        requires
            catalogue_wf(parsed_config.monitors@),
        ensures
            r.config == parsed_config,
            r.mode == sink_data.mode,
            r.monitor.name@ == repaired_name(parsed_config.monitors@, sink_data.monitor),
            r.monitor.resolution@ == repaired_resolution(
                parsed_config.monitors@,
                sink_data.monitor,
            ),
            r.monitor.refresh_rate_hz == repaired_rate(
                parsed_config.monitors@,
                sink_data.monitor,
            ),
    {
        let mut widget = MonitorElementWidget {
            config: parsed_config,
            mode: sink_data.mode,
            monitor: sink_data.monitor,
        };
        widget.ensure_good_selection();
        widget
    }

    /// Repairs the selection against the offered catalogue: the monitor
    /// falls back to the first offered one when the chosen name is
    /// empty or unknown, the resolution to the monitor's first when not
    /// supported, and the refresh rate to the resolution's first when
    /// zero or not supported.  A selection the catalogue supports is
    /// kept exactly as it is.
    pub fn ensure_good_selection(&mut self)
        requires
            catalogue_wf(old(self).config.monitors@),
        ensures
            final(self).config == old(self).config,
            final(self).mode == old(self).mode,
            final(self).monitor.name@ == repaired_name(
                old(self).config.monitors@,
                old(self).monitor,
            ),
            final(self).monitor.resolution@ == repaired_resolution(
                old(self).config.monitors@,
                old(self).monitor,
            ),
            final(self).monitor.refresh_rate_hz == repaired_rate(
                old(self).config.monitors@,
                old(self).monitor,
            ),
    {
        let ghost ms = self.config.monitors@;
        let ghost sel = self.monitor;

        // Settle the monitor name.
        let name_known = if self.monitor.name.as_str().unicode_len() > 0 {
            find_monitor_entry(&self.config.monitors, &self.monitor.name).is_some()
        } else {
            false
        };
        proof {
            if self.monitor.name@.len() == 0 {
                assert(self.monitor.name@ =~= ""@) by {
                    reveal_strlit("");
                }
            }
            if self.monitor.name@ != ""@ && entries_contain(ms, self.monitor.name@) {
                let w = choose|w: int| 0 <= w < ms.len() && (#[trigger] ms[w]).name@
                    == self.monitor.name@;
                assert(ms[w].name@ == self.monitor.name@);
            }
            reveal_strlit("");
        }
        if !name_known {
            if self.config.monitors.len() > 0 {
                self.monitor.name = self.config.monitors[0].name.clone();
            } else {
                self.monitor.name = String::new();
            }
        }
        proof {
            assert(self.monitor.name@ == repaired_name(ms, sel));
        }

        // Settle the resolution within the monitor's entry.
        match find_monitor_entry(&self.config.monitors, &self.monitor.name) {
            None => {
                proof {
                    assert(self.monitor.resolution@ == repaired_resolution(ms, sel));
                    assert(self.monitor.refresh_rate_hz == repaired_rate(ms, sel));
                }
            },
            Some(i) => {
                proof {
                    let w = choose|w: int| 0 <= w < ms.len() && (#[trigger] ms[w]).name@
                        == self.monitor.name@;
                    assert(w == i);
                    assert(entry_for(ms, repaired_name(ms, sel)) == ms[i as int]);
                }
                let res_found = crate::inventory::find_rates_for(
                    &self.config.monitors[i].modes,
                    &self.monitor.resolution,
                );
                match res_found {
                    Some(_) => {},
                    None => {
                        if self.config.monitors[i].modes.len() > 0 {
                            self.monitor.resolution =
                                self.config.monitors[i].modes[0].resolution.clone();
                        } else {
                            self.monitor.resolution = String::new();
                        }
                        proof {
                            reveal_strlit("");
                        }
                    },
                }
                proof {
                    assert(self.monitor.resolution@ == repaired_resolution(ms, sel));
                }

                // Settle the refresh rate within the resolution's entry.
                match crate::inventory::find_rates_for(
                    &self.config.monitors[i].modes,
                    &self.monitor.resolution,
                ) {
                    None => {
                        proof {
                            assert(self.monitor.refresh_rate_hz == repaired_rate(ms, sel));
                        }
                    },
                    Some(j) => {
                        proof {
                            let e = ms[i as int];
                            let w = choose|w: int|
                                0 <= w < e.modes@.len() && (#[trigger] e.modes@[w]).resolution@
                                    == self.monitor.resolution@;
                            assert(w == j);
                            assert(rates_for(e, self.monitor.resolution@)
                                == e.modes@[j as int].refresh_rates_hz@);
                        }
                        let rates = &self.config.monitors[i].modes[j].refresh_rates_hz;
                        let keep = self.monitor.refresh_rate_hz != 0 && crate::inventory::rates_hold(
                            rates,
                            self.monitor.refresh_rate_hz,
                        );
                        if !keep {
                            if rates.len() > 0 {
                                self.monitor.refresh_rate_hz = rates[0];
                            } else {
                                self.monitor.refresh_rate_hz = 0;
                            }
                        }
                        proof {
                            assert(self.monitor.refresh_rate_hz == repaired_rate(ms, sel));
                        }
                    },
                }
            },
        }
    }
}

} // verus!
