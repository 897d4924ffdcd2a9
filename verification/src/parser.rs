//! Reading the option catalogue back into the editor's working form:
//! the offered fullscreen mode names, and the monitor mode table with
//! each resolution's refresh rates deduplicated and sorted from fastest
//! to slowest.

use vstd::prelude::*;
use vstd::string::StringExecFns;
use crate::inventory::MonitorData;
use crate::inventory::ResolutionRates;
use crate::inventory::entries_contain;
use crate::inventory::find_monitor_entry;
use crate::inventory::monitor_has_mode;
use crate::options::AvailableConfig;
use crate::options::SinkOption;
use crate::options::SinkTypeOptions;
use crate::sink::RefreshRate;

verus! {

/// The monitor catalogue a sink option offers for exclusive fullscreen.
pub open spec fn sink_monitor_configs(o: SinkOption) -> Seq<MonitorData> {
    match o.type_options {
        SinkTypeOptions::OpenGLWindow { full_screen } => full_screen.exclusive.monitor_configs@,
    }
}

/// Some sink option's catalogue names this monitor.
pub open spec fn config_has_monitor(c: AvailableConfig, name: Seq<char>) -> bool {
    exists|s: int, j: int|
        {
            &&& 0 <= s < c.sinks@.len()
            &&& 0 <= j < sink_monitor_configs(c.sinks@[s]).len()
            &&& (#[trigger] sink_monitor_configs(c.sinks@[s])[j]).name@ == name
        }
}

/// Some sink option's catalogue offers, under this monitor name, this
/// resolution text at this rate.
pub open spec fn config_has_pair(c: AvailableConfig, name: Seq<char>, res: Seq<char>, hz: u32) -> bool {
    exists|s: int, j: int|
        {
            &&& 0 <= s < c.sinks@.len()
            &&& 0 <= j < sink_monitor_configs(c.sinks@[s]).len()
            &&& (#[trigger] sink_monitor_configs(c.sinks@[s])[j]).name@ == name
            &&& monitor_has_mode(sink_monitor_configs(c.sinks@[s])[j], res, hz)
        }
}

/// Strictly descending order: every later rate is slower.
pub open spec fn rates_sorted_desc(rates: Seq<RefreshRate>) -> bool {
    forall|i: int, j: int| 0 <= i < j < rates.len() ==> rates[i] > rates[j]
}

/// The distinct values of `v`, sorted from largest to smallest.
fn sort_rates_desc(v: &Vec<RefreshRate>) -> (r: Vec<RefreshRate>)
    ensures
        rates_sorted_desc(r@),
        forall|hz: u32| r@.contains(hz) <==> v@.contains(hz),
{
    let n = v.len();
    let mut out: Vec<RefreshRate> = Vec::new();
    let mut i: usize = 0;
    while i < n
        invariant
            0 <= i <= n,
            n == v@.len(),
            rates_sorted_desc(out@),
            forall|hz: u32| #[trigger] out@.contains(hz) <==> v@.subrange(0, i as int).contains(hz),
        decreases n - i,
    {
        let x = v[i];
        let ghost before = out@;
        let ghost prefix = v@.subrange(0, i as int);
        let ghost grown = v@.subrange(0, i + 1);
        proof {
            assert(forall|a: int| 0 <= a < i ==> prefix[a] == #[trigger] v@[a]);
            assert(forall|a: int| 0 <= a <= i ==> grown[a] == #[trigger] v@[a]);
            assert forall|hz: u32| #[trigger] grown.contains(hz) implies prefix.contains(hz) || hz
                == x by {
                let w = choose|w: int| 0 <= w < grown.len() && grown[w] == hz;
                if w < i {
                    assert(prefix[w] == hz);
                }
            }
            assert forall|hz: u32| prefix.contains(hz) implies #[trigger] grown.contains(hz) by {
                let w = choose|w: int| 0 <= w < prefix.len() && prefix[w] == hz;
                assert(grown[w] == hz);
            }
            assert(grown[i as int] == x);
            assert(grown.contains(x));
        }
        let mut present = false;
        let m = out.len();
        let mut a: usize = 0;
        while a < m
            invariant
                0 <= a <= m,
                m == out@.len(),
                present <==> exists|w: int| 0 <= w < a && out@[w] == x,
            decreases m - a,
        {
            if out[a] == x {
                present = true;
            }
            a = a + 1;
        }
        if !present {
            proof {
                if before.contains(x) {
                    let w = choose|w: int| 0 <= w < before.len() && before[w] == x;
                    assert(exists|w2: int| 0 <= w2 < m && out@[w2] == x);
                }
            }
            // Find the first position holding a slower rate.
            let mut p: usize = 0;
            while p < out.len()
                invariant
                    0 <= p <= before.len(),
                    out@ == before,
                    !before.contains(x),
                    forall|w: int| 0 <= w < p ==> out@[w] > x,
                ensures
                    0 <= p <= before.len(),
                    out@ == before,
                    forall|w: int| 0 <= w < p ==> out@[w] > x,
                    p < before.len() ==> before[p as int] < x,
                decreases out@.len() - p,
            {
                if out[p] < x {
                    break ;
                }
                proof {
                    if out@[p as int] == x {
                        assert(before.contains(x));
                    }
                }
                p = p + 1;
            }
            proof {
                assert(forall|w: int| 0 <= w < p ==> before[w] > x);
                if p < before.len() {
                    assert forall|w: int| p <= w < before.len() implies before[w] < x by {
                        if w > p {
                            assert(before[p as int] > before[w]);
                        }
                    }
                }
            }
            out.insert(p, x);
            proof {
                let now = out@;
                assert(now == before.insert(p as int, x));
                assert(forall|w: int| 0 <= w < p ==> now[w] == before[w]);
                assert(now[p as int] == x);
                assert(forall|w: int| p < w < now.len() ==> now[w] == before[w - 1]);
                assert forall|w1: int, w2: int|
                    0 <= w1 < w2 < now.len() implies now[w1] > now[w2] by {
                    if w1 < p && w2 == p {
                    } else if w1 == p && w2 > p {
                    } else if w1 < p && w2 > p {
                        assert(now[w2] == before[w2 - 1]);
                    } else if w1 > p {
                        assert(now[w1] == before[w1 - 1] && now[w2] == before[w2 - 1]);
                    } else {
                        assert(now[w1] == before[w1] && now[w2] == before[w2]);
                    }
                }
                assert forall|hz: u32| #[trigger] now.contains(hz) implies grown.contains(hz) by {
                    let w = choose|w: int| 0 <= w < now.len() && now[w] == hz;
                    if w == p {
                        assert(grown.contains(x));
                    } else if w < p {
                        assert(before[w] == hz);
                        assert(before.contains(hz));
                        assert(prefix.contains(hz));
                    } else {
                        assert(before[w - 1] == hz);
                        assert(before.contains(hz));
                        assert(prefix.contains(hz));
                    }
                }
                assert forall|hz: u32| grown.contains(hz) implies #[trigger] now.contains(hz) by {
                    if hz == x {
                        assert(now[p as int] == x);
                    } else {
                        assert(prefix.contains(hz));
                        assert(before.contains(hz));
                        let w = choose|w: int| 0 <= w < before.len() && before[w] == hz;
                        if w < p {
                            assert(now[w] == hz);
                        } else {
                            assert(now[w + 1] == hz);
                        }
                    }
                }
            }
        } else {
            proof {
                assert(out@.contains(x));
                assert forall|hz: u32| #[trigger] out@.contains(hz) implies grown.contains(hz) by {
                    assert(prefix.contains(hz));
                }
                assert forall|hz: u32| grown.contains(hz) implies #[trigger] out@.contains(hz) by {
                    if hz != x {
                        assert(prefix.contains(hz));
                    }
                }
            }
        }
        i = i + 1;
    }
    proof {
        assert(v@.subrange(0, n as int) =~= v@);
    }
    out
}

/// A copy of one catalogue entry with every resolution's rates
/// deduplicated and sorted from fastest to slowest.
fn tidy_entry(mc: &MonitorData) -> (r: MonitorData)
    ensures
        r.name@ == mc.name@,
        r.modes@.len() == mc.modes@.len(),
        forall|j: int|
            0 <= j < mc.modes@.len() ==> (#[trigger] r.modes@[j]).resolution@
                == mc.modes@[j].resolution@,
        forall|j: int|
            0 <= j < mc.modes@.len() ==> rates_sorted_desc(
                (#[trigger] r.modes@[j]).refresh_rates_hz@,
            ),
        forall|j: int, hz: u32|
            0 <= j < mc.modes@.len() ==> (#[trigger] r.modes@[j].refresh_rates_hz@.contains(hz)
                <==> mc.modes@[j].refresh_rates_hz@.contains(hz)),
{
    let n = mc.modes.len();
    let mut modes: Vec<ResolutionRates> = Vec::new();
    let mut j: usize = 0;
    while j < n
        invariant
            0 <= j <= n,
            n == mc.modes@.len(),
            modes@.len() == j,
            forall|a: int|
                0 <= a < j ==> (#[trigger] modes@[a]).resolution@ == mc.modes@[a].resolution@,
            forall|a: int|
                0 <= a < j ==> rates_sorted_desc((#[trigger] modes@[a]).refresh_rates_hz@),
            forall|a: int, hz: u32|
                0 <= a < j ==> (#[trigger] modes@[a].refresh_rates_hz@.contains(hz)
                    <==> mc.modes@[a].refresh_rates_hz@.contains(hz)),
        decreases n - j,
    {
        modes.push(
            ResolutionRates {
                resolution: mc.modes[j].resolution.clone(),
                refresh_rates_hz: sort_rates_desc(&mc.modes[j].refresh_rates_hz),
            },
        );
        j = j + 1;
    }
    MonitorData { name: mc.name.clone(), modes }
}

/// The editor's working view of the option catalogue: the offered
/// fullscreen mode names and the monitor mode table.
#[derive(Clone, PartialEq, Eq, Debug)]
pub struct ParsedAvailableConfig {
    /// The offered fullscreen mode names, three per OpenGL window sink
    /// option, in catalogue order.
    pub full_screen_modes: Vec<String>,
    /// One entry per distinct offered monitor, rates sorted fastest
    /// first; a monitor offered by several sink options keeps the last
    /// catalogue entry.
    pub monitors: Vec<MonitorData>,
}

impl ParsedAvailableConfig {
    /// Reads the option catalogue into the editor's working form.
    pub fn new(config: &AvailableConfig) -> (r: ParsedAvailableConfig)
        ensures
            r.full_screen_modes@ == spec_fullscreen_types(*config),
            parsed_monitors_sound(*config, r.monitors@),
    {
        let modes = ParsedAvailableConfig::extract_fullscreen_types(config);
        let monitors = ParsedAvailableConfig::extract_monitor_info(config);
        ParsedAvailableConfig { full_screen_modes: modes, monitors }
    }

    /// The offered fullscreen mode names: windowed, borderless and
    /// exclusive, for each OpenGL window sink option in order.
    pub fn extract_fullscreen_types(config: &AvailableConfig) -> (r: Vec<String>)
        ensures
            r@ == spec_fullscreen_types(*config),
    {
        let n = config.sinks.len();
        let mut out: Vec<String> = Vec::new();
        let mut s: usize = 0;
        while s < n
            invariant
                0 <= s <= n,
                n == config.sinks@.len(),
                out@ == spec_fullscreen_types_upto(*config, s as int),
            decreases n - s,
        {
            proof {
                spec_fullscreen_types_upto_step(*config, s as int);
            }
            match &config.sinks[s].type_options {
                SinkTypeOptions::OpenGLWindow { full_screen } => {
                    out.push(full_screen.windowed.kind_name.clone());
                    out.push(full_screen.borderless.kind_name.clone());
                    out.push(full_screen.exclusive.kind_name.clone());
                },
            }
            proof {
                assert(out@ =~= spec_fullscreen_types_upto(*config, s + 1));
            }
            s = s + 1;
        }
        proof {
            assert(spec_fullscreen_types_upto(*config, n as int) == spec_fullscreen_types(
                *config,
            ));
        }
        out
    }

    /// The monitor mode table: one entry per distinct offered monitor
    /// name, the last catalogue entry winning, rates deduplicated and
    /// sorted fastest first.  Every entry and every pair in it comes
    /// from the catalogue, and every offered monitor is present.
    pub fn extract_monitor_info(config: &AvailableConfig) -> (r: Vec<MonitorData>)
        ensures
            parsed_monitors_sound(*config, r@),
    {
        let n = config.sinks.len();
        let mut out: Vec<MonitorData> = Vec::new();
        let mut s: usize = 0;
        while s < n
            invariant
                0 <= s <= n,
                n == config.sinks@.len(),
                forall|a: int, b: int|
                    0 <= a < b < out@.len() ==> (#[trigger] out@[a]).name@ != (
                    #[trigger] out@[b]).name@,
                forall|i: int|
                    0 <= i < out@.len() ==> config_has_monitor(
                        *config,
                        (#[trigger] out@[i]).name@,
                    ),
                forall|i: int, j: int|
                    0 <= i < out@.len() && 0 <= j < out@[i].modes@.len() ==> rates_sorted_desc(
                        (#[trigger] out@[i].modes@[j]).refresh_rates_hz@,
                    ),
                forall|i: int, j: int, l: int|
                    0 <= i < out@.len() && 0 <= j < out@[i].modes@.len() && 0 <= l
                        < out@[i].modes@[j].refresh_rates_hz@.len() ==> config_has_pair(
                        *config,
                        out@[i].name@,
                        out@[i].modes@[j].resolution@,
                        #[trigger] out@[i].modes@[j].refresh_rates_hz@[l],
                    ),
                forall|a: int, b: int|
                    0 <= a < s && 0 <= b < sink_monitor_configs(config.sinks@[a]).len()
                        ==> entries_contain(
                        out@,
                        (#[trigger] sink_monitor_configs(config.sinks@[a])[b]).name@,
                    ),
            decreases n - s,
        {
            let configs = match &config.sinks[s].type_options {
                SinkTypeOptions::OpenGLWindow { full_screen } => {
                    &full_screen.exclusive.monitor_configs
                },
            };
            let m = configs.len();
            let mut b: usize = 0;
            while b < m
                invariant
                    0 <= b <= m,
                    0 <= s < n,
                    n == config.sinks@.len(),
                    m == sink_monitor_configs(config.sinks@[s as int]).len(),
                    configs@ == sink_monitor_configs(config.sinks@[s as int]),
                    forall|x: int, y: int|
                        0 <= x < y < out@.len() ==> (#[trigger] out@[x]).name@ != (
                        #[trigger] out@[y]).name@,
                    forall|i: int|
                        0 <= i < out@.len() ==> config_has_monitor(
                            *config,
                            (#[trigger] out@[i]).name@,
                        ),
                    forall|i: int, j: int|
                        0 <= i < out@.len() && 0 <= j < out@[i].modes@.len() ==> rates_sorted_desc(
                            (#[trigger] out@[i].modes@[j]).refresh_rates_hz@,
                        ),
                    forall|i: int, j: int, l: int|
                        0 <= i < out@.len() && 0 <= j < out@[i].modes@.len() && 0 <= l
                            < out@[i].modes@[j].refresh_rates_hz@.len() ==> config_has_pair(
                            *config,
                            out@[i].name@,
                            out@[i].modes@[j].resolution@,
                            #[trigger] out@[i].modes@[j].refresh_rates_hz@[l],
                        ),
                    forall|a: int, y: int|
                        0 <= a < s && 0 <= y < sink_monitor_configs(config.sinks@[a]).len()
                            ==> entries_contain(
                            out@,
                            (#[trigger] sink_monitor_configs(config.sinks@[a])[y]).name@,
                        ),
                    forall|y: int|
                        0 <= y < b ==> entries_contain(
                            out@,
                            (#[trigger] sink_monitor_configs(config.sinks@[s as int])[y]).name@,
                        ),
                decreases m - b,
            {
                let mc = &configs[b];
                let entry = tidy_entry(mc);
                let ghost prev = out@;
                proof {
                    assert(configs@[b as int] == sink_monitor_configs(config.sinks@[s as int])[b as int]);
                    assert forall|j: int, l: int|
                        0 <= j < entry.modes@.len() && 0 <= l
                            < entry.modes@[j].refresh_rates_hz@.len() implies config_has_pair(
                        *config,
                        entry.name@,
                        entry.modes@[j].resolution@,
                        #[trigger] entry.modes@[j].refresh_rates_hz@[l],
                    ) by {
                        let hz = entry.modes@[j].refresh_rates_hz@[l];
                        assert(entry.modes@[j].refresh_rates_hz@.contains(hz));
                        assert(mc.modes@[j].refresh_rates_hz@.contains(hz));
                        let w = choose|w: int|
                            0 <= w < mc.modes@[j].refresh_rates_hz@.len()
                                && mc.modes@[j].refresh_rates_hz@[w] == hz;
                        assert(mc.modes@[j].refresh_rates_hz@[w] == hz);
                        assert(monitor_has_mode(*mc, entry.modes@[j].resolution@, hz));
                    }
                    assert(config_has_monitor(*config, entry.name@));
                }
                match find_monitor_entry(&out, &entry.name) {
                    None => {
                        out.push(entry);
                        proof {
                            let last = out@.len() - 1;
                            assert forall|x: int, y: int|
                                0 <= x < y < out@.len() implies (#[trigger] out@[x]).name@ != (
                            #[trigger] out@[y]).name@ by {
                                if y == last {
                                    assert(out@[x] == prev[x]);
                                }
                            }
                            assert forall|y: int|
                                0 <= y < b + 1 implies entries_contain(
                                out@,
                                (#[trigger] sink_monitor_configs(config.sinks@[s as int])[y]).name@,
                            ) by {
                                if y < b {
                                    let w = choose|w: int|
                                        0 <= w < prev.len() && (#[trigger] prev[w]).name@
                                            == sink_monitor_configs(
                                            config.sinks@[s as int],
                                        )[y].name@;
                                    assert(out@[w] == prev[w]);
                                } else {
                                    assert(out@[last].name@ == sink_monitor_configs(
                                        config.sinks@[s as int],
                                    )[y].name@);
                                }
                            }
                            assert forall|a: int, y: int|
                                0 <= a < s && 0 <= y < sink_monitor_configs(
                                    config.sinks@[a],
                                ).len() implies entries_contain(
                                out@,
                                (#[trigger] sink_monitor_configs(config.sinks@[a])[y]).name@,
                            ) by {
                                let w = choose|w: int|
                                    0 <= w < prev.len() && (#[trigger] prev[w]).name@
                                        == sink_monitor_configs(config.sinks@[a])[y].name@;
                                assert(out@[w] == prev[w]);
                            }
                        }
                    },
                    Some(i) => {
                        out.set(i, entry);
                        proof {
                            assert(out@[i as int].name@ == prev[i as int].name@);
                            assert forall|x: int, y: int|
                                0 <= x < y < out@.len() implies (#[trigger] out@[x]).name@ != (
                            #[trigger] out@[y]).name@ by {
                                assert(out@[x].name@ == prev[x].name@);
                                assert(out@[y].name@ == prev[y].name@);
                            }
                            assert forall|y: int|
                                0 <= y < b + 1 implies entries_contain(
                                out@,
                                (#[trigger] sink_monitor_configs(config.sinks@[s as int])[y]).name@,
                            ) by {
                                if y < b {
                                    let w = choose|w: int|
                                        0 <= w < prev.len() && (#[trigger] prev[w]).name@
                                            == sink_monitor_configs(
                                            config.sinks@[s as int],
                                        )[y].name@;
                                    assert(out@[w].name@ == prev[w].name@);
                                } else {
                                    assert(out@[i as int].name@ == sink_monitor_configs(
                                        config.sinks@[s as int],
                                    )[y].name@);
                                }
                            }
                            assert forall|a: int, y: int|
                                0 <= a < s && 0 <= y < sink_monitor_configs(
                                    config.sinks@[a],
                                ).len() implies entries_contain(
                                out@,
                                (#[trigger] sink_monitor_configs(config.sinks@[a])[y]).name@,
                            ) by {
                                let w = choose|w: int|
                                    0 <= w < prev.len() && (#[trigger] prev[w]).name@
                                        == sink_monitor_configs(config.sinks@[a])[y].name@;
                                assert(out@[w].name@ == prev[w].name@);
                            }
                        }
                    },
                }
                b = b + 1;
            }
            s = s + 1;
        }
        out
    }
}

/// The offered fullscreen mode names of the first `upto` sink options.
pub open spec fn spec_fullscreen_types_upto(c: AvailableConfig, upto: int) -> Seq<String>
    decreases upto,
{
    if upto <= 0 {
        Seq::empty()
    } else {
        spec_fullscreen_types_upto(c, upto - 1) + sink_fullscreen_types(c.sinks@[upto - 1])
    }
}

/// The three offered fullscreen mode names of one sink option.
pub open spec fn sink_fullscreen_types(o: SinkOption) -> Seq<String> {
    match o.type_options {
        SinkTypeOptions::OpenGLWindow { full_screen } => seq![
            full_screen.windowed.kind_name,
            full_screen.borderless.kind_name,
            full_screen.exclusive.kind_name,
        ],
    }
}

/// The offered fullscreen mode names of the whole catalogue.
pub open spec fn spec_fullscreen_types(c: AvailableConfig) -> Seq<String> {
    spec_fullscreen_types_upto(c, c.sinks@.len() as int)
}

/// Unfolds one step of [`spec_fullscreen_types_upto`].
proof fn spec_fullscreen_types_upto_step(c: AvailableConfig, s: int)
    requires
        0 <= s < c.sinks@.len(),
    ensures
        spec_fullscreen_types_upto(c, s + 1) == spec_fullscreen_types_upto(c, s)
            + sink_fullscreen_types(c.sinks@[s]),
{
}

/// What `extract_monitor_info` promises: names are unique and offered,
/// every pair in the table is offered under that name, every offered
/// monitor is present, and rates run fastest first without repeats.
pub open spec fn parsed_monitors_sound(c: AvailableConfig, out: Seq<MonitorData>) -> bool {
    &&& forall|a: int, b: int|
        0 <= a < b < out.len() ==> (#[trigger] out[a]).name@ != (#[trigger] out[b]).name@
    &&& forall|i: int| 0 <= i < out.len() ==> config_has_monitor(c, (#[trigger] out[i]).name@)
    &&& forall|i: int, j: int|
        0 <= i < out.len() && 0 <= j < out[i].modes@.len() ==> rates_sorted_desc(
            (#[trigger] out[i].modes@[j]).refresh_rates_hz@,
        )
    &&& forall|i: int, j: int, l: int|
        0 <= i < out.len() && 0 <= j < out[i].modes@.len() && 0 <= l
            < out[i].modes@[j].refresh_rates_hz@.len() ==> config_has_pair(
            c,
            out[i].name@,
            out[i].modes@[j].resolution@,
            #[trigger] out[i].modes@[j].refresh_rates_hz@[l],
        )
    &&& forall|s: int, y: int|
        0 <= s < c.sinks@.len() && 0 <= y < sink_monitor_configs(c.sinks@[s]).len()
            ==> entries_contain(out, (#[trigger] sink_monitor_configs(c.sinks@[s])[y]).name@)
}

} // verus!
