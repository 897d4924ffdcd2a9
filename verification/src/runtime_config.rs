//! The aggregate runtime configuration: sources, sinks, and the regions
//! that connect them.

use vstd::prelude::*;
use vstd::string::StringExecFns;
use crate::sink::FullScreenMode;
use crate::sink::SinkConfig;
use crate::sink::SinkType;
use crate::source::SourceConfig;
use crate::source::SourceType;
use crate::source::Test;
use crate::source::URI;

verus! {

/// The closed set of region kinds.  A region is a directed edge from a
/// source to a sink.
#[derive(Clone, Copy, PartialEq, Eq, Debug, Structural)]
pub enum RegionType {
    Display { source: u32, sink: u32 },
}

/// A declared region: a unique id, a display name and its edge.
#[derive(Clone, PartialEq, Eq, Debug)]
pub struct RegionConfig {
    pub name: String,
    pub id: u32,
    pub region: RegionType,
}

/// The declarative routing graph handed to the engine: read-only once
/// the processing graph is built.
#[derive(Clone, PartialEq, Eq, Debug)]
pub struct RuntimeConfig {
    pub sinks: Vec<SinkConfig>,
    pub sources: Vec<SourceConfig>,
    pub regions: Vec<RegionConfig>,
}

/// The source id a region reads from.
pub open spec fn region_source(r: RegionConfig) -> u32 {
    match r.region {
        RegionType::Display { source, sink } => source,
    }
}

/// The sink id a region feeds.
pub open spec fn region_sink(r: RegionConfig) -> u32 {
    match r.region {
        RegionType::Display { source, sink } => sink,
    }
}

impl RuntimeConfig {
    /// The built-in demonstration configuration: a test-pattern source
    /// shown in a window, and a URI source shown borderless on the
    /// machine's first display, one region each.
    pub fn default() -> (c: RuntimeConfig)
        ensures
            c.sources@.len() == 2,
            c.sources@[0].id == 1,
            c.sources@[0].name@ == "test source"@,
            c.sources@[0].source is Test,
            c.sources@[1].id == 2,
            c.sources@[1].name@ == "uri source"@,
            c.sources@[1].source matches SourceType::URI(u) && u.uri@
                == "https://gstreamer.freedesktop.org/data/media/sintel_trailer-480p.webm"@,
            c.sinks@.len() == 2,
            c.sinks@[0].id == 1,
            c.sinks@[0].name@ == "main monitor"@,
            c.sinks@[0].sink matches SinkType::OpenGLWindow { full_screen } && full_screen
                is Windowed,
            c.sinks@[1].id == 2,
            c.sinks@[1].name@ == "other monitor"@,
            c.sinks@[1].sink matches SinkType::OpenGLWindow { full_screen } && full_screen
                matches FullScreenMode::Borderless { name } && name@ == "\\\\.\\DISPLAY1"@,
            c.regions@.len() == 2,
            c.regions@[0].id == 1,
            c.regions@[0].name@ == "main region"@,
            c.regions@[0].region == (RegionType::Display { source: 1u32, sink: 1u32 }),
            c.regions@[1].id == 2,
            c.regions@[1].name@ == "secondary region"@,
            c.regions@[1].region == (RegionType::Display { source: 2u32, sink: 2u32 }),
    {
        let source_one = SourceConfig {
            name: String::from_str("test source"),
            id: 1,
            source: SourceType::Test(Test {}),
        };
        let source_two = SourceConfig {
            name: String::from_str("uri source"),
            id: 2,
            source: SourceType::URI(
                URI {
                    uri: String::from_str(
                        "https://gstreamer.freedesktop.org/data/media/sintel_trailer-480p.webm",
                    ),
                },
            ),
        };
        let mut sources: Vec<SourceConfig> = Vec::new();
        sources.push(source_one);
        sources.push(source_two);

        let sink_one = SinkConfig {
            name: String::from_str("main monitor"),
            id: 1,
            sink: SinkType::OpenGLWindow { full_screen: FullScreenMode::Windowed {} },
        };
        let sink_two = SinkConfig {
            name: String::from_str("other monitor"),
            id: 2,
            sink: SinkType::OpenGLWindow {
                full_screen: FullScreenMode::Borderless {
                    name: String::from_str("\\\\.\\DISPLAY1"),
                },
            },
        };
        let mut sinks: Vec<SinkConfig> = Vec::new();
        sinks.push(sink_one);
        sinks.push(sink_two);

        let region_one = RegionConfig {
            name: String::from_str("main region"),
            id: 1,
            region: RegionType::Display { source: 1, sink: 1 },
        };
        let region_two = RegionConfig {
            name: String::from_str("secondary region"),
            id: 2,
            region: RegionType::Display { source: 2, sink: 2 },
        };
        let mut regions: Vec<RegionConfig> = Vec::new();
        regions.push(region_one);
        regions.push(region_two);

        RuntimeConfig { sinks, sources, regions }
    }
}

} // verus!
