//! The option catalogue: what kinds of sources, sinks and regions can be
//! configured on this machine, and with which concrete monitors, modes
//! and URI schemes.  The windowing and media subsystems report raw
//! capabilities; assembling them into the catalogue is plain logic.

use vstd::prelude::*;
use vstd::string::StringExecFns;
use crate::inventory::CapabilityInventory;
use crate::inventory::MonitorData;

verus! {

/// The windowed presentation choice.
#[derive(Clone, PartialEq, Eq, Debug)]
pub struct WindowOptions {
    pub kind_name: String,
}

/// The borderless presentation choice and the monitors it can target.
#[derive(Clone, PartialEq, Eq, Debug)]
pub struct BorderlessOptions {
    pub kind_name: String,
    pub monitors: Vec<String>,
}

/// The exclusive presentation choice and, per monitor, the supported
/// resolution and refresh-rate pairs.
#[derive(Clone, PartialEq, Eq, Debug)]
pub struct ExclusiveOptions {
    pub kind_name: String,
    pub monitor_configs: Vec<MonitorData>,
}

/// All three presentation choices.
#[derive(Clone, PartialEq, Eq, Debug)]
pub struct FullscreenOptions {
    pub windowed: WindowOptions,
    pub borderless: BorderlessOptions,
    pub exclusive: ExclusiveOptions,
}

/// The options a sink kind offers.
#[derive(Clone, PartialEq, Eq, Debug)]
pub enum SinkTypeOptions {
    OpenGLWindow { full_screen: FullscreenOptions },
}

/// One offered sink kind, by name.
#[derive(Clone, PartialEq, Eq, Debug)]
pub struct SinkOption {
    pub kind_name: String,
    pub type_options: SinkTypeOptions,
}

/// The options a source kind offers.
#[derive(Clone, PartialEq, Eq, Debug)]
pub enum SourceTypeOptions {
    Test {},
    URI { uri_types: Vec<String> },
}

/// One offered source kind, by name.
#[derive(Clone, PartialEq, Eq, Debug)]
pub struct SourceOption {
    pub kind_name: String,
    pub type_options: SourceTypeOptions,
}

/// The options a region kind offers.
#[derive(Clone, PartialEq, Eq, Debug)]
pub enum RegionTypeOptions {
    Display {},
}

/// One offered region kind, by name.
#[derive(Clone, PartialEq, Eq, Debug)]
pub struct RegionOption {
    pub kind_name: String,
    pub type_options: RegionTypeOptions,
}

/// Everything that can be configured on this machine.
#[derive(Clone, PartialEq, Eq, Debug)]
pub struct AvailableConfig {
    pub sinks: Vec<SinkOption>,
    pub sources: Vec<SourceOption>,
    pub regions: Vec<RegionOption>,
}

/// Builds the windowing subsystem's capability answer: the three
/// presentation choices under their wire names, the borderless choice
/// listing every monitor of the inventory by name and in order, and the
/// exclusive choice carrying the inventory's mode table unchanged.
pub struct ConfigHandler {
}

impl ConfigHandler {
    /// A fresh handler.
    pub fn new() -> (r: ConfigHandler) {
        ConfigHandler {  }
    }

    /// The presentation choices this inventory supports.  The inventory
    /// is consumed: its mode table moves into the exclusive choice.
    pub fn fullscreen_options(&self, inventory: CapabilityInventory) -> (r: FullscreenOptions)
        ensures
            r.windowed.kind_name@ == "Windowed"@,
            r.borderless.kind_name@ == "Borderless"@,
            r.exclusive.kind_name@ == "Exclusive"@,
            r.borderless.monitors@.len() == inventory.monitors@.len(),
            forall|i: int|
                0 <= i < inventory.monitors@.len() ==> (#[trigger] r.borderless.monitors@[i])@ == (
                inventory.monitors@[i]).name@,
            r.exclusive.monitor_configs@ == inventory.monitors@,
    {
        let mut names: Vec<String> = Vec::new();
        let n = inventory.monitors.len();
        let mut i: usize = 0;
        while i < n
            invariant
                0 <= i <= n,
                n == inventory.monitors@.len(),
                names@.len() == i,
                forall|k: int|
                    0 <= k < i ==> (#[trigger] names@[k])@ == (inventory.monitors@[k]).name@,
            decreases n - i,
        {
            names.push(inventory.monitors[i].name.clone());
            i = i + 1;
        }
        FullscreenOptions {
            windowed: WindowOptions { kind_name: String::from_str("Windowed") },
            borderless: BorderlessOptions {
                kind_name: String::from_str("Borderless"),
                monitors: names,
            },
            exclusive: ExclusiveOptions {
                kind_name: String::from_str("Exclusive"),
                monitor_configs: inventory.monitors,
            },
        }
    }

    /// The capability answer carried back on the option channel.
    pub fn option_event(&self, inventory: CapabilityInventory) -> (r: crate::events::OptionEvent)
        ensures
            r matches crate::events::OptionEvent::OpenGLWindowOptions(f) && f.windowed.kind_name@
                == "Windowed"@ && f.borderless.kind_name@ == "Borderless"@
                && f.exclusive.kind_name@ == "Exclusive"@ && f.exclusive.monitor_configs@
                == inventory.monitors@,
    {
        crate::events::OptionEvent::OpenGLWindowOptions(self.fullscreen_options(inventory))
    }
}

/// Wraps the presentation choices as the one offered sink kind.
pub fn generate_opengl_option(full_screen: FullscreenOptions) -> (r: SinkOption)
    ensures
        r.kind_name@ == "OpenGLWindow"@,
        r.type_options matches SinkTypeOptions::OpenGLWindow { full_screen: f } && f == full_screen,
{
    SinkOption {
        kind_name: String::from_str("OpenGLWindow"),
        type_options: SinkTypeOptions::OpenGLWindow { full_screen },
    }
}

/// Wraps the URI schemes the media subsystem can read as the offered
/// URI source kind.
pub fn generate_uri_option(uri_types: Vec<String>) -> (r: SourceOption)
    ensures
        r.kind_name@ == "URI"@,
        r.type_options matches SourceTypeOptions::URI { uri_types: u } && u@ == uri_types@,
{
    SourceOption {
        kind_name: String::from_str("URI"),
        type_options: SourceTypeOptions::URI { uri_types },
    }
}

/// Assembles the full option catalogue: the OpenGL window sink, the URI
/// and test source kinds, and the display region kind.
pub fn generate_options(full_screen: FullscreenOptions, uri_types: Vec<String>) -> (r:
    AvailableConfig)
    ensures
        r.sinks@.len() == 1,
        r.sinks@[0].kind_name@ == "OpenGLWindow"@,
        r.sinks@[0].type_options matches SinkTypeOptions::OpenGLWindow { full_screen: f } && f
            == full_screen,
        r.sources@.len() == 2,
        r.sources@[0].kind_name@ == "URI"@,
        r.sources@[0].type_options matches SourceTypeOptions::URI { uri_types: u } && u@
            == uri_types@,
        r.sources@[1].kind_name@ == "Test"@,
        r.sources@[1].type_options is Test,
        r.regions@.len() == 1,
        r.regions@[0].kind_name@ == "Display"@,
        r.regions@[0].type_options is Display,
{
    let opengl_sink = generate_opengl_option(full_screen);
    let uri_source = generate_uri_option(uri_types);
    let test_source = SourceOption {
        kind_name: String::from_str("Test"),
        type_options: SourceTypeOptions::Test {},
    };
    let display_region = RegionOption {
        kind_name: String::from_str("Display"),
        type_options: RegionTypeOptions::Display {},
    };
    let mut sinks: Vec<SinkOption> = Vec::new();
    sinks.push(opengl_sink);
    let mut sources: Vec<SourceOption> = Vec::new();
    sources.push(uri_source);
    sources.push(test_source);
    let mut regions: Vec<RegionOption> = Vec::new();
    regions.push(display_region);
    AvailableConfig { sinks, sources, regions }
}

} // verus!
