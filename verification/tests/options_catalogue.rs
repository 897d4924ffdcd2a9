//! The option catalogue, its parsed working form, the selection repair
//! pass, and the built-in defaults.

use project_mapper::events::OptionEvent;
use project_mapper::header::HeaderCore;
use project_mapper::inventory::CapabilityInventory;
use project_mapper::inventory::MonitorData;
use project_mapper::inventory::ResolutionRates;
use project_mapper::options::generate_options;
use project_mapper::options::generate_opengl_option;
use project_mapper::options::generate_uri_option;
use project_mapper::options::ConfigHandler;
use project_mapper::options::SinkTypeOptions;
use project_mapper::options::SourceTypeOptions;
use project_mapper::parser::ParsedAvailableConfig;
use project_mapper::runtime_config::RegionType;
use project_mapper::runtime_config::RuntimeConfig;
use project_mapper::sink::FullScreenMode;
use project_mapper::sink::MonitorInfo;
use project_mapper::sink::SinkType;
use project_mapper::source::SourceType;
use project_mapper::widgets::MonitorElementConfig;
use project_mapper::widgets::MonitorElementWidget;

fn inventory() -> CapabilityInventory {
    CapabilityInventory {
        monitors: vec![
            MonitorData {
                name: String::from("DISPLAY1"),
                modes: vec![
                    ResolutionRates {
                        resolution: String::from("1920x1080"),
                        refresh_rates_hz: vec![60, 120],
                    },
                    ResolutionRates {
                        resolution: String::from("1280x720"),
                        refresh_rates_hz: vec![60],
                    },
                ],
            },
            MonitorData { name: String::from("DISPLAY2"), modes: vec![] },
        ],
    }
}

#[test]
fn fullscreen_options_list_every_monitor() {
    let handler = ConfigHandler::new();
    let options = handler.fullscreen_options(inventory());
    assert_eq!(options.windowed.kind_name, "Windowed");
    assert_eq!(options.borderless.kind_name, "Borderless");
    assert_eq!(options.exclusive.kind_name, "Exclusive");
    assert_eq!(
        options.borderless.monitors,
        vec![String::from("DISPLAY1"), String::from("DISPLAY2")]
    );
    assert_eq!(options.exclusive.monitor_configs.len(), 2);
    assert_eq!(options.exclusive.monitor_configs[0].name, "DISPLAY1");
}

#[test]
fn option_event_wraps_the_fullscreen_options() {
    let handler = ConfigHandler::new();
    let OptionEvent::OpenGLWindowOptions(options) = handler.option_event(inventory());
    assert_eq!(options.exclusive.monitor_configs.len(), 2);
}

#[test]
fn catalogue_offers_all_kinds_under_their_names() {
    let handler = ConfigHandler::new();
    let full_screen = handler.fullscreen_options(inventory());
    let catalogue = generate_options(
        full_screen,
        vec![String::from("http"), String::from("file")],
    );
    assert_eq!(catalogue.sinks.len(), 1);
    assert_eq!(catalogue.sinks[0].kind_name, "OpenGLWindow");
    assert_eq!(catalogue.sources.len(), 2);
    assert_eq!(catalogue.sources[0].kind_name, "URI");
    match &catalogue.sources[0].type_options {
        SourceTypeOptions::URI { uri_types } => {
            assert_eq!(uri_types, &vec![String::from("http"), String::from("file")]);
        }
        other => panic!("unexpected options {other:?}"),
    }
    assert_eq!(catalogue.sources[1].kind_name, "Test");
    assert_eq!(catalogue.regions.len(), 1);
    assert_eq!(catalogue.regions[0].kind_name, "Display");
}

#[test]
fn wrapped_options_keep_their_content() {
    let handler = ConfigHandler::new();
    let full_screen = handler.fullscreen_options(inventory());
    let sink = generate_opengl_option(full_screen);
    match &sink.type_options {
        SinkTypeOptions::OpenGLWindow { full_screen } => {
            assert_eq!(full_screen.borderless.monitors.len(), 2);
        }
    }
    let source = generate_uri_option(vec![String::from("rtsp")]);
    match &source.type_options {
        SourceTypeOptions::URI { uri_types } => assert_eq!(uri_types, &vec![String::from("rtsp")]),
        other => panic!("unexpected options {other:?}"),
    }
}

#[test]
fn parsing_the_catalogue_extracts_modes_and_monitors() {
    let handler = ConfigHandler::new();
    let full_screen = handler.fullscreen_options(inventory());
    let catalogue = generate_options(full_screen, vec![]);
    let parsed = ParsedAvailableConfig::new(&catalogue);
    assert_eq!(
        parsed.full_screen_modes,
        vec![String::from("Windowed"), String::from("Borderless"), String::from("Exclusive")]
    );
    assert_eq!(parsed.monitors.len(), 2);
    assert_eq!(parsed.monitors[0].name, "DISPLAY1");
}

#[test]
fn parsed_refresh_rates_run_fastest_first() {
    let catalogue = generate_options(
        ConfigHandler::new().fullscreen_options(CapabilityInventory {
            monitors: vec![MonitorData {
                name: String::from("D"),
                modes: vec![ResolutionRates {
                    resolution: String::from("1920x1080"),
                    refresh_rates_hz: vec![60, 144, 120, 60],
                }],
            }],
        }),
        vec![],
    );
    let parsed = ParsedAvailableConfig::new(&catalogue);
    assert_eq!(parsed.monitors[0].modes[0].refresh_rates_hz, vec![144, 120, 60]);
}

#[test]
fn good_selection_is_kept() {
    let catalogue = generate_options(ConfigHandler::new().fullscreen_options(inventory()), vec![]);
    let parsed = ParsedAvailableConfig::new(&catalogue);
    let widget = MonitorElementWidget::new(
        parsed,
        MonitorElementConfig {
            mode: String::from("Exclusive"),
            monitor: MonitorInfo {
                name: String::from("DISPLAY1"),
                resolution: String::from("1280x720"),
                refresh_rate_hz: 60,
            },
        },
    );
    assert_eq!(widget.monitor.name, "DISPLAY1");
    assert_eq!(widget.monitor.resolution, "1280x720");
    assert_eq!(widget.monitor.refresh_rate_hz, 60);
}

#[test]
fn empty_selection_falls_back_to_first_offerings() {
    let catalogue = generate_options(ConfigHandler::new().fullscreen_options(inventory()), vec![]);
    let parsed = ParsedAvailableConfig::new(&catalogue);
    let widget = MonitorElementWidget::new(
        parsed,
        MonitorElementConfig {
            mode: String::from("Exclusive"),
            monitor: MonitorInfo {
                name: String::new(),
                resolution: String::new(),
                refresh_rate_hz: 0,
            },
        },
    );
    assert_eq!(widget.monitor.name, "DISPLAY1");
    assert_eq!(widget.monitor.resolution, "1920x1080");
    assert_eq!(widget.monitor.refresh_rate_hz, 120);
}

#[test]
fn unknown_selection_is_repaired() {
    let catalogue = generate_options(ConfigHandler::new().fullscreen_options(inventory()), vec![]);
    let parsed = ParsedAvailableConfig::new(&catalogue);
    let widget = MonitorElementWidget::new(
        parsed,
        MonitorElementConfig {
            mode: String::from("Exclusive"),
            monitor: MonitorInfo {
                name: String::from("GONE"),
                resolution: String::from("1920x1080"),
                refresh_rate_hz: 75,
            },
        },
    );
    assert_eq!(widget.monitor.name, "DISPLAY1");
    assert_eq!(widget.monitor.resolution, "1920x1080");
    // 75 hertz is not offered; the fastest offered rate wins.
    assert_eq!(widget.monitor.refresh_rate_hz, 120);
}

#[test]
fn selection_against_empty_catalogue_goes_blank() {
    let parsed = ParsedAvailableConfig {
        full_screen_modes: vec![],
        monitors: vec![],
    };
    let widget = MonitorElementWidget::new(
        parsed,
        MonitorElementConfig {
            mode: String::from("Borderless"),
            monitor: MonitorInfo {
                name: String::from("GONE"),
                resolution: String::from("1x1"),
                refresh_rate_hz: 5,
            },
        },
    );
    assert_eq!(widget.monitor.name, "");
    // Nothing to repair against: resolution and rate are left alone.
    assert_eq!(widget.monitor.resolution, "1x1");
    assert_eq!(widget.monitor.refresh_rate_hz, 5);
}

#[test]
fn editor_state_converts_to_and_from_fullscreen_modes() {
    let c = MonitorElementConfig {
        mode: String::from("Borderless"),
        monitor: MonitorInfo {
            name: String::from("DISPLAY1"),
            resolution: String::new(),
            refresh_rate_hz: 0,
        },
    };
    match c.to_fullscreen_config().unwrap() {
        FullScreenMode::Borderless { name } => assert_eq!(name, "DISPLAY1"),
        other => panic!("unexpected mode {other:?}"),
    }
    let exclusive = FullScreenMode::Exclusive {
        info: MonitorInfo {
            name: String::from("DISPLAY2"),
            resolution: String::from("2560x1440"),
            refresh_rate_hz: 144,
        },
    };
    let back = MonitorElementConfig::from_fullscreen_config(&exclusive)
        .to_fullscreen_config()
        .unwrap();
    assert_eq!(back, exclusive);
    let unknown = MonitorElementConfig {
        mode: String::from("Halfscreen"),
        monitor: MonitorInfo {
            name: String::new(),
            resolution: String::new(),
            refresh_rate_hz: 0,
        },
    };
    assert_eq!(unknown.to_fullscreen_config().unwrap_err().mode, "Halfscreen");
}

#[test]
fn default_editor_state_is_windowed() {
    let c = MonitorElementConfig::default();
    assert_eq!(c.mode, "Windowed");
    assert_eq!(c.monitor.name, "");
    assert_eq!(c.monitor.refresh_rate_hz, 0);
}

#[test]
fn header_starts_with_settings_closed() {
    let h = HeaderCore::default();
    assert!(!h.settings_window);
}

#[test]
fn built_in_configuration_matches_its_contract() {
    let c = RuntimeConfig::default();
    assert_eq!(c.sources.len(), 2);
    assert_eq!(c.sources[0].name, "test source");
    assert!(matches!(c.sources[0].source, SourceType::Test(_)));
    match &c.sources[1].source {
        SourceType::URI(u) => assert_eq!(
            u.uri,
            "https://gstreamer.freedesktop.org/data/media/sintel_trailer-480p.webm"
        ),
        other => panic!("unexpected source {other:?}"),
    }
    assert_eq!(c.sinks.len(), 2);
    assert_eq!(c.sinks[0].name, "main monitor");
    match &c.sinks[1].sink {
        SinkType::OpenGLWindow { full_screen } => match full_screen {
            FullScreenMode::Borderless { name } => assert_eq!(name, "\\\\.\\DISPLAY1"),
            other => panic!("unexpected mode {other:?}"),
        },
    }
    assert_eq!(c.regions.len(), 2);
    assert_eq!(c.regions[0].region, RegionType::Display { source: 1, sink: 1 });
    assert_eq!(c.regions[1].region, RegionType::Display { source: 2, sink: 2 });
}
