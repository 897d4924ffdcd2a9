//! The mode resolver: validation of requested presentation modes
//! against the capability inventory.

use project_mapper::inventory::CapabilityInventory;
use project_mapper::inventory::MonitorData;
use project_mapper::inventory::ResolutionRates;
use project_mapper::resolver::resolve;
use project_mapper::resolver::ResolutionError;
use project_mapper::resolver::ResolvedPresentation;
use project_mapper::sink::FullScreenMode;
use project_mapper::sink::MonitorInfo;

fn monitor(name: &str, modes: &[(&str, &[u32])]) -> MonitorData {
    MonitorData {
        name: String::from(name),
        modes: modes
            .iter()
            .map(|(res, rates)| ResolutionRates {
                resolution: String::from(*res),
                refresh_rates_hz: rates.to_vec(),
            })
            .collect(),
    }
}

fn two_monitor_inventory() -> CapabilityInventory {
    CapabilityInventory {
        monitors: vec![
            monitor("DISPLAY1", &[("1920x1080", &[60, 120]), ("1280x720", &[60])]),
            monitor("DISPLAY2", &[("2560x1440", &[144])]),
        ],
    }
}

#[test]
fn windowed_always_resolves() {
    let inv = two_monitor_inventory();
    let r = resolve(&FullScreenMode::Windowed {}, &inv).unwrap();
    assert!(matches!(r, ResolvedPresentation::Windowed {}));
    let empty = CapabilityInventory { monitors: vec![] };
    let r = resolve(&FullScreenMode::Windowed {}, &empty).unwrap();
    assert!(matches!(r, ResolvedPresentation::Windowed {}));
}

#[test]
fn borderless_resolves_to_known_monitor() {
    let inv = two_monitor_inventory();
    let mode = FullScreenMode::Borderless { name: String::from("DISPLAY2") };
    match resolve(&mode, &inv).unwrap() {
        ResolvedPresentation::Borderless { monitor } => assert_eq!(monitor, "DISPLAY2"),
        other => panic!("unexpected target {other:?}"),
    }
}

#[test]
fn borderless_unknown_monitor_lists_all_names() {
    let inv = two_monitor_inventory();
    let mode = FullScreenMode::Borderless { name: String::from("DISPLAY9") };
    match resolve(&mode, &inv).unwrap_err() {
        ResolutionError::UnknownMonitor { name, known } => {
            assert_eq!(name, "DISPLAY9");
            assert_eq!(known, vec![String::from("DISPLAY1"), String::from("DISPLAY2")]);
        }
        other => panic!("unexpected error {other:?}"),
    }
}

#[test]
fn exclusive_unknown_monitor_lists_all_names() {
    let inv = two_monitor_inventory();
    let mode = FullScreenMode::Exclusive {
        info: MonitorInfo {
            name: String::from("missing"),
            resolution: String::from("1920x1080"),
            refresh_rate_hz: 60,
        },
    };
    match resolve(&mode, &inv).unwrap_err() {
        ResolutionError::UnknownMonitor { name, known } => {
            assert_eq!(name, "missing");
            assert_eq!(known, vec![String::from("DISPLAY1"), String::from("DISPLAY2")]);
        }
        other => panic!("unexpected error {other:?}"),
    }
}

#[test]
fn exclusive_resolves_exact_mode() {
    let inv = two_monitor_inventory();
    let mode = FullScreenMode::Exclusive {
        info: MonitorInfo {
            name: String::from("DISPLAY1"),
            resolution: String::from("1920x1080"),
            refresh_rate_hz: 120,
        },
    };
    match resolve(&mode, &inv).unwrap() {
        ResolvedPresentation::Exclusive { monitor, resolution, refresh_rate_hz } => {
            assert_eq!(monitor, "DISPLAY1");
            assert_eq!(resolution, "1920x1080");
            assert_eq!(refresh_rate_hz, 120);
        }
        other => panic!("unexpected target {other:?}"),
    }
}

#[test]
fn exclusive_unknown_resolution_lists_alternatives() {
    let inv = two_monitor_inventory();
    let mode = FullScreenMode::Exclusive {
        info: MonitorInfo {
            name: String::from("DISPLAY1"),
            resolution: String::from("3840x2160"),
            refresh_rate_hz: 60,
        },
    };
    match resolve(&mode, &inv).unwrap_err() {
        ResolutionError::UnknownResolution { resolution, available } => {
            assert_eq!(resolution, "3840x2160");
            assert_eq!(available, vec![String::from("1920x1080"), String::from("1280x720")]);
        }
        other => panic!("unexpected error {other:?}"),
    }
}

#[test]
fn exclusive_unknown_refresh_rate_lists_supported_rates() {
    // The monitor supports 1920x1080 at 60 and at 120 hertz; asking for
    // 144 hertz is answered with exactly those two alternatives.
    let inv = CapabilityInventory {
        monitors: vec![monitor("DISPLAY1", &[("1920x1080", &[60, 120])])],
    };
    let mode = FullScreenMode::Exclusive {
        info: MonitorInfo {
            name: String::from("DISPLAY1"),
            resolution: String::from("1920x1080"),
            refresh_rate_hz: 144,
        },
    };
    match resolve(&mode, &inv).unwrap_err() {
        ResolutionError::UnknownRefreshRate { refresh_rate_hz, available } => {
            assert_eq!(refresh_rate_hz, 144);
            assert_eq!(available, vec![60, 120]);
        }
        other => panic!("unexpected error {other:?}"),
    }
}
