//! Building the capability inventory from raw monitor reports.

use project_mapper::inventory::gather_monitor_info;
use project_mapper::inventory::sanitize_monitor_name;
use project_mapper::inventory::MonitorReport;
use project_mapper::inventory::VideoMode;

fn mode(width: u32, height: u32, refresh_rate_millihertz: u32) -> VideoMode {
    VideoMode { width, height, refresh_rate_millihertz }
}

#[test]
fn backslashes_are_stripped_from_names() {
    assert_eq!(sanitize_monitor_name(String::from("\\\\.\\DISPLAY1")), ".DISPLAY1");
    assert_eq!(sanitize_monitor_name(String::from("DISPLAY1")), "DISPLAY1");
    assert_eq!(sanitize_monitor_name(String::from("")), "");
}

#[test]
fn modes_are_grouped_by_resolution_and_truncated_to_hertz() {
    let reports = vec![MonitorReport {
        name: String::from("DISPLAY1"),
        modes: vec![
            mode(1920, 1080, 60000),
            mode(1920, 1080, 119982),
            mode(1280, 720, 60000),
        ],
    }];
    let inv = gather_monitor_info(&reports);
    assert_eq!(inv.monitors.len(), 1);
    let m = &inv.monitors[0];
    assert_eq!(m.name, "DISPLAY1");
    assert_eq!(m.modes.len(), 2);
    assert_eq!(m.modes[0].resolution, "1920x1080");
    assert_eq!(m.modes[0].refresh_rates_hz, vec![60, 119]);
    assert_eq!(m.modes[1].resolution, "1280x720");
    assert_eq!(m.modes[1].refresh_rates_hz, vec![60]);
}

#[test]
fn monitor_with_no_modes_still_gets_an_entry() {
    let reports = vec![MonitorReport { name: String::from("HEADLESS"), modes: vec![] }];
    let inv = gather_monitor_info(&reports);
    assert_eq!(inv.monitors.len(), 1);
    assert_eq!(inv.monitors[0].name, "HEADLESS");
    assert_eq!(inv.monitors[0].modes.len(), 0);
}

#[test]
fn equal_modes_are_kept_once() {
    let reports = vec![MonitorReport {
        name: String::from("DISPLAY1"),
        modes: vec![mode(1920, 1080, 60000), mode(1920, 1080, 60400)],
    }];
    let inv = gather_monitor_info(&reports);
    // Both raw modes truncate to 60 hertz at the same resolution.
    assert_eq!(inv.monitors[0].modes[0].refresh_rates_hz, vec![60]);
}

#[test]
fn reports_sharing_a_sanitized_name_pool_their_modes() {
    let reports = vec![
        MonitorReport {
            name: String::from("\\\\.\\DISPLAY1"),
            modes: vec![mode(1920, 1080, 60000)],
        },
        MonitorReport {
            name: String::from(".DISPLAY1"),
            modes: vec![mode(1280, 720, 50000)],
        },
    ];
    let inv = gather_monitor_info(&reports);
    assert_eq!(inv.monitors.len(), 1);
    let m = &inv.monitors[0];
    assert_eq!(m.name, ".DISPLAY1");
    assert_eq!(m.modes.len(), 2);
}

#[test]
fn distinct_monitors_get_distinct_entries() {
    let reports = vec![
        MonitorReport { name: String::from("A"), modes: vec![mode(800, 600, 60000)] },
        MonitorReport { name: String::from("B"), modes: vec![mode(640, 480, 75000)] },
    ];
    let inv = gather_monitor_info(&reports);
    assert_eq!(inv.monitors.len(), 2);
    assert_eq!(inv.monitors[0].name, "A");
    assert_eq!(inv.monitors[1].name, "B");
    assert_eq!(inv.monitors[1].modes[0].refresh_rates_hz, vec![75]);
}
