//! The per-sink lifecycle: resolution, frame acceptance, and the
//! idempotence of closing.

use project_mapper::inventory::CapabilityInventory;
use project_mapper::inventory::MonitorData;
use project_mapper::inventory::ResolutionRates;
use project_mapper::lifecycle::PresentationLifecycleManager;
use project_mapper::lifecycle::SinkState;
use project_mapper::resolver::ResolutionError;
use project_mapper::sink::FullScreenMode;
use project_mapper::sink::MonitorInfo;
use project_mapper::sink::SinkConfig;
use project_mapper::sink::SinkType;

fn sink(id: u32, full_screen: FullScreenMode) -> SinkConfig {
    SinkConfig { name: format!("sink {id}"), id, sink: SinkType::OpenGLWindow { full_screen } }
}

fn one_monitor_inventory() -> CapabilityInventory {
    CapabilityInventory {
        monitors: vec![MonitorData {
            name: String::from("DISPLAY1"),
            modes: vec![ResolutionRates {
                resolution: String::from("1920x1080"),
                refresh_rates_hz: vec![60],
            }],
        }],
    }
}

#[test]
fn sinks_start_unopened() {
    let sinks = vec![sink(1, FullScreenMode::Windowed {}), sink(2, FullScreenMode::Windowed {})];
    let mgr = PresentationLifecycleManager::new(&sinks);
    assert_eq!(mgr.sinks.len(), 2);
    assert_eq!(mgr.states, vec![SinkState::Unopened, SinkState::Unopened]);
    assert_eq!(mgr.sinks[0].sink_id, 1);
    assert_eq!(mgr.sinks[1].sink_id, 2);
    assert!(mgr.sinks.iter().all(|r| r.resolved.is_none()));
}

#[test]
fn resolving_all_sinks_opens_them() {
    let sinks = vec![
        sink(1, FullScreenMode::Windowed {}),
        sink(2, FullScreenMode::Borderless { name: String::from("DISPLAY1") }),
    ];
    let inv = one_monitor_inventory();
    let mut mgr = PresentationLifecycleManager::new(&sinks);
    mgr.resolve_all(&sinks, &inv).unwrap();
    assert_eq!(mgr.states, vec![SinkState::Opening, SinkState::Opening]);
    assert!(mgr.sinks.iter().all(|r| r.resolved.is_some()));
}

#[test]
fn first_unresolvable_sink_closes_and_stops_the_pass() {
    let sinks = vec![
        sink(1, FullScreenMode::Windowed {}),
        sink(2, FullScreenMode::Borderless { name: String::from("DISPLAY9") }),
        sink(3, FullScreenMode::Windowed {}),
    ];
    let inv = one_monitor_inventory();
    let mut mgr = PresentationLifecycleManager::new(&sinks);
    let failure = mgr.resolve_all(&sinks, &inv).unwrap_err();
    assert_eq!(failure.sink_id, 2);
    assert!(matches!(failure.error, ResolutionError::UnknownMonitor { .. }));
    assert_eq!(
        mgr.states,
        vec![SinkState::Opening, SinkState::Closed, SinkState::Unopened]
    );
}

#[test]
fn frames_flow_only_while_running() {
    let sinks = vec![sink(1, FullScreenMode::Windowed {})];
    let inv = one_monitor_inventory();
    let mut mgr = PresentationLifecycleManager::new(&sinks);
    mgr.resolve_all(&sinks, &inv).unwrap();
    assert!(!mgr.accepts_frames(0));
    mgr.register_window(0, 77);
    mgr.surface_ready(0);
    assert!(mgr.accepts_frames(0));
    assert_eq!(mgr.sink_by_window(77), Some(0));
    assert_eq!(mgr.sink_by_window(78), None);
    mgr.request_close(0);
    assert!(!mgr.accepts_frames(0));
}

#[test]
fn close_is_idempotent_per_sink() {
    let sinks = vec![sink(1, FullScreenMode::Windowed {})];
    let inv = one_monitor_inventory();
    let mut mgr = PresentationLifecycleManager::new(&sinks);
    mgr.resolve_all(&sinks, &inv).unwrap();
    mgr.surface_ready(0);
    // The first request closes the surface; the second does nothing.
    assert!(mgr.request_close(0));
    assert_eq!(mgr.states[0], SinkState::Closing);
    assert!(!mgr.request_close(0));
    assert_eq!(mgr.states[0], SinkState::Closing);
    mgr.surface_released(0);
    assert!(!mgr.request_close(0));
    assert_eq!(mgr.states[0], SinkState::Closed);
}

#[test]
fn second_close_pass_has_nothing_to_do() {
    let sinks = vec![
        sink(1, FullScreenMode::Windowed {}),
        sink(2, FullScreenMode::Windowed {}),
        sink(3, FullScreenMode::Windowed {}),
    ];
    let inv = one_monitor_inventory();
    let mut mgr = PresentationLifecycleManager::new(&sinks);
    mgr.resolve_all(&sinks, &inv).unwrap();
    mgr.surface_ready(0);
    mgr.surface_ready(1);
    // Two sinks run; the third is still opening.  All three own a
    // surface, so one close pass closes each exactly once.
    let first = mgr.close_all();
    assert_eq!(first, vec![0, 1, 2]);
    let second = mgr.close_all();
    assert_eq!(second, Vec::<usize>::new());
    assert!(!mgr.all_closed());
    mgr.surface_released(0);
    mgr.surface_released(1);
    mgr.surface_released(2);
    assert!(mgr.all_closed());
}

#[test]
fn unopened_sinks_close_without_a_surface_call() {
    let sinks = vec![sink(1, FullScreenMode::Windowed {})];
    let mut mgr = PresentationLifecycleManager::new(&sinks);
    let targets = mgr.close_all();
    assert_eq!(targets, Vec::<usize>::new());
    assert!(mgr.all_closed());
}
