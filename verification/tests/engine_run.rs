//! End-to-end engine scenarios: startup ordering, the single shutdown
//! sequence, and startup refusal before any surface is opened.

use project_mapper::coordinator::ControlAction;
use project_mapper::coordinator::EnginePhase;
use project_mapper::coordinator::Runtime;
use project_mapper::coordinator::RuntimeError;
use project_mapper::coordinator::StartupError;
use project_mapper::events::RuntimeEvent;
use project_mapper::inventory::CapabilityInventory;
use project_mapper::inventory::MonitorData;
use project_mapper::inventory::ResolutionRates;
use project_mapper::resolver::ResolutionError;
use project_mapper::runtime_config::RegionConfig;
use project_mapper::runtime_config::RegionType;
use project_mapper::runtime_config::RuntimeConfig;
use project_mapper::sink::FullScreenMode;
use project_mapper::sink::MonitorInfo;
use project_mapper::sink::SinkConfig;
use project_mapper::sink::SinkType;
use project_mapper::source::SourceConfig;
use project_mapper::source::SourceType;
use project_mapper::source::Test;

fn simple_config(full_screen: FullScreenMode) -> RuntimeConfig {
    RuntimeConfig {
        sources: vec![SourceConfig {
            name: String::from("test source"),
            id: 1,
            source: SourceType::Test(Test {}),
        }],
        sinks: vec![SinkConfig {
            name: String::from("sink"),
            id: 1,
            sink: SinkType::OpenGLWindow { full_screen },
        }],
        regions: vec![RegionConfig {
            name: String::from("region"),
            id: 1,
            region: RegionType::Display { source: 1, sink: 1 },
        }],
    }
}

fn one_monitor_inventory() -> CapabilityInventory {
    CapabilityInventory {
        monitors: vec![MonitorData {
            name: String::from("DISPLAY1"),
            modes: vec![ResolutionRates {
                resolution: String::from("1920x1080"),
                refresh_rates_hz: vec![60],
            }],
        }],
    }
}

#[test]
fn windowed_sink_runs_and_stops_cleanly_on_user_exit() {
    // Config: one test source, one windowed sink, one region wiring
    // them.  The run reaches Running for the sink and terminates
    // cleanly when a user exit is injected.
    let config = simple_config(FullScreenMode::Windowed {});
    let inv = one_monitor_inventory();
    let mut rt = Runtime::new(config, &inv).unwrap();
    assert_eq!(rt.phase, EnginePhase::Opening);
    assert!(!rt.ready_to_start());
    rt.surface_opened(0, 1001);
    assert!(rt.ready_to_start());
    rt.start();
    assert_eq!(rt.phase, EnginePhase::Running);

    let acts = rt.handle_event(&RuntimeEvent::UserExit());
    assert_eq!(
        acts,
        vec![
            ControlAction::SignalEndOfStream,
            ControlAction::StopPipeline,
            ControlAction::CloseSurface { sink_index: 0 },
            ControlAction::JoinListener,
        ]
    );
    assert_eq!(rt.phase, EnginePhase::ShuttingDown);

    rt.surface_released(0);
    assert!(rt.teardown_complete());
    rt.finish();
    assert_eq!(rt.phase, EnginePhase::Stopped);
    assert!(rt.run_result().is_none());
}

#[test]
fn second_stop_trigger_is_ignored() {
    // Two stop triggers in quick succession: exactly one teardown
    // sequence runs, and each surface close is issued exactly once.
    let config = simple_config(FullScreenMode::Windowed {});
    let inv = one_monitor_inventory();
    let mut rt = Runtime::new(config, &inv).unwrap();
    rt.surface_opened(0, 1001);
    rt.start();

    let first = rt.handle_event(&RuntimeEvent::UserExit());
    let closes = first
        .iter()
        .filter(|a| matches!(a, ControlAction::CloseSurface { .. }))
        .count();
    assert_eq!(closes, 1);

    let second = rt.handle_event(&RuntimeEvent::StopThread());
    assert_eq!(second, Vec::<ControlAction>::new());
    let third = rt.handle_event(&RuntimeEvent::UserExit());
    assert_eq!(third, Vec::<ControlAction>::new());
}

#[test]
fn stop_thread_triggers_the_same_teardown() {
    let config = simple_config(FullScreenMode::Windowed {});
    let inv = one_monitor_inventory();
    let mut rt = Runtime::new(config, &inv).unwrap();
    rt.surface_opened(0, 1001);
    rt.start();
    let acts = rt.handle_event(&RuntimeEvent::StopThread());
    assert_eq!(acts.len(), 4);
    assert_eq!(acts[0], ControlAction::SignalEndOfStream);
    assert_eq!(acts[1], ControlAction::StopPipeline);
    assert_eq!(acts[3], ControlAction::JoinListener);
}

#[test]
fn unknown_monitor_refuses_startup_before_any_surface_opens() {
    // Same config, but the sink asks for exclusive fullscreen on
    // DISPLAY9, which the inventory lacks: the run returns
    // UnknownMonitor without ever opening a surface.
    let config = simple_config(FullScreenMode::Exclusive {
        info: MonitorInfo {
            name: String::from("DISPLAY9"),
            resolution: String::from("1920x1080"),
            refresh_rate_hz: 60,
        },
    });
    let inv = one_monitor_inventory();
    match Runtime::new(config, &inv) {
        Err(StartupError::Resolution(failure)) => {
            assert_eq!(failure.sink_id, 1);
            match failure.error {
                ResolutionError::UnknownMonitor { name, known } => {
                    assert_eq!(name, "DISPLAY9");
                    assert_eq!(known, vec![String::from("DISPLAY1")]);
                }
                other => panic!("unexpected error {other:?}"),
            }
        }
        other => panic!("unexpected result {other:?}"),
    }
}

#[test]
fn invalid_configuration_refuses_startup() {
    let mut config = simple_config(FullScreenMode::Windowed {});
    config.regions.push(RegionConfig {
        name: String::from("second region"),
        id: 2,
        region: RegionType::Display { source: 1, sink: 1 },
    });
    let inv = one_monitor_inventory();
    match Runtime::new(config, &inv) {
        Err(StartupError::Config(e)) => {
            assert_eq!(
                e,
                project_mapper::graph::ConfigError::SinkFedTwice { region_id: 2, sink_id: 1 }
            );
        }
        other => panic!("unexpected result {other:?}"),
    }
}

#[test]
fn backend_error_tears_down_once_and_is_reraised() {
    let config = simple_config(FullScreenMode::Windowed {});
    let inv = one_monitor_inventory();
    let mut rt = Runtime::new(config, &inv).unwrap();
    rt.surface_opened(0, 1001);
    rt.start();
    let acts = rt.handle_backend_error(String::from("decoder gave up"));
    assert_eq!(acts.len(), 4);
    // A later stop trigger changes nothing.
    assert_eq!(rt.handle_event(&RuntimeEvent::UserExit()), Vec::<ControlAction>::new());
    rt.surface_released(0);
    assert!(rt.teardown_complete());
    rt.finish();
    match rt.run_result() {
        Some(RuntimeError::Backend { message }) => assert_eq!(message, "decoder gave up"),
        other => panic!("unexpected outcome {other:?}"),
    }
}
