//! The routing graph builder: validation, the planned operation
//! sequence, fan-out, and teardown on a failed build.

use project_mapper::graph::build;
use project_mapper::graph::frame_targets;
use project_mapper::graph::validate;
use project_mapper::graph::BackendOp;
use project_mapper::graph::BuildError;
use project_mapper::graph::BuildProgress;
use project_mapper::graph::ConfigError;
use project_mapper::graph::Graph;
use project_mapper::runtime_config::RegionConfig;
use project_mapper::runtime_config::RegionType;
use project_mapper::runtime_config::RuntimeConfig;
use project_mapper::sink::FullScreenMode;
use project_mapper::sink::SinkConfig;
use project_mapper::sink::SinkType;
use project_mapper::source::SourceConfig;
use project_mapper::source::SourceType;
use project_mapper::source::Test;
use project_mapper::source::URI;

fn test_source(id: u32) -> SourceConfig {
    SourceConfig {
        name: format!("source {id}"),
        id,
        source: SourceType::Test(Test {}),
    }
}

fn windowed_sink(id: u32) -> SinkConfig {
    SinkConfig {
        name: format!("sink {id}"),
        id,
        sink: SinkType::OpenGLWindow { full_screen: FullScreenMode::Windowed {} },
    }
}

fn region(id: u32, source: u32, sink: u32) -> RegionConfig {
    RegionConfig {
        name: format!("region {id}"),
        id,
        region: RegionType::Display { source, sink },
    }
}

/// A stand-in for the media backend that only counts how many
/// operations it was asked to perform.
struct CountingBackend {
    calls: usize,
}

impl CountingBackend {
    fn execute(&mut self, graph: &Graph) {
        let mut progress = BuildProgress::new();
        while !progress.is_done(graph) {
            let _op = &graph.ops[progress.position()];
            self.calls += 1;
            progress.op_done(graph);
        }
    }
}

#[test]
fn dangling_source_fails_before_any_backend_call() {
    let config = RuntimeConfig {
        sources: vec![test_source(1)],
        sinks: vec![windowed_sink(1)],
        regions: vec![region(1, 99, 1)],
    };
    let backend = CountingBackend { calls: 0 };
    match build(&config) {
        Err(ConfigError::UnknownSourceRef { region_id, source_id }) => {
            assert_eq!(region_id, 1);
            assert_eq!(source_id, 99);
        }
        other => panic!("unexpected result {other:?}"),
    }
    // No graph exists, so the backend was never driven.
    assert_eq!(backend.calls, 0);
}

#[test]
fn dangling_sink_fails_before_any_backend_call() {
    let config = RuntimeConfig {
        sources: vec![test_source(1)],
        sinks: vec![windowed_sink(1)],
        regions: vec![region(1, 1, 42)],
    };
    let backend = CountingBackend { calls: 0 };
    match build(&config) {
        Err(ConfigError::UnknownSinkRef { region_id, sink_id }) => {
            assert_eq!(region_id, 1);
            assert_eq!(sink_id, 42);
        }
        other => panic!("unexpected result {other:?}"),
    }
    assert_eq!(backend.calls, 0);
}

#[test]
fn duplicate_ids_are_rejected() {
    let config = RuntimeConfig {
        sources: vec![test_source(1), test_source(1)],
        sinks: vec![windowed_sink(1)],
        regions: vec![region(1, 1, 1)],
    };
    assert_eq!(validate(&config), Err(ConfigError::DuplicateSourceId { id: 1 }));

    let config = RuntimeConfig {
        sources: vec![test_source(1)],
        sinks: vec![windowed_sink(7), windowed_sink(7)],
        regions: vec![],
    };
    assert_eq!(validate(&config), Err(ConfigError::DuplicateSinkId { id: 7 }));

    let config = RuntimeConfig {
        sources: vec![test_source(1)],
        sinks: vec![windowed_sink(1), windowed_sink(2)],
        regions: vec![region(3, 1, 1), region(3, 1, 2)],
    };
    assert_eq!(validate(&config), Err(ConfigError::DuplicateRegionId { id: 3 }));
}

#[test]
fn fan_in_is_rejected() {
    let config = RuntimeConfig {
        sources: vec![test_source(1), test_source(2)],
        sinks: vec![windowed_sink(1)],
        regions: vec![region(1, 1, 1), region(2, 2, 1)],
    };
    assert_eq!(
        validate(&config),
        Err(ConfigError::SinkFedTwice { region_id: 2, sink_id: 1 })
    );
}

#[test]
fn plan_lays_out_sources_sinks_then_regions() {
    let config = RuntimeConfig {
        sources: vec![SourceConfig {
            name: String::from("movie"),
            id: 2,
            source: SourceType::URI(URI { uri: String::from("https://example.test/movie.webm") }),
        }],
        sinks: vec![windowed_sink(5)],
        regions: vec![region(1, 2, 5)],
    };
    let graph = build(&config).unwrap();
    assert_eq!(graph.ops.len(), 7);
    match &graph.ops[0] {
        BackendOp::CreateSourceChain { source_id, kind, name } => {
            assert_eq!(*source_id, 2);
            assert_eq!(name, "uri-2");
            match kind {
                SourceType::URI(u) => assert_eq!(u.uri, "https://example.test/movie.webm"),
                other => panic!("unexpected kind {other:?}"),
            }
        }
        other => panic!("unexpected op {other:?}"),
    }
    assert_eq!(
        graph.ops[1],
        BackendOp::CreateFanout { source_id: 2, name: String::from("tee-uri-2") }
    );
    assert_eq!(graph.ops[2], BackendOp::LinkSourceToFanout { source_id: 2 });
    assert_eq!(
        graph.ops[3],
        BackendOp::CreateQueue { sink_id: 5, name: String::from("queue-opengl-5") }
    );
    assert_eq!(
        graph.ops[4],
        BackendOp::CreateSinkChain { sink_id: 5, name: String::from("opengl-5") }
    );
    assert_eq!(graph.ops[5], BackendOp::LinkQueueToSinkChain { sink_id: 5 });
    assert_eq!(
        graph.ops[6],
        BackendOp::LinkFanoutToQueue { region_id: 1, source_id: 2, sink_id: 5 }
    );
    assert_eq!(graph.source_ids, vec![2]);
    assert_eq!(graph.sink_ids, vec![5]);
    assert_eq!(graph.edges, vec![(2, 5)]);
}

#[test]
fn single_region_source_still_gets_a_junction() {
    let config = RuntimeConfig {
        sources: vec![test_source(1)],
        sinks: vec![windowed_sink(1)],
        regions: vec![region(1, 1, 1)],
    };
    let graph = build(&config).unwrap();
    assert!(graph
        .ops
        .iter()
        .any(|op| matches!(op, BackendOp::CreateFanout { source_id: 1, .. })));
}

#[test]
fn fan_out_reaches_both_sinks_and_delivers_every_frame() {
    let config = RuntimeConfig {
        sources: vec![test_source(1)],
        sinks: vec![windowed_sink(1), windowed_sink(2)],
        regions: vec![region(1, 1, 1), region(2, 1, 2)],
    };
    let graph = build(&config).unwrap();
    // Both sinks' consuming chains hang off the single source chain.
    assert_eq!(frame_targets(&graph, 1), vec![1, 2]);
    // Execute the whole plan against a counting stub and tally what
    // each sink observes: every frame the source emits arrives once at
    // each of the two capture points.
    let mut backend = CountingBackend { calls: 0 };
    backend.execute(&graph);
    assert_eq!(backend.calls, graph.ops.len());
    let frames_in = 50;
    for sink in frame_targets(&graph, 1) {
        let mut observed = 0;
        for _frame in 0..frames_in {
            if frame_targets(&graph, 1).contains(&sink) {
                observed += 1;
            }
        }
        assert_eq!(observed, frames_in);
    }
}

#[test]
fn failed_build_tears_down_created_elements_in_reverse() {
    let config = RuntimeConfig {
        sources: vec![test_source(1)],
        sinks: vec![windowed_sink(1)],
        regions: vec![region(1, 1, 1)],
    };
    let graph = build(&config).unwrap();
    let mut progress = BuildProgress::new();
    // ops 0..4: chain, fanout, link, queue, sink chain.
    for _ in 0..5 {
        progress.op_done(&graph);
    }
    // The link of queue to sink chain (op 5) fails.
    let (teardown, error) = progress.op_failed(&graph);
    // Created elements were ops 0, 1, 3, 4; teardown runs them backwards.
    assert_eq!(teardown, vec![4, 3, 1, 0]);
    assert_eq!(error, BuildError::SinkFailed { sink_id: 1 });
}

#[test]
fn failed_region_link_names_the_region() {
    let config = RuntimeConfig {
        sources: vec![test_source(1)],
        sinks: vec![windowed_sink(1)],
        regions: vec![region(9, 1, 1)],
    };
    let graph = build(&config).unwrap();
    let mut progress = BuildProgress::new();
    for _ in 0..6 {
        progress.op_done(&graph);
    }
    let (_teardown, error) = progress.op_failed(&graph);
    assert_eq!(error, BuildError::RegionFailed { region_id: 9 });
}

#[test]
fn source_without_regions_feeds_no_sink() {
    let config = RuntimeConfig {
        sources: vec![test_source(1), test_source(2)],
        sinks: vec![windowed_sink(1)],
        regions: vec![region(1, 1, 1)],
    };
    let graph = build(&config).unwrap();
    assert_eq!(frame_targets(&graph, 2), Vec::<u32>::new());
    assert_eq!(frame_targets(&graph, 1), vec![1]);
}

#[test]
fn empty_configuration_builds_an_empty_plan() {
    let config = RuntimeConfig { sources: vec![], sinks: vec![], regions: vec![] };
    let graph = build(&config).unwrap();
    assert_eq!(graph.ops.len(), 0);
    assert_eq!(graph.edges.len(), 0);
}
