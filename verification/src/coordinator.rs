//! The runtime coordinator: owns startup ordering — plan the graph,
//! resolve every sink, open surfaces, start the flow only when every
//! sink runs — and drives shutdown to completion exactly once, whether
//! a user closed a window, an explicit stop arrived, or the media
//! backend failed.  A second trigger while shutdown is in progress is
//! ignored, not queued.

use vstd::prelude::*;
use crate::graph::BuildError;
use crate::graph::ConfigError;
use crate::graph::Graph;
use crate::graph::build;
use crate::graph::config_error_witnessed;
use crate::graph::config_valid;
use crate::graph::graph_of_config;
use crate::events::RuntimeEvent;
use crate::inventory::CapabilityInventory;
use crate::inventory::inventory_wf;
use crate::lifecycle::PresentationLifecycleManager;
use crate::lifecycle::SinkResolutionFailure;
use crate::lifecycle::SinkState;
use crate::lifecycle::close_step;
use crate::lifecycle::manager_wf;
use crate::lifecycle::sink_mode;
use crate::lifecycle::spec_close_targets;
use crate::resolver::mode_resolvable;
use crate::resolver::resolution_error_matches;
use crate::resolver::resolution_target_matches;
use crate::runtime_config::RuntimeConfig;

verus! {

/// Where the engine as a whole stands.
#[derive(Clone, Copy, PartialEq, Eq, Debug, Structural)]
pub enum EnginePhase {
    /// The graph is planned and every sink resolved; surfaces are
    /// being opened.
    Opening,
    /// Every sink runs and the graph is flowing.
    Running,
    /// The one shutdown sequence is in progress.
    ShuttingDown,
    /// Everything is torn down; the outcome can be read.
    Stopped,
}

/// Why the engine refused to start.
#[derive(Clone, PartialEq, Eq, Debug)]
pub enum StartupError {
    /// The configuration is unsound; nothing was planned.
    Config(ConfigError),
    /// A sink's presentation mode cannot be satisfied; no surface was
    /// ever opened.
    Resolution(SinkResolutionFailure),
}

/// A fatal condition reported while the graph was flowing; re-raised
/// to the caller after teardown completes.
#[derive(Clone, PartialEq, Eq, Debug)]
pub enum RuntimeError {
    /// The backend failed while executing the plan.
    Build(BuildError),
    /// The media backend reported a fatal error mid-run.
    Backend { message: String },
}

/// One step of the shutdown sequence, for the embedding loop to
/// perform in order.
#[derive(Clone, Copy, PartialEq, Eq, Debug, Structural)]
pub enum ControlAction {
    /// Signal end-of-stream to the media backend.
    SignalEndOfStream,
    /// Stop the media backend's processing graph.
    StopPipeline,
    /// Close the surface of this sink — issued exactly once per sink.
    CloseSurface { sink_index: usize },
    /// Join the background control listener.
    JoinListener,
}

/// The engine: the declarative configuration, its planned graph, the
/// per-sink presentation lifecycle, the phase, and the failure to
/// re-raise once teardown completes.
#[derive(Debug)]
pub struct Runtime {
    pub config: RuntimeConfig,
    pub graph: Graph,
    pub presentation: PresentationLifecycleManager,
    pub phase: EnginePhase,
    pub failure: Option<RuntimeError>,
}

/// The engine's shape: the manager has one record per declared sink,
/// under the declared ids, and the graph realizes the configuration.
pub open spec fn runtime_wf(rt: Runtime) -> bool {
    &&& manager_wf(rt.presentation)
    &&& rt.presentation.sinks@.len() == rt.config.sinks@.len()
    &&& forall|k: int|
        0 <= k < rt.config.sinks@.len() ==> (#[trigger] rt.presentation.sinks@[k]).sink_id
            == rt.config.sinks@[k].id
    &&& graph_of_config(rt.config, rt.graph)
}

/// Every sink's mode can be satisfied by this inventory.
pub open spec fn all_sinks_resolvable(c: RuntimeConfig, inv: CapabilityInventory) -> bool {
    forall|k: int| 0 <= k < c.sinks@.len() ==> mode_resolvable(sink_mode(#[trigger] c.sinks@[k]), inv)
}

impl Runtime {
    /// Starts an engine: validates the configuration and plans the
    /// graph, then resolves every sink against the inventory.  Succeeds
    /// exactly when the configuration is valid and every sink's mode is
    /// resolvable; a resolution failure is reported before any surface
    /// is opened.  On success every sink stands in `Opening`.
    pub fn new(config: RuntimeConfig, inventory: &CapabilityInventory) -> (r: Result<
        Runtime,
        StartupError,
    >)
        requires
            inventory_wf(*inventory),
        ensures
            r is Ok <==> (config_valid(config) && all_sinks_resolvable(config, *inventory)),
            r matches Err(StartupError::Config(e)) ==> !config_valid(config)
                && config_error_witnessed(config, e),
            r matches Err(StartupError::Resolution(f)) ==> config_valid(config) && exists|k: int|
                {
                    &&& 0 <= k < config.sinks@.len()
                    &&& f.sink_id == (#[trigger] config.sinks@[k]).id
                    &&& !mode_resolvable(sink_mode(config.sinks@[k]), *inventory)
                    &&& resolution_error_matches(sink_mode(config.sinks@[k]), *inventory, f.error)
                },
            r matches Ok(rt) ==> {
                &&& runtime_wf(rt)
                &&& rt.config == config
                &&& rt.phase == EnginePhase::Opening
                &&& rt.failure is None
                &&& rt.presentation.windows@.len() == 0
                &&& forall|k: int|
                    0 <= k < config.sinks@.len() ==> (#[trigger] rt.presentation.states@[k])
                        == SinkState::Opening
                &&& forall|k: int|
                    0 <= k < config.sinks@.len() ==> ((
                    #[trigger] rt.presentation.sinks@[k]).resolved matches Some(p)
                        && resolution_target_matches(sink_mode(config.sinks@[k]), *inventory, p))
            },
    {
        let graph = match build(&config) {
            Ok(g) => g,
            Err(e) => {
                return Err(StartupError::Config(e));
            },
        };
        let mut presentation = PresentationLifecycleManager::new(&config.sinks);
        match presentation.resolve_all(&config.sinks, inventory) {
            Ok(()) => {},
            Err(f) => {
                return Err(StartupError::Resolution(f));
            },
        }
        Ok(
            Runtime {
                config,
                graph,
                presentation,
                phase: EnginePhase::Opening,
                failure: None,
            },
        )
    }

    /// Records that a surface was opened for this sink under this
    /// window, and that it reports ready: the sink begins running.
    pub fn surface_opened(&mut self, index: usize, window_id: u64)
        requires
            runtime_wf(*old(self)),
            old(self).phase == EnginePhase::Opening,
            index < old(self).presentation.sinks@.len(),
            old(self).presentation.states@[index as int] == SinkState::Opening,
        ensures
            runtime_wf(*final(self)),
            final(self).config == old(self).config,
            final(self).graph == old(self).graph,
            final(self).phase == old(self).phase,
            final(self).failure == old(self).failure,
            final(self).presentation.sinks@ == old(self).presentation.sinks@,
            final(self).presentation.states@ == old(self).presentation.states@.update(
                index as int,
                SinkState::Running,
            ),
            final(self).presentation.windows@ == old(self).presentation.windows@.push(
                (window_id, index),
            ),
    {
        self.presentation.register_window(index, window_id);
        self.presentation.surface_ready(index);
    }

    /// Whether every sink is running, so the graph may start flowing.
    pub fn ready_to_start(&self) -> (r: bool)
        requires
            runtime_wf(*self),
        ensures
            r == (forall|k: int|
                0 <= k < self.presentation.states@.len() ==> (
                #[trigger] self.presentation.states@[k]) == SinkState::Running),
    {
        self.presentation.all_running()
    }

    /// Marks the graph flowing.  Only an engine whose sinks all run may
    /// start: the ordering contract of startup.
    pub fn start(&mut self)
        requires
            runtime_wf(*old(self)),
            old(self).phase == EnginePhase::Opening,
            forall|k: int|
                0 <= k < old(self).presentation.states@.len() ==> (#[trigger] old(self).presentation.states@[k]) == SinkState::Running,
        ensures
            runtime_wf(*final(self)),
            final(self).phase == EnginePhase::Running,
            final(self).config == old(self).config,
            final(self).graph == old(self).graph,
            final(self).failure == old(self).failure,
            final(self).presentation.sinks@ == old(self).presentation.sinks@,
            final(self).presentation.states@ == old(self).presentation.states@,
            final(self).presentation.windows@ == old(self).presentation.windows@,
    {
        self.phase = EnginePhase::Running;
    }

    /// Performs the one shutdown sequence, if none has begun: signal
    /// end-of-stream, stop the pipeline, close each open surface
    /// exactly once, and join the listener.  Returns the actions the
    /// embedding loop must perform, in order.
    fn begin_shutdown(&mut self) -> (acts: Vec<ControlAction>)
        requires
            runtime_wf(*old(self)),
            old(self).phase == EnginePhase::Running,
        ensures
            runtime_wf(*final(self)),
            final(self).phase == EnginePhase::ShuttingDown,
            final(self).config == old(self).config,
            final(self).graph == old(self).graph,
            final(self).failure == old(self).failure,
            final(self).presentation.sinks@ == old(self).presentation.sinks@,
            final(self).presentation.windows@ == old(self).presentation.windows@,
            final(self).presentation.states@.len() == old(self).presentation.states@.len(),
            forall|k: int|
                0 <= k < old(self).presentation.states@.len() ==> final(self).presentation.states@[k] == close_step(
                    #[trigger] old(self).presentation.states@[k],
                ),
            acts@.len() == spec_close_targets(old(self).presentation.states@).len() + 3,
            acts@[0] == ControlAction::SignalEndOfStream,
            acts@[1] == ControlAction::StopPipeline,
            acts@[acts@.len() - 1] == ControlAction::JoinListener,
            forall|k: int|
                0 <= k < spec_close_targets(old(self).presentation.states@).len() ==> {
                    &&& (#[trigger] acts@[2 + k]) matches ControlAction::CloseSurface { sink_index }
                    &&& sink_index as int == spec_close_targets(old(self).presentation.states@)[k]
                },
    {
        let mut acts: Vec<ControlAction> = Vec::new();
        acts.push(ControlAction::SignalEndOfStream);
        acts.push(ControlAction::StopPipeline);
        let targets = self.presentation.close_all();
        let n = targets.len();
        let mut k: usize = 0;
        while k < n
            invariant
                0 <= k <= n,
                n == targets@.len(),
                targets@.map_values(|u: usize| u as int) == spec_close_targets(
                    old(self).presentation.states@,
                ),
                acts@.len() == 2 + k,
                acts@[0] == ControlAction::SignalEndOfStream,
                acts@[1] == ControlAction::StopPipeline,
                forall|a: int|
                    0 <= a < k ==> (#[trigger] acts@[2 + a]) == (ControlAction::CloseSurface {
                        sink_index: targets@[a],
                    }),
            decreases n - k,
        {
            acts.push(ControlAction::CloseSurface { sink_index: targets[k] });
            k = k + 1;
        }
        acts.push(ControlAction::JoinListener);
        self.phase = EnginePhase::ShuttingDown;
        proof {
            let targets_int = targets@.map_values(|u: usize| u as int);
            assert forall|a: int|
                0 <= a < targets_int.len() implies (#[trigger] acts@[2 + a]) matches
                ControlAction::CloseSurface { sink_index } && sink_index as int
                    == targets_int[a] by {
                assert(acts@[2 + a] == (ControlAction::CloseSurface { sink_index: targets@[a] }));
            }
        }
        acts
    }

    /// Handles a stop trigger — a user closing any window, or an
    /// explicit stop command.  The first trigger while the graph flows
    /// performs the one shutdown sequence; at any other time the
    /// trigger is ignored and nothing changes.
    pub fn handle_event(&mut self, event: &RuntimeEvent) -> (acts: Vec<ControlAction>)
        requires
            runtime_wf(*old(self)),
        ensures
            runtime_wf(*final(self)),
            final(self).config == old(self).config,
            final(self).graph == old(self).graph,
            final(self).failure == old(self).failure,
            final(self).presentation.sinks@ == old(self).presentation.sinks@,
            final(self).presentation.windows@ == old(self).presentation.windows@,
            old(self).phase != EnginePhase::Running ==> acts@.len() == 0 && *final(self) == *old(self),
            old(self).phase == EnginePhase::Running ==> {
                &&& final(self).phase == EnginePhase::ShuttingDown
                &&& final(self).presentation.states@.len() == old(self).presentation.states@.len()
                &&& forall|k: int|
                    0 <= k < old(self).presentation.states@.len() ==> final(self).presentation.states@[k] == close_step(
                        #[trigger] old(self).presentation.states@[k],
                    )
                &&& acts@.len() == spec_close_targets(old(self).presentation.states@).len() + 3
                &&& acts@[0] == ControlAction::SignalEndOfStream
                &&& acts@[1] == ControlAction::StopPipeline
                &&& acts@[acts@.len() - 1] == ControlAction::JoinListener
                &&& forall|k: int|
                    0 <= k < spec_close_targets(old(self).presentation.states@).len() ==> {
                        &&& (#[trigger] acts@[2 + k]) matches ControlAction::CloseSurface {
                            sink_index,
                        }
                        &&& sink_index as int == spec_close_targets(
                            old(self).presentation.states@,
                        )[k]
                    }
            },
    {
        let is_running = match self.phase {
            EnginePhase::Running => true,
            _ => false,
        };
        if is_running {
            match event {
                RuntimeEvent::UserExit() => self.begin_shutdown(),
                RuntimeEvent::StopThread() => self.begin_shutdown(),
            }
        } else {
            Vec::new()
        }
    }

    /// Handles a fatal error from the media backend: treated exactly
    /// like a stop trigger, except that the error is kept and re-raised
    /// to the caller once teardown completes.  Ignored, like any other
    /// trigger, once shutdown has begun.
    pub fn handle_backend_error(&mut self, message: String) -> (acts: Vec<ControlAction>)
        requires
            runtime_wf(*old(self)),
        ensures
            runtime_wf(*final(self)),
            final(self).config == old(self).config,
            final(self).graph == old(self).graph,
            final(self).presentation.sinks@ == old(self).presentation.sinks@,
            final(self).presentation.windows@ == old(self).presentation.windows@,
            old(self).phase != EnginePhase::Running ==> acts@.len() == 0 && *final(self) == *old(self),
            old(self).phase == EnginePhase::Running ==> {
                &&& final(self).phase == EnginePhase::ShuttingDown
                &&& (final(self).failure matches Some(RuntimeError::Backend { message: m })
                    && m@ == message@)
                &&& final(self).presentation.states@.len() == old(self).presentation.states@.len()
                &&& forall|k: int|
                    0 <= k < old(self).presentation.states@.len() ==> final(self).presentation.states@[k] == close_step(
                        #[trigger] old(self).presentation.states@[k],
                    )
                &&& acts@.len() == spec_close_targets(old(self).presentation.states@).len() + 3
                &&& acts@[0] == ControlAction::SignalEndOfStream
                &&& acts@[1] == ControlAction::StopPipeline
                &&& acts@[acts@.len() - 1] == ControlAction::JoinListener
                &&& forall|k: int|
                    0 <= k < spec_close_targets(old(self).presentation.states@).len() ==> {
                        &&& (#[trigger] acts@[2 + k]) matches ControlAction::CloseSurface {
                            sink_index,
                        }
                        &&& sink_index as int == spec_close_targets(
                            old(self).presentation.states@,
                        )[k]
                    }
            },
    {
        let is_running = match self.phase {
            EnginePhase::Running => true,
            _ => false,
        };
        if is_running {
            let acts = self.begin_shutdown();
            self.failure = Some(RuntimeError::Backend { message });
            acts
        } else {
            Vec::new()
        }
    }

    /// Records that a closing sink's surface was released.
    pub fn surface_released(&mut self, index: usize)
        requires
            runtime_wf(*old(self)),
            index < old(self).presentation.sinks@.len(),
            old(self).presentation.states@[index as int] == SinkState::Closing,
        ensures
            runtime_wf(*final(self)),
            final(self).config == old(self).config,
            final(self).graph == old(self).graph,
            final(self).phase == old(self).phase,
            final(self).failure == old(self).failure,
            final(self).presentation.sinks@ == old(self).presentation.sinks@,
            final(self).presentation.windows@ == old(self).presentation.windows@,
            final(self).presentation.states@ == old(self).presentation.states@.update(
                index as int,
                SinkState::Closed,
            ),
    {
        self.presentation.surface_released(index);
    }

    /// Whether teardown has run to completion: shutdown began and every
    /// sink is closed.
    pub fn teardown_complete(&self) -> (r: bool)
        requires
            runtime_wf(*self),
        ensures
            r == (self.phase == EnginePhase::ShuttingDown && (forall|k: int|
                0 <= k < self.presentation.states@.len() ==> (
                #[trigger] self.presentation.states@[k]) == SinkState::Closed)),
    {
        let shutting_down = match self.phase {
            EnginePhase::ShuttingDown => true,
            _ => false,
        };
        shutting_down && self.presentation.all_closed()
    }

    /// Ends the run: control returns to the caller.
    pub fn finish(&mut self)
        requires
            runtime_wf(*old(self)),
            old(self).phase == EnginePhase::ShuttingDown,
            forall|k: int|
                0 <= k < old(self).presentation.states@.len() ==> (#[trigger] old(self).presentation.states@[k]) == SinkState::Closed,
        ensures
            runtime_wf(*final(self)),
            final(self).phase == EnginePhase::Stopped,
            final(self).config == old(self).config,
            final(self).graph == old(self).graph,
            final(self).failure == old(self).failure,
            final(self).presentation.sinks@ == old(self).presentation.sinks@,
            final(self).presentation.states@ == old(self).presentation.states@,
            final(self).presentation.windows@ == old(self).presentation.windows@,
    {
        self.phase = EnginePhase::Stopped;
    }

    /// The outcome of a finished run: the backend failure to re-raise,
    /// or nothing after a clean stop.
    pub fn run_result(&self) -> (r: Option<&RuntimeError>)
        requires
            self.phase == EnginePhase::Stopped,
        ensures
            r is Some <==> self.failure is Some,
            r matches Some(e) ==> (self.failure matches Some(f) && *e == f),
    {
        self.failure.as_ref()
    }
}

} // verus!
