//! The presentation lifecycle manager: one record per sink, each
//! walking `Unopened → Resolving → Opening → Running → Closing →
//! Closed`.  Surfaces themselves belong to the windowing thread; this
//! module decides every transition, routes frames to the right sink,
//! and makes closing idempotent — a closed sink is never closed twice.

use vstd::prelude::*;
use crate::inventory::CapabilityInventory;
use crate::inventory::inventory_wf;
use crate::resolver::ResolutionError;
use crate::resolver::ResolvedPresentation;
use crate::resolver::mode_resolvable;
use crate::resolver::resolution_error_matches;
use crate::resolver::resolution_target_matches;
use crate::resolver::resolve;
use crate::sink::FullScreenMode;
use crate::sink::SinkConfig;
use crate::sink::SinkType;

verus! {

/// Where a sink stands in its life.
#[derive(Clone, Copy, PartialEq, Eq, Debug, Structural)]
pub enum SinkState {
    /// Declared, nothing resolved or opened yet.
    Unopened,
    /// Its requested mode is being validated.
    Resolving,
    /// Resolution succeeded; a surface is being opened for it.
    Opening,
    /// Its surface accepts frames.
    Running,
    /// Its surface was asked to close and has not yet reported back.
    Closing,
    /// Its surface and resources are released.
    Closed,
}

/// One sink's static record: its declared id and, once resolution
/// succeeded, its concrete presentation target.
#[derive(Clone, PartialEq, Eq, Debug)]
pub struct SinkRecord {
    /// The declared sink id this record belongs to.
    pub sink_id: u32,
    /// The concrete presentation target, once resolution succeeded.
    pub resolved: Option<ResolvedPresentation>,
}

/// The requested presentation mode of a declared sink.
pub open spec fn sink_mode(s: SinkConfig) -> FullScreenMode {
    match s.sink {
        SinkType::OpenGLWindow { full_screen } => full_screen,
    }
}

/// A sink in this state owns a surface that must be closed before the
/// engine may finish.
pub open spec fn needs_close(s: SinkState) -> bool {
    s is Opening || s is Running
}

/// The state a close request leaves a sink in: an open surface starts
/// closing, a sink that never opened one is closed outright, and a sink
/// already closing or closed is left alone.
pub open spec fn close_step(s: SinkState) -> SinkState {
    match s {
        SinkState::Opening => SinkState::Closing,
        SinkState::Running => SinkState::Closing,
        SinkState::Unopened => SinkState::Closed,
        SinkState::Resolving => SinkState::Closed,
        SinkState::Closing => SinkState::Closing,
        SinkState::Closed => SinkState::Closed,
    }
}

/// The sink indexes whose surfaces a close pass must close, in order.
pub open spec fn spec_close_targets(states: Seq<SinkState>) -> Seq<int>
    decreases states.len(),
{
    if states.len() == 0 {
        Seq::empty()
    } else if needs_close(states.last()) {
        spec_close_targets(states.drop_last()) + seq![states.len() - 1]
    } else {
        spec_close_targets(states.drop_last())
    }
}

/// Closing is idempotent: after one close pass no sink needs closing,
/// so a second pass has nothing to close — each surface's close is
/// issued exactly once however many stop triggers arrive.
pub proof fn lemma_shutdown_idempotent(states: Seq<SinkState>)
    requires
        forall|k: int| 0 <= k < states.len() ==> !needs_close(#[trigger] states[k]),
    ensures
        spec_close_targets(states) =~= Seq::<int>::empty(),
    decreases states.len(),
{
    if states.len() > 0 {
        assert(!needs_close(states[states.len() - 1]));
        lemma_shutdown_idempotent(states.drop_last());
    }
}

/// The lifecycle manager: per-sink records and states, in sink
/// declaration order, and the event-loop-owned table mapping a window
/// to the sink it presents.  Frames cross threads carrying the window
/// id; the table is consulted only here, so the hot frame path needs
/// no lock.
#[derive(Debug)]
pub struct PresentationLifecycleManager {
    /// One record per declared sink, in declaration order.
    pub sinks: Vec<SinkRecord>,
    /// The state of each sink, parallel to `sinks`.
    pub states: Vec<SinkState>,
    /// `(window id, sink index)` pairs, in registration order.
    pub windows: Vec<(u64, usize)>,
}

/// The manager's shape: one state per record.
pub open spec fn manager_wf(m: PresentationLifecycleManager) -> bool {
    m.states@.len() == m.sinks@.len()
}

/// A sink that failed to resolve, and why: startup treats this as
/// fatal rather than letting a misconfigured sink silently disappear.
#[derive(Clone, PartialEq, Eq, Debug)]
pub struct SinkResolutionFailure {
    pub sink_id: u32,
    pub error: ResolutionError,
}

impl PresentationLifecycleManager {
    /// One `Unopened` record per declared sink, no windows yet.
    pub fn new(sinks: &Vec<SinkConfig>) -> (r: PresentationLifecycleManager)
        ensures
            manager_wf(r),
            r.sinks@.len() == sinks@.len(),
            forall|k: int|
                0 <= k < sinks@.len() ==> (#[trigger] r.sinks@[k]).sink_id == sinks@[k].id
                    && r.sinks@[k].resolved is None,
            forall|k: int| 0 <= k < sinks@.len() ==> r.states@[k] == SinkState::Unopened,
            r.windows@.len() == 0,
    {
        let n = sinks.len();
        let mut records: Vec<SinkRecord> = Vec::new();
        let mut states: Vec<SinkState> = Vec::new();
        let mut i: usize = 0;
        while i < n
            invariant
                0 <= i <= n,
                n == sinks@.len(),
                records@.len() == i,
                states@.len() == i,
                forall|k: int|
                    0 <= k < i ==> (#[trigger] records@[k]).sink_id == sinks@[k].id
                        && records@[k].resolved is None,
                forall|k: int| 0 <= k < i ==> states@[k] == SinkState::Unopened,
            decreases n - i,
        {
            records.push(SinkRecord { sink_id: sinks[i].id, resolved: None });
            states.push(SinkState::Unopened);
            i = i + 1;
        }
        PresentationLifecycleManager { sinks: records, states, windows: Vec::new() }
    }

    /// Resolves every sink's requested mode, in order.  Each sink walks
    /// `Unopened → Resolving → Opening` on success; the first sink whose
    /// mode the inventory cannot satisfy goes directly to `Closed` and
    /// the pass stops there — fatal for startup — leaving later sinks
    /// `Unopened`.  Succeeds exactly when every mode is resolvable.
    pub fn resolve_all(&mut self, config: &Vec<SinkConfig>, inventory: &CapabilityInventory) -> (r:
        Result<(), SinkResolutionFailure>)
        requires
            inventory_wf(*inventory),
            manager_wf(*old(self)),
            old(self).sinks@.len() == config@.len(),
            forall|k: int|
                0 <= k < config@.len() ==> (#[trigger] old(self).sinks@[k]).sink_id
                    == config@[k].id,
            forall|k: int| 0 <= k < config@.len() ==> old(self).states@[k] == SinkState::Unopened,
        ensures
            manager_wf(*final(self)),
            final(self).sinks@.len() == config@.len(),
            final(self).windows@ == old(self).windows@,
            forall|k: int|
                0 <= k < config@.len() ==> (#[trigger] final(self).sinks@[k]).sink_id
                    == config@[k].id,
            r is Ok <==> (forall|k: int|
                0 <= k < config@.len() ==> mode_resolvable(
                    sink_mode(#[trigger] config@[k]),
                    *inventory,
                )),
            r is Ok ==> forall|k: int|
                0 <= k < config@.len() ==> (#[trigger] final(self).states@[k])
                    == SinkState::Opening,
            r is Ok ==> forall|k: int|
                0 <= k < config@.len() ==> ((#[trigger] final(self).sinks@[k]).resolved matches
                Some(p) && resolution_target_matches(sink_mode(config@[k]), *inventory, p)),
            r matches Err(f) ==> exists|k: int|
                {
                    &&& 0 <= k < config@.len()
                    &&& f.sink_id == (#[trigger] config@[k]).id
                    &&& !mode_resolvable(sink_mode(config@[k]), *inventory)
                    &&& resolution_error_matches(sink_mode(config@[k]), *inventory, f.error)
                    &&& final(self).states@[k] == SinkState::Closed
                    &&& forall|a: int|
                        0 <= a < k ==> (#[trigger] final(self).states@[a]) == SinkState::Opening
                    &&& forall|a: int|
                        k < a < config@.len() ==> (#[trigger] final(self).states@[a])
                            == SinkState::Unopened
                },
    {
        let n = config.len();
        let mut i: usize = 0;
        while i < n
            invariant
                0 <= i <= n,
                n == config@.len(),
                inventory_wf(*inventory),
                manager_wf(*self),
                self.sinks@.len() == n,
                self.windows@ == old(self).windows@,
                forall|k: int|
                    0 <= k < n ==> (#[trigger] self.sinks@[k]).sink_id == config@[k].id,
                forall|a: int| 0 <= a < i ==> (#[trigger] self.states@[a]) == SinkState::Opening,
                forall|a: int|
                    0 <= a < i ==> ((#[trigger] self.sinks@[a]).resolved matches Some(p)
                        && resolution_target_matches(sink_mode(config@[a]), *inventory, p)),
                forall|a: int|
                    0 <= a < i ==> mode_resolvable(sink_mode(#[trigger] config@[a]), *inventory),
                forall|a: int| i <= a < n ==> (#[trigger] self.states@[a]) == SinkState::Unopened,
            decreases n - i,
        {
            let mode = match &config[i].sink {
                SinkType::OpenGLWindow { full_screen } => full_screen,
            };
            self.states.set(i, SinkState::Resolving);
            match resolve(mode, inventory) {
                Ok(target) => {
                    let sink_id = config[i].id;
                    self.sinks.set(i, SinkRecord { sink_id, resolved: Some(target) });
                    self.states.set(i, SinkState::Opening);
                },
                Err(error) => {
                    self.states.set(i, SinkState::Closed);
                    let sink_id = config[i].id;
                    proof {
                        let k = i as int;
                        assert(sink_mode(config@[k]) == *mode);
                        assert((config@[k]).id == sink_id);
                        assert(self.states@[k] == SinkState::Closed);
                        assert(forall|a: int|
                            0 <= a < k ==> (#[trigger] self.states@[a]) == SinkState::Opening);
                        assert(forall|a: int|
                            k < a < config@.len() ==> (#[trigger] self.states@[a])
                                == SinkState::Unopened);
                    }
                    return Err(SinkResolutionFailure { sink_id, error });
                },
            }
            i = i + 1;
        }
        Ok(())
    }

    /// Records the window that presents this sink.
    pub fn register_window(&mut self, index: usize, window_id: u64)
        requires
            index < old(self).sinks@.len(),
        ensures
            final(self).sinks@ == old(self).sinks@,
            final(self).states@ == old(self).states@,
            final(self).windows@ == old(self).windows@.push((window_id, index)),
    {
        self.windows.push((window_id, index));
    }

    /// The sink presented by this window, if any: the first
    /// registration wins.
    pub fn sink_by_window(&self, window_id: u64) -> (r: Option<usize>)
        ensures
            match r {
                Some(ix) => exists|k: int|
                    {
                        &&& 0 <= k < self.windows@.len()
                        &&& (#[trigger] self.windows@[k]) == (window_id, ix)
                        &&& forall|a: int|
                            0 <= a < k ==> (#[trigger] self.windows@[a]).0 != window_id
                    },
                None => forall|k: int|
                    0 <= k < self.windows@.len() ==> (#[trigger] self.windows@[k]).0 != window_id,
            },
    {
        let n = self.windows.len();
        let mut k: usize = 0;
        while k < n
            invariant
                0 <= k <= n,
                n == self.windows@.len(),
                forall|a: int| 0 <= a < k ==> (#[trigger] self.windows@[a]).0 != window_id,
            decreases n - k,
        {
            let entry = self.windows[k];
            if entry.0 == window_id {
                proof {
                    assert(self.windows@[k as int] == (window_id, entry.1));
                }
                return Some(entry.1);
            }
            k = k + 1;
        }
        None
    }

    /// The surface of this sink reports ready: the sink begins
    /// accepting frames.
    pub fn surface_ready(&mut self, index: usize)
        requires
            manager_wf(*old(self)),
            index < old(self).sinks@.len(),
            old(self).states@[index as int] == SinkState::Opening,
        ensures
            manager_wf(*final(self)),
            final(self).sinks@ == old(self).sinks@,
            final(self).windows@ == old(self).windows@,
            final(self).states@ == old(self).states@.update(index as int, SinkState::Running),
    {
        self.states.set(index, SinkState::Running);
    }

    /// Whether a frame for this sink may be submitted to its surface.
    /// Frames for a sink that is not running are dropped — latest frame
    /// wins, no backpressure.
    pub fn accepts_frames(&self, index: usize) -> (r: bool)
        requires
            manager_wf(*self),
            index < self.sinks@.len(),
        ensures
            r == (self.states@[index as int] == SinkState::Running),
    {
        match self.states[index] {
            SinkState::Running => true,
            _ => false,
        }
    }

    /// Asks one sink to close.  Returns true exactly when a surface
    /// close must actually be performed; a sink already closing or
    /// closed is left alone — never a double close.
    pub fn request_close(&mut self, index: usize) -> (r: bool)
        requires
            manager_wf(*old(self)),
            index < old(self).sinks@.len(),
        ensures
            manager_wf(*final(self)),
            final(self).sinks@ == old(self).sinks@,
            final(self).windows@ == old(self).windows@,
            r == needs_close(old(self).states@[index as int]),
            final(self).states@ == old(self).states@.update(
                index as int,
                close_step(old(self).states@[index as int]),
            ),
    {
        let r = match self.states[index] {
            SinkState::Opening => {
                self.states.set(index, SinkState::Closing);
                true
            },
            SinkState::Running => {
                self.states.set(index, SinkState::Closing);
                true
            },
            SinkState::Unopened => {
                self.states.set(index, SinkState::Closed);
                false
            },
            SinkState::Resolving => {
                self.states.set(index, SinkState::Closed);
                false
            },
            SinkState::Closing => {
                self.states.set(index, SinkState::Closing);
                false
            },
            SinkState::Closed => {
                self.states.set(index, SinkState::Closed);
                false
            },
        };
        r
    }

    /// Asks every sink to close, in order.  Returns the indexes whose
    /// surfaces must actually be closed — each exactly once; afterwards
    /// no sink needs closing, so a second pass returns nothing.
    pub fn close_all(&mut self) -> (r: Vec<usize>)
        requires
            manager_wf(*old(self)),
        ensures
            manager_wf(*final(self)),
            final(self).sinks@ == old(self).sinks@,
            final(self).windows@ == old(self).windows@,
            r@.map_values(|u: usize| u as int) == spec_close_targets(old(self).states@),
            final(self).states@.len() == old(self).states@.len(),
            forall|k: int|
                0 <= k < old(self).states@.len() ==> final(self).states@[k] == close_step(
                    #[trigger] old(self).states@[k],
                ),
            forall|k: int|
                0 <= k < final(self).states@.len() ==> !needs_close(
                    #[trigger] final(self).states@[k],
                ),
    {
        let n = self.states.len();
        let mut targets: Vec<usize> = Vec::new();
        let mut i: usize = 0;
        while i < n
            invariant
                0 <= i <= n,
                n == old(self).states@.len(),
                manager_wf(*self),
                self.sinks@ == old(self).sinks@,
                self.windows@ == old(self).windows@,
                self.states@.len() == n,
                targets@.map_values(|u: usize| u as int) == spec_close_targets(
                    old(self).states@.subrange(0, i as int),
                ),
                forall|k: int|
                    0 <= k < i ==> self.states@[k] == close_step(#[trigger] old(self).states@[k]),
                forall|k: int| i <= k < n ==> self.states@[k] == old(self).states@[k],
            decreases n - i,
        {
            proof {
                assert(old(self).states@.subrange(0, i + 1).drop_last() =~= old(
                    self,
                ).states@.subrange(0, i as int));
                assert(old(self).states@.subrange(0, i + 1).last() == old(self).states@[i as int]);
            }
            let emitted = self.request_close(i);
            if emitted {
                targets.push(i);
            }
            proof {
                assert(targets@.map_values(|u: usize| u as int) =~= spec_close_targets(
                    old(self).states@.subrange(0, i + 1),
                ));
            }
            i = i + 1;
        }
        proof {
            assert(old(self).states@.subrange(0, n as int) =~= old(self).states@);
            assert forall|k: int|
                0 <= k < self.states@.len() implies !needs_close(
                #[trigger] self.states@[k],
            ) by {
                assert(self.states@[k] == close_step(old(self).states@[k]));
            }
        }
        targets
    }

    /// The surface of this sink reports released: the sink is closed
    /// for good.
    pub fn surface_released(&mut self, index: usize)
        requires
            manager_wf(*old(self)),
            index < old(self).sinks@.len(),
            old(self).states@[index as int] == SinkState::Closing,
        ensures
            manager_wf(*final(self)),
            final(self).sinks@ == old(self).sinks@,
            final(self).windows@ == old(self).windows@,
            final(self).states@ == old(self).states@.update(index as int, SinkState::Closed),
    {
        self.states.set(index, SinkState::Closed);
    }

    /// Whether every sink is running.
    pub fn all_running(&self) -> (r: bool)
        requires
            manager_wf(*self),
        ensures
            r == (forall|k: int|
                0 <= k < self.states@.len() ==> (#[trigger] self.states@[k])
                    == SinkState::Running),
    {
        let n = self.states.len();
        let mut i: usize = 0;
        while i < n
            invariant
                0 <= i <= n,
                n == self.states@.len(),
                forall|k: int| 0 <= k < i ==> (#[trigger] self.states@[k]) == SinkState::Running,
            decreases n - i,
        {
            let running = match self.states[i] {
                SinkState::Running => true,
                _ => false,
            };
            if !running {
                return false;
            }
            i = i + 1;
        }
        true
    }

    /// Whether every sink is closed.
    pub fn all_closed(&self) -> (r: bool)
        requires
            manager_wf(*self),
        ensures
            r == (forall|k: int|
                0 <= k < self.states@.len() ==> (#[trigger] self.states@[k]) == SinkState::Closed),
    {
        let n = self.states.len();
        let mut i: usize = 0;
        while i < n
            invariant
                0 <= i <= n,
                n == self.states@.len(),
                forall|k: int| 0 <= k < i ==> (#[trigger] self.states@[k]) == SinkState::Closed,
            decreases n - i,
        {
            let closed = match self.states[i] {
                SinkState::Closed => true,
                _ => false,
            };
            if !closed {
                return false;
            }
            i = i + 1;
        }
        true
    }
}

} // verus!
