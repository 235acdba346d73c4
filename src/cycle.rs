use vstd::prelude::*;

verus! {

/// Where a collection cycle stands.
#[derive(Clone, Copy, Debug, PartialEq, Eq, Structural)]
pub enum GcPhase {
    Idle,
    Preparing,
    Tracing,
    WeakRefRound,
    Releasing,
}

/// What the scheduler reports when a bucket of work has completed.
#[derive(Clone, Copy, Debug, PartialEq, Eq, Structural)]
pub enum GcEvent {
    /// A collection was requested and all mutators are stopped.
    Triggered,
    /// `prepare` has returned.
    Prepared,
    /// The transitive closure has drained.
    ClosureDrained,
    /// The weak-reference handler returned; `true` asks for another round.
    WeakRefsProcessed(bool),
    /// `release` has returned.
    Released,
}

/// What the scheduler is to run next.
#[derive(Clone, Copy, Debug, PartialEq, Eq, Structural)]
pub enum GcAction {
    /// Flip the regions' roles and rebind workers' copy destinations.
    Prepare,
    /// Scan the roots and expand the transitive closure from them.
    ScanRoots,
    /// Call the runtime's weak-reference handler.
    ProcessWeakRefs,
    /// Expand the closure from what the weak-reference handler kept alive.
    ExpandClosure,
    /// Reclaim the source regions.
    Release,
    /// Rebind the mutators' allocators and resume the mutators.
    ResumeMutators,
}

/// The life-cycle state of the collector: the phase, the weak-reference rounds
/// that asked for another closure in the current cycle, and how often the
/// current cycle has released.
#[derive(Clone, Copy, Debug, PartialEq, Eq, Structural)]
pub struct CycleState {
    pub phase: GcPhase,
    pub extra_rounds: u64,
    pub releases: u64,
}

impl CycleState {
    /// Release runs once per cycle, and only after all tracing of the cycle.
    pub open spec fn wf(self) -> bool {
        match self.phase {
            GcPhase::Idle => self.releases <= 1,
            GcPhase::Releasing => self.releases == 1,
            _ => self.releases == 0,
        }
    }
}

/// The state a collector starts in.
pub fn initial_cycle_state() -> (r: CycleState)
    ensures
        r == (CycleState { phase: GcPhase::Idle, extra_rounds: 0, releases: 0 }),
        r.wf(),
{
    CycleState { phase: GcPhase::Idle, extra_rounds: 0, releases: 0 }
}

/// The next state and action after `event`, or `None` where the event does
/// not belong to the current phase.
pub open spec fn step_spec(s: CycleState, event: GcEvent) -> Option<(CycleState, GcAction)> {
    match (s.phase, event) {
        (GcPhase::Idle, GcEvent::Triggered) => Some(
            (
                CycleState { phase: GcPhase::Preparing, extra_rounds: 0, releases: 0 },
                GcAction::Prepare,
            ),
        ),
        (GcPhase::Preparing, GcEvent::Prepared) => Some(
            (CycleState { phase: GcPhase::Tracing, ..s }, GcAction::ScanRoots),
        ),
        (GcPhase::Tracing, GcEvent::ClosureDrained) => Some(
            (CycleState { phase: GcPhase::WeakRefRound, ..s }, GcAction::ProcessWeakRefs),
        ),
        (GcPhase::WeakRefRound, GcEvent::WeakRefsProcessed(true)) => Some(
            (
                CycleState {
                    phase: GcPhase::Tracing,
                    extra_rounds: (s.extra_rounds + 1) as u64,
                    ..s
                },
                GcAction::ExpandClosure,
            ),
        ),
        (GcPhase::WeakRefRound, GcEvent::WeakRefsProcessed(false)) => Some(
            (
                CycleState { phase: GcPhase::Releasing, releases: (s.releases + 1) as u64, ..s },
                GcAction::Release,
            ),
        ),
        (GcPhase::Releasing, GcEvent::Released) => Some(
            (CycleState { phase: GcPhase::Idle, ..s }, GcAction::ResumeMutators),
        ),
        _ => None,
    }
}

/// Advances the cycle on one event from the scheduler.
pub fn step(s: CycleState, event: GcEvent) -> (r: Option<(CycleState, GcAction)>)
    requires
        s.wf(),
        s.extra_rounds < u64::MAX,
    ensures
        r == step_spec(s, event),
        r matches Some((n, _)) ==> n.wf(),
{
    match (s.phase, event) {
        (GcPhase::Idle, GcEvent::Triggered) => Some(
            (
                CycleState { phase: GcPhase::Preparing, extra_rounds: 0, releases: 0 },
                GcAction::Prepare,
            ),
        ),
        (GcPhase::Preparing, GcEvent::Prepared) => Some(
            (CycleState { phase: GcPhase::Tracing, ..s }, GcAction::ScanRoots),
        ),
        (GcPhase::Tracing, GcEvent::ClosureDrained) => Some(
            (CycleState { phase: GcPhase::WeakRefRound, ..s }, GcAction::ProcessWeakRefs),
        ),
        (GcPhase::WeakRefRound, GcEvent::WeakRefsProcessed(again)) => {
            if again {
                Some(
                    (
                        CycleState { phase: GcPhase::Tracing, extra_rounds: s.extra_rounds + 1, ..s },
                        GcAction::ExpandClosure,
                    ),
                )
            } else {
                Some(
                    (
                        CycleState { phase: GcPhase::Releasing, releases: s.releases + 1, ..s },
                        GcAction::Release,
                    ),
                )
            }
        },
        (GcPhase::Releasing, GcEvent::Released) => Some(
            (CycleState { phase: GcPhase::Idle, ..s }, GcAction::ResumeMutators),
        ),
        _ => None,
    }
}

/// Release is only ever asked for when the weak-reference handler declined
/// another round, that is after all tracing of the cycle, and at most once
/// per cycle: a second request in the same cycle is refused.
pub proof fn lemma_release_once(s: CycleState, event: GcEvent)
    requires
        s.wf(),
        step_spec(s, event) matches Some((_, a)) && a == GcAction::Release,
    ensures
        s.phase == GcPhase::WeakRefRound,
        event == GcEvent::WeakRefsProcessed(false),
        s.releases == 0,
        step_spec(s, event).unwrap().0.releases == 1,
        step_spec(step_spec(s, event).unwrap().0, event) is None,
{
}

/// A handler that asks for another round sends the cycle back to tracing, one
/// more extra round, and release does not come before the closure drains again.
pub proof fn lemma_weak_round_expands(s: CycleState)
    requires
        s.wf(),
        s.phase == GcPhase::WeakRefRound,
    ensures
        step_spec(s, GcEvent::WeakRefsProcessed(true)) == Some(
            (
                CycleState { phase: GcPhase::Tracing, extra_rounds: (s.extra_rounds + 1) as u64, ..s },
                GcAction::ExpandClosure,
            ),
        ),
        step_spec(s, GcEvent::WeakRefsProcessed(true)).unwrap().0.releases == 0,
{
}

} // verus!
