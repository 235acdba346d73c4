use vstd::prelude::*;

use crate::copyspace::CopySemantics;

verus! {

/// What the runtime hands a plan at startup: where its regions begin, the size
/// of each, and the heap budget in pages.
#[derive(Clone, Copy, Debug, PartialEq, Eq, Structural)]
pub struct CreateGeneralPlanArgs {
    pub heap_start: u64,
    pub space_bytes: u64,
    pub heap_pages: u64,
}

/// What a plan declares of itself to the scheduler and the runtime.
#[derive(Clone, Copy, Debug, PartialEq, Eq, Structural)]
pub struct PlanConstraints {
    pub moves_objects: bool,
    pub needs_forward_after_liveness: bool,
    pub may_trace_duplicate_edges: bool,
}

/// The kinds of allocation a mutator asks for.
#[derive(Clone, Copy, Debug, PartialEq, Eq, Structural)]
pub enum AllocationSemantics {
    Default,
    Immortal,
    Los,
    Code,
    ReadOnly,
    LargeCode,
    NonMoving,
}

/// Which of a mutator's allocators serves an allocation.
#[derive(Clone, Copy, Debug, PartialEq, Eq, Structural)]
pub enum AllocatorSelector {
    BumpPointer(u8),
    LargeObject(u8),
    Malloc(u8),
    Immix(u8),
    MarkCompact(u8),
    FreeList(u8),
    Unmapped,
}

/// Which of a worker's copy contexts serves a copy semantics.
#[derive(Clone, Copy, Debug, PartialEq, Eq, Structural)]
pub enum CopySelector {
    CopySpace(u8),
    Unused,
}

/// Names the regions of a copying plan.
#[derive(Clone, Copy, Debug, PartialEq, Eq, Structural)]
pub enum SpaceId {
    CopySpace0,
    CopySpace1,
    Eden,
}

/// The copy configuration handed to generic copy work: each copy semantics with
/// its copy context, each copy context with the region it copies into.
pub struct CopyConfig {
    pub copy_mapping: Vec<(CopySemantics, CopySelector)>,
    pub space_mapping: Vec<(CopySelector, SpaceId)>,
    pub constraints: PlanConstraints,
}

/// How a kind of root or edge work is processed.
#[derive(Clone, Copy, Debug, PartialEq, Eq, Structural)]
pub enum ProcessEdgesKind {
    /// Each edge is traced through the region that holds its object.
    Sft,
    /// The plan does not take this kind of work.
    Unsupported,
}

/// Binds a plan to the kinds of edge processing its closure work uses.
pub trait GCWorkContext {
    type PlanType;

    /// Processing of ordinary (movable) root and edge work.
    fn default_process_edges() -> ProcessEdgesKind;

    /// Processing of pinning root work.
    fn pinning_process_edges() -> ProcessEdgesKind;
}

/// A collector worker's cached copy destination: the region its copy
/// context bump-allocates copies into.
#[derive(Clone, Copy, Debug, PartialEq, Eq, Structural)]
pub struct GCWorker {
    pub ordinal: u64,
    pub copy_destination: Option<SpaceId>,
}

impl GCWorker {
    pub fn new(ordinal: u64) -> (r: GCWorker)
        ensures
            r == (GCWorker { ordinal, copy_destination: None }),
    {
        GCWorker { ordinal, copy_destination: None }
    }

    /// Points the worker's copy context at `space`.
    pub fn rebind(&mut self, space: SpaceId)
        ensures
            *final(self) == (GCWorker { copy_destination: Some(space), ..*old(self) }),
    {
        self.copy_destination = Some(space);
    }
}

/// The constraints of a copying plan: it moves objects, in one pass.
pub fn copying_constraints() -> (r: PlanConstraints)
    ensures
        r == (PlanConstraints {
            moves_objects: true,
            needs_forward_after_liveness: false,
            may_trace_duplicate_edges: false,
        }),
{
    PlanConstraints {
        moves_objects: true,
        needs_forward_after_liveness: false,
        may_trace_duplicate_edges: false,
    }
}

/// The allocator a copying plan's mutators use for each allocation kind:
/// default allocation goes to the first bump allocator, no other kind is served.
pub open spec fn copying_allocator_spec(semantics: AllocationSemantics) -> AllocatorSelector {
    match semantics {
        AllocationSemantics::Default => AllocatorSelector::BumpPointer(0),
        _ => AllocatorSelector::Unmapped,
    }
}

pub fn copying_allocator(semantics: AllocationSemantics) -> (r: AllocatorSelector)
    ensures
        r == copying_allocator_spec(semantics),
{
    match semantics {
        AllocationSemantics::Default => AllocatorSelector::BumpPointer(0),
        _ => AllocatorSelector::Unmapped,
    }
}

/// Every copy semantics with its copy context: default copies go to the first
/// copy context, the others are unused.
pub open spec fn copying_copy_mapping() -> Seq<(CopySemantics, CopySelector)> {
    seq![
        (CopySemantics::DefaultCopy, CopySelector::CopySpace(0)),
        (CopySemantics::Nursery, CopySelector::Unused),
        (CopySemantics::PromoteToMature, CopySelector::Unused),
        (CopySemantics::Mature, CopySelector::Unused),
    ]
}

/// The copy configuration of a plan whose copies all go to `destination`.
pub fn copy_config_to(destination: SpaceId) -> (r: CopyConfig)
    ensures
        r.copy_mapping@ == copying_copy_mapping(),
        r.space_mapping@ == seq![(CopySelector::CopySpace(0), destination)],
        r.constraints.moves_objects,
        !r.constraints.needs_forward_after_liveness,
{
    let r = CopyConfig {
        copy_mapping: vec![
            (CopySemantics::DefaultCopy, CopySelector::CopySpace(0)),
            (CopySemantics::Nursery, CopySelector::Unused),
            (CopySemantics::PromoteToMature, CopySelector::Unused),
            (CopySemantics::Mature, CopySelector::Unused),
        ],
        space_mapping: vec![(CopySelector::CopySpace(0), destination)],
        constraints: copying_constraints(),
    };
    assert(r.copy_mapping@ =~= copying_copy_mapping());
    assert(r.space_mapping@ =~= seq![(CopySelector::CopySpace(0), destination)]);
    r
}

} // verus!
