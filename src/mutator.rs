use vstd::prelude::*;

use crate::plan::{copying_allocator, copying_allocator_spec, AllocationSemantics, AllocatorSelector, SpaceId};
use crate::triplespace::TripleSpace;
use crate::util::ObjectReference;

verus! {

/// Identifies a mutator thread to the runtime.
#[derive(Clone, Copy, Debug, PartialEq, Eq, Structural)]
pub struct VMMutatorThread(pub u64);

/// Identifies a collector thread to the runtime.
#[derive(Clone, Copy, Debug, PartialEq, Eq, Structural)]
pub struct VMWorkerThread(pub u64);

/// A bump allocator's cached handle: the region it allocates into.
#[derive(Clone, Copy, Debug, PartialEq, Eq, Structural)]
pub struct BumpAllocator {
    pub space: SpaceId,
}

impl BumpAllocator {
    /// Points the allocator at another region.
    pub fn rebind(&mut self, space: SpaceId)
        ensures
            final(self).space == space,
    {
        self.space = space;
    }
}

/// Per-thread allocation state of a mutator.
pub struct Mutator {
    pub mutator_tls: VMMutatorThread,
    /// The bump allocator that serves `BumpPointer(0)`.
    pub bump_pointer: BumpAllocator,
    /// Which region each allocator was bound to when the mutator was made.
    pub space_mapping: Vec<(AllocatorSelector, SpaceId)>,
}

/// A mutator of the three-region plan: its bump allocator allocates in eden.
pub fn create_triplespace_mutator(mutator_tls: VMMutatorThread, plan: &TripleSpace) -> (r: Mutator)
    ensures
        r.mutator_tls == mutator_tls,
        r.bump_pointer.space == SpaceId::Eden,
        r.space_mapping@ == seq![(AllocatorSelector::BumpPointer(0), SpaceId::Eden)],
{
    let mut space_mapping: Vec<(AllocatorSelector, SpaceId)> = Vec::new();
    space_mapping.push((AllocatorSelector::BumpPointer(0), SpaceId::Eden));
    assert(space_mapping@ =~= seq![(AllocatorSelector::BumpPointer(0), SpaceId::Eden)]);
    Mutator {
        mutator_tls,
        bump_pointer: BumpAllocator { space: SpaceId::Eden },
        space_mapping,
    }
}

/// Nothing to do for a mutator of the three-region plan before a cycle.
pub fn triplespace_mutator_prepare(mutator: &mut Mutator, tls: VMWorkerThread)
    ensures
        final(mutator).mutator_tls == old(mutator).mutator_tls,
        final(mutator).bump_pointer == old(mutator).bump_pointer,
        final(mutator).space_mapping@ == old(mutator).space_mapping@,
{
}

/// After a cycle the mutator's bump allocator is bound to eden again, before
/// the mutator resumes allocating.
pub fn triplespace_mutator_release(mutator: &mut Mutator, tls: VMWorkerThread)
    ensures
        final(mutator).mutator_tls == old(mutator).mutator_tls,
        final(mutator).bump_pointer.space == SpaceId::Eden,
        final(mutator).space_mapping@ == old(mutator).space_mapping@,
{
    mutator.bump_pointer.rebind(SpaceId::Eden);
}

/// Allocates for a mutator of the three-region plan: default allocation goes
/// through the bump allocator into the region it is bound to; no other kind of
/// allocation is served.
pub fn triplespace_alloc(
    mutator: &Mutator,
    plan: &mut TripleSpace,
    bytes: u64,
    semantics: AllocationSemantics,
) -> (r: Option<ObjectReference>)
    requires
        old(plan)@.wf(),
        bytes > 0,
    ensures
        final(plan)@.wf(),
        copying_allocator_spec(semantics) != AllocatorSelector::BumpPointer(0) ==> r is None
            && final(plan)@ == old(plan)@,
        copying_allocator_spec(semantics) == AllocatorSelector::BumpPointer(0) ==> ({
            let s = old(plan)@.space(mutator.bump_pointer.space);
            &&& bytes <= s.room() ==> r == Some(ObjectReference { addr: s.cursor as u64 })
                && final(plan)@ == old(plan)@.with_space(mutator.bump_pointer.space, s.allocated(bytes))
            &&& bytes > s.room() ==> r is None && final(plan)@ == old(plan)@
        }),
{
    match copying_allocator(semantics) {
        AllocatorSelector::BumpPointer(0) => plan.allocate_in(mutator.bump_pointer.space, bytes),
        _ => None,
    }
}

} // verus!
