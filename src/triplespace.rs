use vstd::prelude::*;

use crate::copyspace::{lemma_starts_distinct, starts, CopySemantics, CopySpace, SpaceModel};
use crate::tracer::CopyingPlan;
use crate::plan::{
    copy_config_to, copying_allocator, copying_allocator_spec, copying_constraints,
    AllocationSemantics, AllocatorSelector, CopyConfig, GCWorkContext, ProcessEdgesKind, CopySelector, CreateGeneralPlanArgs,
    GCWorker, PlanConstraints, SpaceId,
};
use crate::trace::{
    apart, copy_object, extends, forwarding_grows, forwarding_of, forwards_into, lemma_allocated_keeps,
    lemma_apart_holds,
    lemma_extends_holds, lemma_extends_trans, lemma_forwards_into_extends, lemma_holds_kept,
    lemma_traced_forwards, slot_names, trace_slots, traced,
};
use crate::util::{lemma_pages_bound, ObjectReference};

verus! {

/// The abstract state of a plan with two regions that swap roles and a nursery
/// that is evacuated every cycle.
pub struct TripleSpaceModel {
    pub hi: bool,
    pub space0: SpaceModel,
    pub space1: SpaceModel,
    pub eden: SpaceModel,
    pub heap_pages: int,
}

impl TripleSpaceModel {
    /// All three regions are sound and their address ranges do not meet.
    pub open spec fn wf(self) -> bool {
        &&& self.space0.wf()
        &&& self.space1.wf()
        &&& self.eden.wf()
        &&& self.space0.limit <= self.space1.start
        &&& self.space1.limit <= self.eden.start
    }

    /// Ready to trace: the destination has forwarded nothing, and every
    /// forwarding of eden and of the source names an object of the destination.
    pub open spec fn tracing_wf(self) -> bool {
        &&& self.wf()
        &&& evacuates_into(self.eden, self.from(), self.to())
    }

    /// Between cycles: ready to trace, and neither eden nor the source has
    /// forwarded anything.
    pub open spec fn idle_wf(self) -> bool {
        &&& self.tracing_wf()
        &&& self.from().unforwarded()
        &&& self.eden.unforwarded()
    }

    pub open spec fn to(self) -> SpaceModel {
        if self.hi { self.space1 } else { self.space0 }
    }

    pub open spec fn from(self) -> SpaceModel {
        if self.hi { self.space0 } else { self.space1 }
    }

    pub open spec fn to_id(self) -> SpaceId {
        if self.hi { SpaceId::CopySpace1 } else { SpaceId::CopySpace0 }
    }

    pub open spec fn is_destination(self, id: SpaceId) -> bool {
        id == self.to_id()
    }

    /// The region named `id`.
    pub open spec fn space(self, id: SpaceId) -> SpaceModel {
        match id {
            SpaceId::CopySpace0 => self.space0,
            SpaceId::CopySpace1 => self.space1,
            SpaceId::Eden => self.eden,
        }
    }

    /// The plan with the region named `id` replaced by `s`.
    pub open spec fn with_space(self, id: SpaceId, s: SpaceModel) -> TripleSpaceModel {
        match id {
            SpaceId::CopySpace0 => TripleSpaceModel { space0: s, ..self },
            SpaceId::CopySpace1 => TripleSpaceModel { space1: s, ..self },
            SpaceId::Eden => TripleSpaceModel { eden: s, ..self },
        }
    }

    /// The plan with `to` and `from` standing for the destination and source.
    pub open spec fn with_spaces(self, to: SpaceModel, from: SpaceModel) -> TripleSpaceModel {
        if self.hi {
            TripleSpaceModel { space1: to, space0: from, ..self }
        } else {
            TripleSpaceModel { space0: to, space1: from, ..self }
        }
    }

    /// After `prepare`: the two banks swap roles as in the two-region plan, and
    /// eden is a source whatever the flag says.
    pub open spec fn prepared(self) -> TripleSpaceModel {
        let flipped = TripleSpaceModel {
            hi: !self.hi,
            eden: SpaceModel {
                from_space: true,
                copy_for_sft_trace: Some(CopySemantics::DefaultCopy),
                ..self.eden
            },
            ..self
        };
        flipped.with_spaces(
            SpaceModel { from_space: false, copy_for_sft_trace: None, ..self.from() },
            SpaceModel {
                from_space: true,
                copy_for_sft_trace: Some(CopySemantics::DefaultCopy),
                ..self.to()
            },
        )
    }

    /// After `release`: the source and eden are emptied.
    pub open spec fn released(self) -> TripleSpaceModel {
        TripleSpaceModel { eden: self.eden.emptied(), ..self.with_spaces(self.to(), self.from().emptied()) }
    }

    pub open spec fn used_pages(self) -> int {
        self.to().reserved_pages() + self.from().reserved_pages() + self.eden.reserved_pages()
    }

    pub open spec fn collection_reserved_pages(self) -> int {
        self.to().reserved_pages()
    }

    /// One trace of `object`: an object of eden is evacuated from eden, any
    /// other from the source bank.
    pub open spec fn traced(self, object: ObjectReference) -> (TripleSpaceModel, Option<ObjectReference>) {
        if self.eden.holds(object.addr) {
            let t = traced(self.eden, self.to(), object);
            (TripleSpaceModel { eden: t.0, ..self.with_spaces(t.1, self.from()) }, t.2)
        } else {
            let t = traced(self.from(), self.to(), object);
            (self.with_spaces(t.1, t.0), t.2)
        }
    }
}

/// Each `prepare` flips both banks, and eden is a source in every cycle.
pub proof fn lemma_triplespace_roles_alternate(m: TripleSpaceModel)
    ensures
        m.prepared().is_destination(SpaceId::CopySpace0) == !m.is_destination(SpaceId::CopySpace0),
        m.prepared().is_destination(SpaceId::CopySpace1) == !m.is_destination(SpaceId::CopySpace1),
        m.prepared().space0.from_space == !m.prepared().prepared().space0.from_space,
        m.prepared().space1.from_space == !m.prepared().prepared().space1.from_space,
        m.prepared().eden.from_space,
        !m.prepared().is_destination(SpaceId::Eden),
        m.prepared().to().start == m.from().start,
        m.prepared().from().start == m.to().start,
{
}

/// Releasing lowers the used pages by what the source and eden held, and
/// leaves eden with no pages.
pub proof fn lemma_triplespace_release_reclaims(m: TripleSpaceModel)
    requires
        m.wf(),
    ensures
        m.released().used_pages() == m.used_pages() - m.from().reserved_pages()
            - m.eden.reserved_pages(),
        m.released().eden.reserved_pages() == 0,
        m.from().reserved_pages() + m.eden.reserved_pages() > 0 ==> m.released().used_pages()
            < m.used_pages(),
{
}

/// Tracing a reference a second time, right after it was traced, returns the
/// same address and leaves the plan as it is.
pub proof fn lemma_triplespace_trace_idempotent(m: TripleSpaceModel, object: ObjectReference)
    requires
        m.wf(),
        m.traced(object).1 is Some,
    ensures
        m.traced(object).0.traced(object) == m.traced(object),
{
    if m.eden.holds(object.addr) {
        crate::trace::lemma_trace_idempotent(m.eden, m.to(), object);
        crate::trace::lemma_traced_forwards(m.eden, m.to(), object);
        let t = traced(m.eden, m.to(), object);
        crate::trace::lemma_holds_kept(m.eden, t.0, object.addr);
    } else {
        crate::trace::lemma_trace_idempotent(m.from(), m.to(), object);
    }
}

/// The destination has forwarded nothing, and every forwarding of eden and
/// of the source names an object of the destination.
pub open spec fn evacuates_into(eden: SpaceModel, from: SpaceModel, to: SpaceModel) -> bool {
    &&& to.unforwarded()
    &&& forwards_into(eden, to)
    &&& forwards_into(from, to)
}

/// Traces root slots out of eden and then out of the source bank.
fn trace_roots_through(
    eden: &mut CopySpace,
    from: &mut CopySpace,
    to: &mut CopySpace,
    slots: &mut Vec<ObjectReference>,
) -> (r: bool)
    requires
        old(eden)@.wf(),
        old(from)@.wf(),
        old(to)@.wf(),
        apart(old(eden)@, old(from)@),
        apart(old(eden)@, old(to)@),
        apart(old(from)@, old(to)@),
    ensures
        final(eden)@.wf(),
        final(from)@.wf(),
        final(to)@.wf(),
        extends(old(to)@, final(to)@),
        forwarding_grows(old(eden)@, final(eden)@),
        forwarding_grows(old(from)@, final(from)@),
        final(slots)@.len() == old(slots)@.len(),
        evacuates_into(old(eden)@, old(from)@, old(to)@) ==> evacuates_into(
            final(eden)@,
            final(from)@,
            final(to)@,
        ),
        r ==> forall|i: int|
            0 <= i < old(slots)@.len() ==> (#[trigger] forwarding_of(final(eden)@, old(slots)@[i])
                matches Some(m) && forwarding_of(final(from)@, m) == Some(final(slots)@[i])),
        r ==> forall|i: int, j: int|
            0 <= i < old(slots)@.len() && 0 <= j < old(slots)@.len() && old(slots)@[i]
                == old(slots)@[j] ==> #[trigger] final(slots)@[i] == #[trigger] final(slots)@[j],
        r && evacuates_into(old(eden)@, old(from)@, old(to)@) ==> forall|i: int|
            0 <= i < old(slots)@.len() ==> if old(eden)@.holds((#[trigger] old(slots)@[i]).addr)
                || old(from)@.holds(old(slots)@[i].addr) {
                final(to)@.holds(final(slots)@[i].addr)
            } else {
                final(slots)@[i] == old(slots)@[i]
            },
        r ==> forall|j: int|
            old(to)@.objects.len() <= j < final(to)@.objects.len() ==> #[trigger] slot_names(
                final(slots)@,
                final(slots)@.len() as int,
                final(to)@,
                j,
            ),
        !r ==> exists|i: int|
            0 <= i < old(slots)@.len() && match #[trigger] forwarding_of(final(eden)@, old(slots)@[i]) {
                None => final(eden)@.objects[final(eden)@.index_of(old(slots)@[i].addr)].bytes
                    > final(to)@.room(),
                Some(m) => forwarding_of(final(from)@, m) is None
                    && final(from)@.objects[final(from)@.index_of(m.addr)].bytes
                    > final(to)@.room(),
            },
{
    let ghost slots0 = slots@;
    let ghost eden0 = eden@;
    let ghost from0 = from@;
    let ghost to0 = to@;
    if !trace_slots(eden, to, slots) {
        proof {
            if evacuates_into(eden0, from0, to0) {
                lemma_forwards_into_extends(from0, to0, to@);
            }
        }
        return false;
    }
    let ghost slots1 = slots@;
    let ghost eden1 = eden@;
    let ghost to1 = to@;
    let ok = trace_slots(from, to, slots);
    proof {
        lemma_extends_trans(to0, to1, to@);
        if evacuates_into(eden0, from0, to0) {
            lemma_forwards_into_extends(from0, to0, to1);
            lemma_forwards_into_extends(eden1, to1, to@);
        }
        if !ok {
            let k = choose|k: int|
                0 <= k < slots1.len() && forwarding_of(from@, #[trigger] slots1[k]) is None
                    && from@.objects[from@.index_of(slots1[k].addr)].bytes > to@.room();
            assert(forwarding_of(eden1, slots0[k]) == Some(slots1[k]));
        }
        if ok {
            assert forall|i: int| 0 <= i < slots0.len() implies (#[trigger] forwarding_of(eden@, slots0[i])
                matches Some(m) && forwarding_of(from@, m) == Some(slots@[i])) by {
                assert(forwarding_of(eden1, slots0[i]) == Some(slots1[i]));
                assert(forwarding_of(from@, slots1[i]) == Some(slots@[i]));
            }
            assert forall|i: int, j: int|
                0 <= i < slots0.len() && 0 <= j < slots0.len() && slots0[i] == slots0[j] implies #[trigger] slots@[i]
                == #[trigger] slots@[j] by {
                assert(slots1[i] == slots1[j]);
            }
            assert forall|j: int| to0.objects.len() <= j < to@.objects.len() implies #[trigger] slot_names(
                slots@,
                slots@.len() as int,
                to@,
                j,
            ) by {
                if j < to1.objects.len() {
                    assert(slot_names(slots1, slots1.len() as int, to1, j));
                    let k = choose|k: int|
                        0 <= k < slots1.len() && (#[trigger] slots1[k]).addr == to1.objects[j].start;
                    assert(to1.objects[j].start == slots1[k].addr);
                    assert(to1.holds(slots1[k].addr));
                    lemma_apart_holds(to1, from0, slots1[k].addr);
                    lemma_holds_kept(from0, from@, slots1[k].addr);
                    assert(forwarding_of(from@, slots1[k]) == Some(slots@[k]));
                    assert(to@.objects[j] == to1.objects[j]);
                    assert(slots@[k].addr == to@.objects[j].start);
                } else {
                    assert(slot_names(slots@, slots@.len() as int, to@, j));
                }
            }
            if evacuates_into(eden0, from0, to0) {
                assert forall|i: int| 0 <= i < slots0.len() implies if eden0.holds(
                    (#[trigger] slots0[i]).addr,
                ) || from0.holds(slots0[i].addr) {
                    to@.holds(slots@[i].addr)
                } else {
                    slots@[i] == slots0[i]
                } by {
                    let o = slots0[i];
                    assert(forwarding_of(eden1, o) == Some(slots1[i]));
                    assert(forwarding_of(from@, slots1[i]) == Some(slots@[i]));
                    lemma_holds_kept(eden0, eden1, o.addr);
                    if eden0.holds(o.addr) {
                        assert(eden1.objects[eden1.index_of(o.addr)].forwarded == Some(slots1[i]));
                        assert(to1.holds(slots1[i].addr));
                        lemma_apart_holds(to1, from0, slots1[i].addr);
                        lemma_holds_kept(from0, from@, slots1[i].addr);
                        lemma_extends_holds(to1, to@, slots1[i].addr);
                    } else if from0.holds(o.addr) {
                        lemma_apart_holds(from0, eden0, o.addr);
                        lemma_holds_kept(from0, from@, o.addr);
                        assert(from@.objects[from@.index_of(o.addr)].forwarded == Some(slots@[i]));
                    } else {
                        lemma_holds_kept(from0, from@, o.addr);
                    }
                }
            }
        }
    }
    ok
}

/// A copying plan with two banks that swap roles every cycle and an eden
/// that every cycle evacuates.
pub struct TripleSpace {
    hi: bool,
    copy_space0: CopySpace,
    copy_space1: CopySpace,
    eden_space: CopySpace,
    heap_pages: u64,
}

impl View for TripleSpace {
    type V = TripleSpaceModel;

    closed spec fn view(&self) -> TripleSpaceModel {
        TripleSpaceModel {
            hi: self.hi,
            space0: self.copy_space0@,
            space1: self.copy_space1@,
            eden: self.eden_space@,
            heap_pages: self.heap_pages as int,
        }
    }
}

impl TripleSpace {
    /// Three empty regions side by side from `heap_start`: the two banks, the
    /// first of which is the destination, then eden.
    pub fn new(args: CreateGeneralPlanArgs) -> (r: TripleSpace)
        requires
            0 < args.heap_start,
            args.heap_start + 3 * args.space_bytes <= u64::MAX,
        ensures
            r@.idle_wf(),
            !r@.hi,
            r@.heap_pages == args.heap_pages,
            r@.space0 == (SpaceModel {
                start: args.heap_start as int,
                limit: args.heap_start + args.space_bytes,
                cursor: args.heap_start as int,
                from_space: false,
                copy_for_sft_trace: None,
                objects: Seq::empty(),
            }),
            r@.space1 == (SpaceModel {
                start: args.heap_start + args.space_bytes,
                limit: args.heap_start + 2 * args.space_bytes,
                cursor: args.heap_start + args.space_bytes,
                from_space: true,
                copy_for_sft_trace: None,
                objects: Seq::empty(),
            }),
            r@.eden == (SpaceModel {
                start: args.heap_start + 2 * args.space_bytes,
                limit: args.heap_start + 3 * args.space_bytes,
                cursor: args.heap_start + 2 * args.space_bytes,
                from_space: false,
                copy_for_sft_trace: None,
                objects: Seq::empty(),
            }),
    {
        TripleSpace {
            hi: false,
            copy_space0: CopySpace::new(args.heap_start, args.space_bytes, false),
            copy_space1: CopySpace::new(
                args.heap_start + args.space_bytes,
                args.space_bytes,
                true,
            ),
            eden_space: CopySpace::new(
                args.heap_start + 2 * args.space_bytes,
                args.space_bytes,
                false,
            ),
            heap_pages: args.heap_pages,
        }
    }

    pub fn is_hi(&self) -> (r: bool)
        ensures
            r == self@.hi,
    {
        self.hi
    }

    pub fn tospace(&self) -> (r: &CopySpace)
        ensures
            r@ == self@.to(),
    {
        if self.hi {
            &self.copy_space1
        } else {
            &self.copy_space0
        }
    }

    pub fn fromspace(&self) -> (r: &CopySpace)
        ensures
            r@ == self@.from(),
    {
        if self.hi {
            &self.copy_space0
        } else {
            &self.copy_space1
        }
    }

    pub fn tospace_mut(&mut self) -> (r: &mut CopySpace)
        ensures
            r@ == old(self)@.to(),
            final(self)@ == old(self)@.with_spaces(final(r)@, old(self)@.from()),
    {
        if self.hi {
            &mut self.copy_space1
        } else {
            &mut self.copy_space0
        }
    }

    pub fn fromspace_mut(&mut self) -> (r: &mut CopySpace)
        ensures
            r@ == old(self)@.from(),
            final(self)@ == old(self)@.with_spaces(old(self)@.to(), final(r)@),
    {
        if self.hi {
            &mut self.copy_space0
        } else {
            &mut self.copy_space1
        }
    }

    pub fn edenspace(&self) -> (r: &CopySpace)
        ensures
            r@ == self@.eden,
    {
        &self.eden_space
    }

    pub fn edenspace_mut(&mut self) -> (r: &mut CopySpace)
        ensures
            r@ == old(self)@.eden,
            final(self)@ == (TripleSpaceModel { eden: final(r)@, ..old(self)@ }),
    {
        &mut self.eden_space
    }

    pub fn tospace_id(&self) -> (r: SpaceId)
        ensures
            r == self@.to_id(),
    {
        if self.hi {
            SpaceId::CopySpace1
        } else {
            SpaceId::CopySpace0
        }
    }

    pub fn constraints(&self) -> (r: PlanConstraints)
        ensures
            r == (PlanConstraints {
                moves_objects: true,
                needs_forward_after_liveness: false,
                may_trace_duplicate_edges: false,
            }),
    {
        copying_constraints()
    }

    /// Flips the roles of the two banks and makes eden a source.
    pub fn prepare(&mut self)
        requires
            old(self)@.wf(),
        ensures
            final(self)@ == old(self)@.prepared(),
            final(self)@.wf(),
            old(self)@.idle_wf() ==> final(self)@.tracing_wf(),
    {
        self.hi = !self.hi;
        let hi = self.hi;
        self.copy_space0.prepare(hi);
        self.copy_space1.prepare(!hi);
        self.eden_space.prepare(true);
        self.fromspace_mut().set_copy_for_sft_trace(Some(CopySemantics::DefaultCopy));
        self.tospace_mut().set_copy_for_sft_trace(None);
        self.eden_space.set_copy_for_sft_trace(Some(CopySemantics::DefaultCopy));
    }

    /// Reclaims the source bank and eden once tracing has drained.
    pub fn release(&mut self)
        requires
            old(self)@.wf(),
        ensures
            final(self)@ == old(self)@.released(),
            final(self)@.wf(),
            old(self)@.tracing_wf() ==> final(self)@.idle_wf(),
    {
        self.fromspace_mut().release();
        self.eden_space.release();
    }

    /// Points a worker's copy context at the current destination.
    pub fn prepare_worker(&self, worker: &mut GCWorker)
        ensures
            *final(worker) == (GCWorker { copy_destination: Some(self@.to_id()), ..*old(worker) }),
    {
        worker.rebind(self.tospace_id());
    }

    pub fn get_allocator_mapping(&self, semantics: AllocationSemantics) -> (r: AllocatorSelector)
        ensures
            r == copying_allocator_spec(semantics),
    {
        copying_allocator(semantics)
    }

    pub fn current_gc_may_move_object(&self) -> (r: bool)
        ensures
            r,
    {
        true
    }

    /// Pages of all three regions.
    pub fn get_used_pages(&self) -> (r: u64)
        requires
            self@.wf(),
        ensures
            r == self@.used_pages(),
    {
        proof {
            lemma_pages_bound(self@.to().cursor - self@.to().start);
            lemma_pages_bound(self@.from().cursor - self@.from().start);
            lemma_pages_bound(self@.eden.cursor - self@.eden.start);
        }
        self.tospace().reserved_pages() + self.fromspace().reserved_pages()
            + self.edenspace().reserved_pages()
    }

    /// Pages held back so that the source and eden can be evacuated.
    pub fn get_collection_reserved_pages(&self) -> (r: u64)
        requires
            self@.wf(),
        ensures
            r == self@.collection_reserved_pages(),
    {
        self.tospace().reserved_pages()
    }

    /// A cycle is due when an allocation found its region full, or when the
    /// used and held-back pages together exceed the heap budget.
    pub fn collection_required(&self, space_full: bool) -> (r: bool)
        requires
            self@.wf(),
        ensures
            r == (space_full || self@.used_pages() + self@.collection_reserved_pages()
                > self@.heap_pages),
    {
        proof {
            lemma_pages_bound(self@.to().cursor - self@.to().start);
            lemma_pages_bound(self@.from().cursor - self@.from().start);
            lemma_pages_bound(self@.eden.cursor - self@.eden.start);
        }
        space_full || self.get_used_pages() + self.get_collection_reserved_pages() > self.heap_pages
    }

    pub fn create_copy_config(&self) -> (r: CopyConfig)
        ensures
            r.copy_mapping@ == crate::plan::copying_copy_mapping(),
            r.space_mapping@ == seq![(CopySelector::CopySpace(0), self@.to_id())],
            r.constraints.moves_objects,
    {
        copy_config_to(self.tospace_id())
    }

    /// Bump-allocates `bytes` bytes in the region named `space`; `None` when it
    /// is full.
    pub fn allocate_in(&mut self, space: SpaceId, bytes: u64) -> (r: Option<ObjectReference>)
        requires
            old(self)@.wf(),
            bytes > 0,
        ensures
            final(self)@.wf(),
            bytes <= old(self)@.space(space).room() ==> r == Some(
                ObjectReference { addr: old(self)@.space(space).cursor as u64 },
            ) && final(self)@ == old(self)@.with_space(space, old(self)@.space(space).allocated(bytes)),
            bytes > old(self)@.space(space).room() ==> r is None && final(self)@ == old(self)@,
            old(self)@.tracing_wf() ==> final(self)@.tracing_wf(),
            old(self)@.idle_wf() ==> final(self)@.idle_wf(),
    {
        let r = match space {
            SpaceId::CopySpace0 => self.copy_space0.allocate(bytes),
            SpaceId::CopySpace1 => self.copy_space1.allocate(bytes),
            SpaceId::Eden => self.eden_space.allocate(bytes),
        };
        proof {
            let m = old(self)@;
            if r is Some {
                let sp = m.space(space);
                lemma_allocated_keeps(sp, bytes, m.to());
                if space == m.to_id() && m.tracing_wf() {
                    lemma_forwards_into_extends(m.eden, m.to(), sp.allocated(bytes));
                    lemma_forwards_into_extends(m.from(), m.to(), sp.allocated(bytes));
                }
            }
        }
        r
    }

    /// Traces one object reference: eden and the source bank are evacuated into
    /// the destination.
    pub fn trace_object(&mut self, object: ObjectReference) -> (r: Option<ObjectReference>)
        requires
            old(self)@.wf(),
        ensures
            final(self)@.wf(),
            (final(self)@, r) == old(self)@.traced(object),
            old(self)@.tracing_wf() ==> final(self)@.tracing_wf(),
            old(self)@.tracing_wf() && (old(self)@.eden.holds(object.addr) || old(self)@.from().holds(
                object.addr,
            )) ==> (r matches Some(n) ==> final(self)@.to().holds(n.addr)),
    {
        let r = if self.eden_space.find(object.addr).is_some() {
            if self.hi {
                copy_object(&mut self.eden_space, &mut self.copy_space1, object)
            } else {
                copy_object(&mut self.eden_space, &mut self.copy_space0, object)
            }
        } else if self.hi {
            copy_object(&mut self.copy_space0, &mut self.copy_space1, object)
        } else {
            copy_object(&mut self.copy_space1, &mut self.copy_space0, object)
        };
        proof {
            let m = old(self)@;
            let src = if m.eden.holds(object.addr) { m.eden } else { m.from() };
            let src1 = if m.eden.holds(object.addr) { self@.eden } else { self@.from() };
            lemma_traced_forwards(src, m.to(), object);
            lemma_holds_kept(src, src1, object.addr);
            if m.tracing_wf() {
                if m.eden.holds(object.addr) {
                    lemma_forwards_into_extends(m.from(), m.to(), self@.to());
                } else {
                    lemma_forwards_into_extends(m.eden, m.to(), self@.to());
                }
                if src.holds(object.addr) && r is Some {
                    assert(src1.objects[src1.index_of(object.addr)].forwarded == r);
                }
                if !m.eden.holds(object.addr) && m.from().holds(object.addr) {
                    assert(src == m.from());
                }
            }
        }
        r
    }

    /// Traces every root slot out of eden and then out of the source bank, and
    /// rewrites it with its object's new address. On success slots that held the
    /// same reference hold the same one, a slot whose object eden or the source
    /// held now refers to an object of the destination, and every object added
    /// to the destination is referred to by some slot. It fails only when a
    /// root's object has not been copied and does not fit in the destination.
    pub fn trace_roots(&mut self, slots: &mut Vec<ObjectReference>) -> (r: bool)
        requires
            old(self)@.wf(),
        ensures
            final(self)@.wf(),
            final(self)@.hi == old(self)@.hi,
            final(self)@.heap_pages == old(self)@.heap_pages,
            final(slots)@.len() == old(slots)@.len(),
            forwarding_grows(old(self)@.eden, final(self)@.eden),
            forwarding_grows(old(self)@.from(), final(self)@.from()),
            extends(old(self)@.to(), final(self)@.to()),
            old(self)@.tracing_wf() ==> final(self)@.tracing_wf(),
            r ==> forall|i: int|
                0 <= i < old(slots)@.len() ==> (#[trigger] forwarding_of(
                    final(self)@.eden,
                    old(slots)@[i],
                ) matches Some(m) && forwarding_of(final(self)@.from(), m) == Some(
                    final(slots)@[i],
                )),
            r ==> forall|i: int, j: int|
                0 <= i < old(slots)@.len() && 0 <= j < old(slots)@.len() && old(slots)@[i]
                    == old(slots)@[j] ==> #[trigger] final(slots)@[i] == #[trigger] final(slots)@[j],
            r && old(self)@.tracing_wf() ==> forall|i: int|
                0 <= i < old(slots)@.len() ==> if old(self)@.eden.holds(
                    (#[trigger] old(slots)@[i]).addr,
                ) || old(self)@.from().holds(old(slots)@[i].addr) {
                    final(self)@.to().holds(final(slots)@[i].addr)
                } else {
                    final(slots)@[i] == old(slots)@[i]
                },
            r ==> forall|j: int|
                old(self)@.to().objects.len() <= j < final(self)@.to().objects.len()
                    ==> #[trigger] slot_names(
                    final(slots)@,
                    final(slots)@.len() as int,
                    final(self)@.to(),
                    j,
                ),
            !r ==> exists|i: int|
                0 <= i < old(slots)@.len() && match #[trigger] forwarding_of(
                    final(self)@.eden,
                    old(slots)@[i],
                ) {
                    None => final(self)@.eden.objects[final(self)@.eden.index_of(
                        old(slots)@[i].addr,
                    )].bytes > final(self)@.to().room(),
                    Some(m) => forwarding_of(final(self)@.from(), m) is None
                        && final(self)@.from().objects[final(self)@.from().index_of(m.addr)].bytes
                        > final(self)@.to().room(),
                },
    {
        if self.hi {
            trace_roots_through(
                &mut self.eden_space,
                &mut self.copy_space0,
                &mut self.copy_space1,
                slots,
            )
        } else {
            trace_roots_through(
                &mut self.eden_space,
                &mut self.copy_space1,
                &mut self.copy_space0,
                slots,
            )
        }
    }
}

impl CopyingPlan for TripleSpace {
    type Model = TripleSpaceModel;

    open spec fn model(&self) -> TripleSpaceModel {
        self@
    }

    open spec fn traced_by(m: TripleSpaceModel, object: ObjectReference) -> (
        TripleSpaceModel,
        Option<ObjectReference>,
    ) {
        m.traced(object)
    }

    open spec fn plan_inv(&self) -> bool {
        self@.wf()
    }

    open spec fn copies(&self) -> Seq<ObjectReference> {
        starts(self@.to().objects)
    }

    proof fn lemma_copies_distinct(&self) {
        lemma_starts_distinct(self@.to());
    }

    fn num_copies(&self) -> (r: usize) {
        self.tospace().num_objects()
    }

    fn trace(&mut self, object: ObjectReference) -> (r: Option<ObjectReference>) {
        let r = self.trace_object(object);
        proof {
            let m = old(self)@;
            if m.eden.holds(object.addr) {
                let t = traced(m.eden, m.to(), object);
                if t.1 != m.to() {
                    assert(starts(t.1.objects) =~= starts(m.to().objects).push(r.unwrap()));
                }
            } else {
                let t = traced(m.from(), m.to(), object);
                if t.1 != m.to() {
                    assert(starts(t.1.objects) =~= starts(m.to().objects).push(r.unwrap()));
                }
            }
        }
        r
    }
}

/// The work context of the three-region plan: edges are traced through their
/// region, and pinning roots are not supported since every object may move.
pub struct TripleSpaceWorkContext;

impl GCWorkContext for TripleSpaceWorkContext {
    type PlanType = TripleSpace;

    fn default_process_edges() -> (r: ProcessEdgesKind)
        ensures
            r == ProcessEdgesKind::Sft,
    {
        ProcessEdgesKind::Sft
    }

    fn pinning_process_edges() -> (r: ProcessEdgesKind)
        ensures
            r == ProcessEdgesKind::Unsupported,
    {
        ProcessEdgesKind::Unsupported
    }
}

} // verus!
