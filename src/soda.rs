use vstd::prelude::*;

use crate::copyspace::{lemma_starts_distinct, starts, CopySemantics, CopySpace, SpaceModel};
use crate::tracer::CopyingPlan;
use crate::plan::{
    copy_config_to, copying_allocator, copying_allocator_spec, copying_constraints,
    AllocationSemantics, AllocatorSelector, CopyConfig, GCWorkContext, ProcessEdgesKind, CreateGeneralPlanArgs, GCWorker,
    PlanConstraints, SpaceId,
};
use crate::trace::{
    copy_object, extends, forwarding_grows, forwarding_of, forwards_into, lemma_forwards_into_extends,
    lemma_holds_kept, lemma_traced_forwards, slot_names, trace_slots, traced,
};
use crate::util::{lemma_pages_bound, ObjectReference};

verus! {

/// The abstract state of a two-region plan.
pub struct SodaModel {
    pub hi: bool,
    pub space0: SpaceModel,
    pub space1: SpaceModel,
    pub heap_pages: int,
}

impl SodaModel {
    /// Both regions are sound and their address ranges do not meet.
    pub open spec fn wf(self) -> bool {
        &&& self.space0.wf()
        &&& self.space1.wf()
        &&& self.space0.limit <= self.space1.start
    }

    /// Ready to trace: the destination has forwarded nothing, and every
    /// forwarding of the source names an object of the destination.
    pub open spec fn tracing_wf(self) -> bool {
        &&& self.wf()
        &&& self.to().unforwarded()
        &&& forwards_into(self.from(), self.to())
    }

    /// Between cycles: ready to trace, and the source has forwarded nothing
    /// either.
    pub open spec fn idle_wf(self) -> bool {
        &&& self.tracing_wf()
        &&& self.from().unforwarded()
    }

    /// The destination: the second region when the flip flag is set.
    pub open spec fn to(self) -> SpaceModel {
        if self.hi { self.space1 } else { self.space0 }
    }

    /// The source: the region that is not the destination.
    pub open spec fn from(self) -> SpaceModel {
        if self.hi { self.space0 } else { self.space1 }
    }

    pub open spec fn to_id(self) -> SpaceId {
        if self.hi { SpaceId::CopySpace1 } else { SpaceId::CopySpace0 }
    }

    pub open spec fn from_id(self) -> SpaceId {
        if self.hi { SpaceId::CopySpace0 } else { SpaceId::CopySpace1 }
    }

    /// Whether the region named `id` is the destination.
    pub open spec fn is_destination(self, id: SpaceId) -> bool {
        id == self.to_id()
    }

    /// The plan with `to` and `from` standing for the destination and source.
    pub open spec fn with_spaces(self, to: SpaceModel, from: SpaceModel) -> SodaModel {
        if self.hi {
            SodaModel { space1: to, space0: from, ..self }
        } else {
            SodaModel { space0: to, space1: from, ..self }
        }
    }

    /// After `prepare`: the flag toggled, the old source is the destination and
    /// the old destination is the source, bound to default copy semantics.
    pub open spec fn prepared(self) -> SodaModel {
        let flipped = SodaModel { hi: !self.hi, ..self };
        flipped.with_spaces(
            SpaceModel { from_space: false, copy_for_sft_trace: None, ..self.from() },
            SpaceModel {
                from_space: true,
                copy_for_sft_trace: Some(CopySemantics::DefaultCopy),
                ..self.to()
            },
        )
    }

    /// After `release`: the source is emptied.
    pub open spec fn released(self) -> SodaModel {
        self.with_spaces(self.to(), self.from().emptied())
    }

    pub open spec fn used_pages(self) -> int {
        self.to().reserved_pages() + self.from().reserved_pages()
    }

    pub open spec fn collection_reserved_pages(self) -> int {
        self.to().reserved_pages()
    }

    /// One trace of `object`: the plan afterwards and the object's address.
    pub open spec fn traced(self, object: ObjectReference) -> (SodaModel, Option<ObjectReference>) {
        let t = traced(self.from(), self.to(), object);
        (self.with_spaces(t.1, t.0), t.2)
    }
}

/// Each `prepare` flips both regions: the one that was the destination is the
/// source, and the other way round.
pub proof fn lemma_soda_roles_alternate(m: SodaModel)
    ensures
        m.prepared().is_destination(SpaceId::CopySpace0) == !m.is_destination(SpaceId::CopySpace0),
        m.prepared().is_destination(SpaceId::CopySpace1) == !m.is_destination(SpaceId::CopySpace1),
        m.prepared().space0.from_space == !m.prepared().prepared().space0.from_space,
        m.prepared().space1.from_space == !m.prepared().prepared().space1.from_space,
        m.prepared().to().start == m.from().start,
        m.prepared().from().start == m.to().start,
{
}

/// Releasing a source that holds pages lowers the used pages by exactly what
/// the source held.
pub proof fn lemma_soda_release_reclaims(m: SodaModel)
    requires
        m.wf(),
        m.from().reserved_pages() > 0,
    ensures
        m.released().used_pages() == m.used_pages() - m.from().reserved_pages(),
        m.released().used_pages() < m.used_pages(),
{
}

/// Tracing a reference a second time, right after it was traced, returns the
/// same address and leaves the plan as it is.
pub proof fn lemma_soda_trace_idempotent(m: SodaModel, object: ObjectReference)
    requires
        m.wf(),
        m.traced(object).1 is Some,
    ensures
        m.traced(object).0.traced(object) == m.traced(object),
{
    crate::trace::lemma_trace_idempotent(m.from(), m.to(), object);
}

/// A copying plan with two regions that swap roles every cycle.
pub struct Soda {
    hi: bool,
    copy_space0: CopySpace,
    copy_space1: CopySpace,
    heap_pages: u64,
}

impl View for Soda {
    type V = SodaModel;

    closed spec fn view(&self) -> SodaModel {
        SodaModel {
            hi: self.hi,
            space0: self.copy_space0@,
            space1: self.copy_space1@,
            heap_pages: self.heap_pages as int,
        }
    }
}

impl Soda {
    /// Two empty regions side by side from `heap_start`; the first is the
    /// destination.
    pub fn new(args: CreateGeneralPlanArgs) -> (r: Soda)
        requires
            0 < args.heap_start,
            args.heap_start + 2 * args.space_bytes <= u64::MAX,
        ensures
            r@.idle_wf(),
            !r@.hi,
            r@.heap_pages == args.heap_pages,
            r@.space0 == (SpaceModel {
                start: args.heap_start as int,
                limit: args.heap_start + args.space_bytes,
                cursor: args.heap_start as int,
                from_space: false,
                copy_for_sft_trace: None,
                objects: Seq::empty(),
            }),
            r@.space1 == (SpaceModel {
                start: args.heap_start + args.space_bytes,
                limit: args.heap_start + 2 * args.space_bytes,
                cursor: args.heap_start + args.space_bytes,
                from_space: true,
                copy_for_sft_trace: None,
                objects: Seq::empty(),
            }),
    {
        Soda {
            hi: false,
            copy_space0: CopySpace::new(args.heap_start, args.space_bytes, false),
            copy_space1: CopySpace::new(
                args.heap_start + args.space_bytes,
                args.space_bytes,
                true,
            ),
            heap_pages: args.heap_pages,
        }
    }

    /// The flip flag: set when the second region is the destination.
    pub fn is_hi(&self) -> (r: bool)
        ensures
            r == self@.hi,
    {
        self.hi
    }

    pub fn tospace(&self) -> (r: &CopySpace)
        ensures
            r@ == self@.to(),
    {
        if self.hi {
            &self.copy_space1
        } else {
            &self.copy_space0
        }
    }

    pub fn fromspace(&self) -> (r: &CopySpace)
        ensures
            r@ == self@.from(),
    {
        if self.hi {
            &self.copy_space0
        } else {
            &self.copy_space1
        }
    }

    pub fn tospace_mut(&mut self) -> (r: &mut CopySpace)
        ensures
            r@ == old(self)@.to(),
            final(self)@ == old(self)@.with_spaces(final(r)@, old(self)@.from()),
    {
        if self.hi {
            &mut self.copy_space1
        } else {
            &mut self.copy_space0
        }
    }

    pub fn fromspace_mut(&mut self) -> (r: &mut CopySpace)
        ensures
            r@ == old(self)@.from(),
            final(self)@ == old(self)@.with_spaces(old(self)@.to(), final(r)@),
    {
        if self.hi {
            &mut self.copy_space0
        } else {
            &mut self.copy_space1
        }
    }

    pub fn tospace_id(&self) -> (r: SpaceId)
        ensures
            r == self@.to_id(),
    {
        if self.hi {
            SpaceId::CopySpace1
        } else {
            SpaceId::CopySpace0
        }
    }

    pub fn constraints(&self) -> (r: PlanConstraints)
        ensures
            r == (PlanConstraints {
                moves_objects: true,
                needs_forward_after_liveness: false,
                may_trace_duplicate_edges: false,
            }),
    {
        copying_constraints()
    }

    /// Flips the roles of the two regions for a new cycle.
    pub fn prepare(&mut self)
        requires
            old(self)@.wf(),
        ensures
            final(self)@ == old(self)@.prepared(),
            final(self)@.wf(),
            old(self)@.idle_wf() ==> final(self)@.tracing_wf(),
    {
        self.hi = !self.hi;
        let hi = self.hi;
        self.copy_space0.prepare(hi);
        self.copy_space1.prepare(!hi);
        self.fromspace_mut().set_copy_for_sft_trace(Some(CopySemantics::DefaultCopy));
        self.tospace_mut().set_copy_for_sft_trace(None);
    }

    /// Reclaims the source region once tracing has drained.
    pub fn release(&mut self)
        requires
            old(self)@.wf(),
        ensures
            final(self)@ == old(self)@.released(),
            final(self)@.wf(),
            old(self)@.tracing_wf() ==> final(self)@.idle_wf(),
    {
        self.fromspace_mut().release();
    }

    /// Points a worker's copy context at the current destination.
    pub fn prepare_worker(&self, worker: &mut GCWorker)
        ensures
            *final(worker) == (GCWorker { copy_destination: Some(self@.to_id()), ..*old(worker) }),
    {
        worker.rebind(self.tospace_id());
    }

    pub fn get_allocator_mapping(&self, semantics: AllocationSemantics) -> (r: AllocatorSelector)
        ensures
            r == copying_allocator_spec(semantics),
    {
        copying_allocator(semantics)
    }

    pub fn current_gc_may_move_object(&self) -> (r: bool)
        ensures
            r,
    {
        true
    }

    /// Pages of both regions: the source is charged until it is released.
    pub fn get_used_pages(&self) -> (r: u64)
        requires
            self@.wf(),
        ensures
            r == self@.used_pages(),
    {
        proof {
            lemma_pages_bound(self@.to().cursor - self@.to().start);
            lemma_pages_bound(self@.from().cursor - self@.from().start);
        }
        self.tospace().reserved_pages() + self.fromspace().reserved_pages()
    }

    /// Pages held back so that the source can be evacuated into the destination.
    pub fn get_collection_reserved_pages(&self) -> (r: u64)
        requires
            self@.wf(),
        ensures
            r == self@.collection_reserved_pages(),
    {
        self.tospace().reserved_pages()
    }

    /// A cycle is due when an allocation found its region full, or when the
    /// used and held-back pages together exceed the heap budget.
    pub fn collection_required(&self, space_full: bool) -> (r: bool)
        requires
            self@.wf(),
        ensures
            r == (space_full || self@.used_pages() + self@.collection_reserved_pages()
                > self@.heap_pages),
    {
        proof {
            lemma_pages_bound(self@.to().cursor - self@.to().start);
            lemma_pages_bound(self@.from().cursor - self@.from().start);
        }
        space_full || self.get_used_pages() + self.get_collection_reserved_pages() > self.heap_pages
    }

    pub fn create_copy_config(&self) -> (r: CopyConfig)
        ensures
            r.copy_mapping@ == crate::plan::copying_copy_mapping(),
            r.space_mapping@ == seq![(crate::plan::CopySelector::CopySpace(0), self@.to_id())],
            r.constraints.moves_objects,
    {
        copy_config_to(self.tospace_id())
    }

    /// Mutator allocation into the destination; `None` when it is full.
    pub fn allocate(&mut self, bytes: u64) -> (r: Option<ObjectReference>)
        requires
            old(self)@.wf(),
            bytes > 0,
        ensures
            final(self)@.wf(),
            bytes <= old(self)@.to().room() ==> r == Some(
                ObjectReference { addr: old(self)@.to().cursor as u64 },
            ) && final(self)@ == old(self)@.with_spaces(
                old(self)@.to().allocated(bytes),
                old(self)@.from(),
            ),
            bytes > old(self)@.to().room() ==> r is None && final(self)@ == old(self)@,
            old(self)@.tracing_wf() ==> final(self)@.tracing_wf(),
            old(self)@.idle_wf() ==> final(self)@.idle_wf(),
    {
        let r = self.tospace_mut().allocate(bytes);
        proof {
            let t0 = old(self)@.to();
            let t1 = self@.to();
            if r is Some {
                assert(extends(t0, t1)) by {
                    assert forall|j: int| 0 <= j < t0.objects.len() implies #[trigger] t1.objects[j]
                        == t0.objects[j] by {}
                }
                if old(self)@.tracing_wf() {
                    lemma_forwards_into_extends(old(self)@.from(), t0, t1);
                    assert forall|k: int| 0 <= k < t1.objects.len() implies (#[trigger] t1.objects[k]).forwarded
                        is None by {
                        if k < t0.objects.len() {
                            assert(t1.objects[k] == t0.objects[k]);
                        }
                    }
                }
            }
        }
        r
    }

    /// Traces one object reference: the source is evacuated into the destination.
    pub fn trace_object(&mut self, object: ObjectReference) -> (r: Option<ObjectReference>)
        requires
            old(self)@.wf(),
        ensures
            final(self)@.wf(),
            (final(self)@, r) == old(self)@.traced(object),
            old(self)@.tracing_wf() ==> final(self)@.tracing_wf(),
            old(self)@.tracing_wf() && old(self)@.from().holds(object.addr) ==> (r matches Some(
                n,
            ) ==> final(self)@.to().holds(n.addr)),
    {
        proof {
            lemma_traced_forwards(self@.from(), self@.to(), object);
        }
        let r = if self.hi {
            copy_object(&mut self.copy_space0, &mut self.copy_space1, object)
        } else {
            copy_object(&mut self.copy_space1, &mut self.copy_space0, object)
        };
        proof {
            let m = old(self)@;
            if m.tracing_wf() && m.from().holds(object.addr) && r is Some {
                let f1 = self@.from();
                lemma_holds_kept(m.from(), f1, object.addr);
                assert(f1.objects[f1.index_of(object.addr)].forwarded == r);
            }
        }
        r
    }

    /// Traces every root slot and rewrites it with its object's new address.
    /// On success each slot holds the forwarding of what it held, slots that
    /// held the same reference hold the same one, a slot whose object the
    /// source held now refers to an object of the destination, and every object
    /// added to the destination is referred to by some slot. It fails only when
    /// a root's object does not fit in the destination.
    pub fn trace_roots(&mut self, slots: &mut Vec<ObjectReference>) -> (r: bool)
        requires
            old(self)@.wf(),
        ensures
            final(self)@.wf(),
            final(self)@.hi == old(self)@.hi,
            final(self)@.heap_pages == old(self)@.heap_pages,
            final(slots)@.len() == old(slots)@.len(),
            forwarding_grows(old(self)@.from(), final(self)@.from()),
            extends(old(self)@.to(), final(self)@.to()),
            old(self)@.tracing_wf() ==> final(self)@.tracing_wf(),
            r && old(self)@.tracing_wf() ==> forall|i: int|
                0 <= i < old(slots)@.len() ==> if old(self)@.from().holds(
                    (#[trigger] old(slots)@[i]).addr,
                ) {
                    final(self)@.to().holds(final(slots)@[i].addr)
                } else {
                    final(slots)@[i] == old(slots)@[i]
                },
            r ==> forall|j: int|
                old(self)@.to().objects.len() <= j < final(self)@.to().objects.len()
                    ==> #[trigger] slot_names(
                    final(slots)@,
                    final(slots)@.len() as int,
                    final(self)@.to(),
                    j,
                ),
            r ==> forall|i: int|
                0 <= i < old(slots)@.len() ==> forwarding_of(
                    final(self)@.from(),
                    #[trigger] old(slots)@[i],
                ) == Some(final(slots)@[i]),
            r ==> forall|i: int, j: int|
                0 <= i < old(slots)@.len() && 0 <= j < old(slots)@.len() && old(slots)@[i]
                    == old(slots)@[j] ==> #[trigger] final(slots)@[i] == #[trigger] final(slots)@[j],
            !r ==> exists|i: int|
                0 <= i < old(slots)@.len() && forwarding_of(
                    final(self)@.from(),
                    #[trigger] old(slots)@[i],
                ) is None && final(self)@.from().objects[final(self)@.from().index_of(
                    old(slots)@[i].addr,
                )].bytes > final(self)@.to().room(),
    {
        let r = if self.hi {
            trace_slots(&mut self.copy_space0, &mut self.copy_space1, slots)
        } else {
            trace_slots(&mut self.copy_space1, &mut self.copy_space0, slots)
        };
        proof {
            let m = old(self)@;
            if r && m.tracing_wf() {
                assert forall|i: int| 0 <= i < old(slots)@.len() implies if m.from().holds(
                    (#[trigger] old(slots)@[i]).addr,
                ) {
                    self@.to().holds(slots@[i].addr)
                } else {
                    slots@[i] == old(slots)@[i]
                } by {
                    let o = old(slots)@[i];
                    assert(forwarding_of(self@.from(), o) == Some(slots@[i]));
                    lemma_holds_kept(m.from(), self@.from(), o.addr);
                }
            }
        }
        r
    }
}

impl CopyingPlan for Soda {
    type Model = SodaModel;

    open spec fn model(&self) -> SodaModel {
        self@
    }

    open spec fn traced_by(m: SodaModel, object: ObjectReference) -> (SodaModel, Option<ObjectReference>) {
        m.traced(object)
    }

    open spec fn plan_inv(&self) -> bool {
        self@.wf()
    }

    open spec fn copies(&self) -> Seq<ObjectReference> {
        starts(self@.to().objects)
    }

    proof fn lemma_copies_distinct(&self) {
        lemma_starts_distinct(self@.to());
    }

    fn num_copies(&self) -> (r: usize) {
        self.tospace().num_objects()
    }

    fn trace(&mut self, object: ObjectReference) -> (r: Option<ObjectReference>) {
        let r = self.trace_object(object);
        proof {
            let t = traced(old(self)@.from(), old(self)@.to(), object);
            if t.1 != old(self)@.to() {
                assert(starts(t.1.objects) =~= starts(old(self)@.to().objects).push(r.unwrap()));
            }
        }
        r
    }
}

/// The work context of the two-region plan: edges are traced through their
/// region, and pinning roots are not supported since every object may move.
pub struct SodaWorkContext;

impl GCWorkContext for SodaWorkContext {
    type PlanType = Soda;

    fn default_process_edges() -> (r: ProcessEdgesKind)
        ensures
            r == ProcessEdgesKind::Sft,
    {
        ProcessEdgesKind::Sft
    }

    fn pinning_process_edges() -> (r: ProcessEdgesKind)
        ensures
            r == ProcessEdgesKind::Unsupported,
    {
        ProcessEdgesKind::Unsupported
    }
}

} // verus!
