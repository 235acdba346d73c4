use vstd::prelude::*;

use crate::mutator::{Mutator, VMWorkerThread};
use crate::plan::GCWorker;
use crate::util::ObjectReference;

verus! {

/// Callback of scanning functions that report slots.
pub trait SlotVisitor<SL> {
    /// What the visitor keeps true between calls.
    spec fn visitor_inv(&self) -> bool;

    /// Called once for each slot.
    fn visit_slot(&mut self, slot: SL)
        requires
            old(self).visitor_inv(),
        ensures
            final(self).visitor_inv(),
    ;
}

/// A closure can serve as a slot visitor while every slot is a valid argument
/// to it.
impl<SL, F: FnMut(SL)> SlotVisitor<SL> for F {
    open spec fn visitor_inv(&self) -> bool {
        forall|slot: SL| call_requires(*self, (slot,))
    }

    /// Calls the closure once with the slot.
    fn visit_slot(&mut self, slot: SL)
        ensures
            call_ensures(*old(self), (slot,), ()),
    {
        (self)(slot)
    }
}

/// Callback of scanning functions that trace object graph edges directly.
pub trait ObjectTracer {
    /// What the tracer keeps true between calls.
    spec fn tracer_inv(&self) -> bool;

    /// Traces an edge to `object`: returns its new reference if it was moved,
    /// `object` itself if not. The caller updates the slot it read it from.
    fn trace_object(&mut self, object: ObjectReference) -> (r: ObjectReference)
        requires
            old(self).tracer_inv(),
        ensures
            final(self).tracer_inv(),
    ;
}

/// A closure can serve as a tracer while every reference is a valid argument
/// to it.
impl<F: FnMut(ObjectReference) -> ObjectReference> ObjectTracer for F {
    open spec fn tracer_inv(&self) -> bool {
        forall|o: ObjectReference| call_requires(*self, (o,))
    }

    /// Calls the closure once with the object; its result is the new reference.
    fn trace_object(&mut self, object: ObjectReference) -> (r: ObjectReference)
        ensures
            call_ensures(*old(self), (object,), r),
    {
        (self)(object)
    }
}

/// Gives a worker temporary access to an object tracer. Objects first reached
/// through it are enqueued, and become new closure work when the tracer is
/// finished.
pub trait ObjectTracerContext {
    type TracerType: ObjectTracer;

    /// The context can hand out a tracer.
    spec fn context_inv(&self) -> bool;

    /// A tracer for `worker`, ready to trace, for one scope.
    fn tracer_for(&mut self, worker: &GCWorker) -> (r: Self::TracerType)
        requires
            old(self).context_inv(),
        ensures
            r.tracer_inv(),
    ;
}

/// Turns batches of roots into closure work.
pub trait RootsWorkFactory<SL> {
    /// Roots given as slots: the work may move their objects and rewrites the
    /// slots.
    fn create_process_roots_work(&mut self, slots: Vec<SL>);

    /// Roots whose objects must not move in this cycle; their children may.
    fn create_process_pinning_roots_work(&mut self, nodes: Vec<ObjectReference>);

    /// Roots of which no object in the reachable subgraph may move in this
    /// cycle.
    fn create_process_tpinning_roots_work(&mut self, nodes: Vec<ObjectReference>);
}

/// What the runtime supplies for scanning roots and objects.
pub trait Scanning {
    /// Whether each live object must be enqueued for scanning at most once per
    /// cycle.
    fn unique_object_enqueuing() -> bool {
        false
    }

    /// Whether `object` is scanned through slots (`scan_object`) rather than by
    /// tracing its edges directly.
    fn support_slot_enqueuing(tls: VMWorkerThread, object: ObjectReference) -> bool {
        true
    }

    /// Calls `slot_visitor.visit_slot` on each reference field of `object`.
    fn scan_object<SV: SlotVisitor<usize>>(
        tls: VMWorkerThread,
        object: ObjectReference,
        slot_visitor: &mut SV,
    )
        requires
            old(slot_visitor).visitor_inv(),
        ensures
            final(slot_visitor).visitor_inv(),
    ;

    /// Traces each field of `object` and updates the fields whose object moved;
    /// used only for objects that do not support slot enqueuing.
    fn scan_object_and_trace_edges<OT: ObjectTracer>(
        tls: VMWorkerThread,
        object: ObjectReference,
        object_tracer: &mut OT,
    )
        requires
            old(object_tracer).tracer_inv(),
        ensures
            final(object_tracer).tracer_inv(),
    ;

    /// Called the first time in a cycle that all thread stacks are scanned.
    fn notify_initial_thread_scan_complete(partial_scan: bool, tls: VMWorkerThread);

    /// Reports the roots of one mutator through `factory`.
    fn scan_roots_in_mutator_thread<F: RootsWorkFactory<usize>>(
        tls: VMWorkerThread,
        mutator: &mut Mutator,
        factory: F,
    );

    /// Reports all other roots through `factory`.
    fn scan_vm_specific_roots<F: RootsWorkFactory<usize>>(tls: VMWorkerThread, factory: F);

    fn supports_return_barrier() -> bool;

    /// Called before roots are scanned again in the same cycle; the same roots
    /// must be reported again.
    fn prepare_for_roots_re_scanning();

    /// Called after a closure has drained; may keep objects alive through the
    /// context's tracer. Returns `true` to ask for another closure round and
    /// another call before release.
    fn process_weak_refs<C: ObjectTracerContext>(worker: &mut GCWorker, tracer_context: C) -> bool {
        false
    }

    /// Called in the forwarding pass of two-pass algorithms only.
    fn forward_weak_refs<C: ObjectTracerContext>(worker: &mut GCWorker, tracer_context: C) {
    }
}

} // verus!
