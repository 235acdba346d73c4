use vstd::prelude::*;

use crate::plan::GCWorker;
use crate::scanning::{ObjectTracer, ObjectTracerContext};
use crate::util::ObjectReference;

verus! {

/// What the tracing machinery needs of a copying plan: a trace step that either
/// leaves the destination's objects as they are or adds exactly the returned
/// copy.
pub trait CopyingPlan {
    /// The abstract state of the plan.
    type Model;

    spec fn model(&self) -> Self::Model;

    /// One trace of `object` from state `m`: the state afterwards and the
    /// object's address after relocation, `None` when the destination is full.
    spec fn traced_by(m: Self::Model, object: ObjectReference) -> (Self::Model, Option<ObjectReference>);

    spec fn plan_inv(&self) -> bool;

    /// The objects of the destination region, in allocation order.
    spec fn copies(&self) -> Seq<ObjectReference>;

    proof fn lemma_copies_distinct(&self)
        requires
            self.plan_inv(),
        ensures
            self.copies().no_duplicates(),
    ;

    fn num_copies(&self) -> (r: usize)
        requires
            self.plan_inv(),
        ensures
            r == self.copies().len(),
    ;

    /// Traces one object reference; `None` when the destination is full.
    fn trace(&mut self, object: ObjectReference) -> (r: Option<ObjectReference>)
        requires
            old(self).plan_inv(),
        ensures
            final(self).plan_inv(),
            (final(self).model(), r) == Self::traced_by(old(self).model(), object),
            final(self).copies() == old(self).copies() || (r is Some && final(self).copies()
                == old(self).copies().push(r.unwrap())),
    ;
}

/// A tracer over a plan for one scope: every object it copies is enqueued,
/// once, and handed out as new closure work when the scope ends.
pub struct QueuingTracer<P: CopyingPlan> {
    plan: P,
    worker_ordinal: u64,
    queue: Vec<ObjectReference>,
    first_copy: Ghost<int>,
    exhausted: bool,
}

impl<P: CopyingPlan> QueuingTracer<P> {
    /// The objects enqueued so far.
    pub closed spec fn queued(&self) -> Seq<ObjectReference> {
        self.queue@
    }

    pub closed spec fn plan_spec(&self) -> P {
        self.plan
    }

    /// A tracer for `worker` over `plan`, with an empty queue.
    pub fn new(plan: P, worker: &GCWorker) -> (r: QueuingTracer<P>)
        requires
            plan.plan_inv(),
        ensures
            r.tracer_inv(),
            r.queued() == Seq::<ObjectReference>::empty(),
            r.plan_spec() == plan,
            !r.exhausted_spec(),
    {
        let ghost first = plan.copies().len() as int;
        let t = QueuingTracer {
            plan,
            worker_ordinal: worker.ordinal,
            queue: Vec::new(),
            first_copy: Ghost(first),
            exhausted: false,
        };
        assert(t.queue@ =~= t.plan.copies().subrange(first, first));
        t
    }

    /// Some trace of this scope found the destination full.
    pub closed spec fn exhausted_spec(&self) -> bool {
        self.exhausted
    }

    /// Whether a trace found the destination full.
    pub fn exhausted(&self) -> (r: bool)
        ensures
            r == self.exhausted_spec(),
    {
        self.exhausted
    }

    /// Ends the scope: the plan back, and the enqueued objects, each once,
    /// as new closure work.
    pub fn finish(self) -> (r: (P, Vec<ObjectReference>))
        requires
            self.tracer_inv(),
        ensures
            r.0 == self.plan_spec(),
            r.0.plan_inv(),
            r.1@ == self.queued(),
            r.1@.no_duplicates(),
    {
        proof {
            lemma_enqueued_once(&self);
        }
        (self.plan, self.queue)
    }
}

/// An object is enqueued at most once per scope, however often it is traced.
pub proof fn lemma_enqueued_once<P: CopyingPlan>(t: &QueuingTracer<P>)
    requires
        t.tracer_inv(),
    ensures
        t.queued().no_duplicates(),
{
    t.plan.lemma_copies_distinct();
    let c = t.plan.copies();
    let f = t.first_copy@;
    assert forall|i: int, j: int|
        0 <= i < t.queue@.len() && 0 <= j < t.queue@.len() && i != j implies t.queue@[i]
        != t.queue@[j] by {
        assert(t.queue@[i] == c[f + i]);
        assert(t.queue@[j] == c[f + j]);
    }
}

impl<P: CopyingPlan> ObjectTracer for QueuingTracer<P> {
    closed spec fn tracer_inv(&self) -> bool {
        &&& self.plan.plan_inv()
        &&& 0 <= self.first_copy@ <= self.plan.copies().len()
        &&& self.queue@ == self.plan.copies().subrange(
            self.first_copy@,
            self.plan.copies().len() as int,
        )
    }

    /// Traces through the plan; a newly copied object joins the queue. When the
    /// destination is full the reference comes back unchanged and the tracer
    /// records that it ran out of room.
    fn trace_object(&mut self, object: ObjectReference) -> (r: ObjectReference)
        ensures
            final(self).queued() == old(self).queued() || final(self).queued() == old(
                self,
            ).queued().push(r),
            old(self).exhausted_spec() ==> final(self).exhausted_spec(),
            ({
                let t = P::traced_by(old(self).plan_spec().model(), object);
                &&& final(self).plan_spec().model() == t.0
                &&& t.1 matches Some(n) ==> r == n && final(self).exhausted_spec() == old(
                    self,
                ).exhausted_spec()
                &&& t.1 is None ==> r == object && final(self).exhausted_spec()
            }),
    {
        let before = self.plan.num_copies();
        match self.plan.trace(object) {
            Some(n) => {
                let after = self.plan.num_copies();
                if after != before {
                    self.queue.push(n);
                    assert(self.queue@ =~= self.plan.copies().subrange(
                        self.first_copy@,
                        self.plan.copies().len() as int,
                    ));
                }
                n
            },
            None => {
                self.exhausted = true;
                object
            },
        }
    }
}

/// Scoped access to a tracer over a plan: the plan goes into the tracer for
/// the scope and comes back with the new work when the tracer is finished.
pub struct PlanTracerContext<P: CopyingPlan> {
    plan: Option<P>,
}

impl<P: CopyingPlan> PlanTracerContext<P> {
    pub closed spec fn held(&self) -> Option<P> {
        self.plan
    }

    pub fn new(plan: P) -> (r: PlanTracerContext<P>)
        requires
            plan.plan_inv(),
        ensures
            r.context_inv(),
            r.held() == Some(plan),
    {
        PlanTracerContext { plan: Some(plan) }
    }
}

impl<P: CopyingPlan> ObjectTracerContext for PlanTracerContext<P> {
    type TracerType = QueuingTracer<P>;

    closed spec fn context_inv(&self) -> bool {
        self.plan matches Some(p) && p.plan_inv()
    }

    /// Moves the plan into a fresh tracer; the context is spent until the
    /// tracer is finished.
    fn tracer_for(&mut self, worker: &GCWorker) -> (r: QueuingTracer<P>)
        ensures
            r.queued() == Seq::<ObjectReference>::empty(),
            Some(r.plan_spec()) == old(self).held(),
            final(self).held() is None,
    {
        let plan = self.plan.take().unwrap();
        QueuingTracer::new(plan, worker)
    }
}

} // verus!
