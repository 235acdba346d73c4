use vstd::prelude::*;

use crate::copyspace::{lemma_index_of_unique, CopySpace, SpaceModel, SpaceObject};
use crate::util::ObjectReference;

verus! {

/// One trace of `object` while `from` is evacuated into `to`: the two regions
/// afterwards and the object's address after relocation (`None` when `to` has
/// no room for a copy). An object that `from` does not hold does not move; a
/// forwarded one yields its copy; otherwise it is copied to the bump cursor of
/// `to` and forwarded there.
pub open spec fn traced(from: SpaceModel, to: SpaceModel, object: ObjectReference) -> (
    SpaceModel,
    SpaceModel,
    Option<ObjectReference>,
) {
    if !from.holds(object.addr) {
        (from, to, Some(object))
    } else {
        let i = from.index_of(object.addr);
        let o = from.objects[i];
        match o.forwarded {
            Some(f) => (from, to, Some(f)),
            None => if o.bytes <= to.room() {
                let n = ObjectReference { addr: to.cursor as u64 };
                (from.forwarded_at(i, n), to.allocated(o.bytes), Some(n))
            } else {
                (from, to, None)
            },
        }
    }
}

/// Where `object` is found once `from` has been evacuated as far as it has:
/// itself when `from` does not hold it, its copy when it was forwarded, and
/// `None` when it has not been copied yet.
pub open spec fn forwarding_of(from: SpaceModel, object: ObjectReference) -> Option<ObjectReference> {
    if from.holds(object.addr) {
        from.objects[from.index_of(object.addr)].forwarded
    } else {
        Some(object)
    }
}

/// `b` is `a` with more objects forwarded, and no forwarding changed or lost.
pub open spec fn forwarding_grows(a: SpaceModel, b: SpaceModel) -> bool {
    &&& b.start == a.start
    &&& b.limit == a.limit
    &&& b.objects.len() == a.objects.len()
    &&& forall|i: int|
        0 <= i < a.objects.len() ==> {
            &&& (#[trigger] b.objects[i]).start == a.objects[i].start
            &&& b.objects[i].bytes == a.objects[i].bytes
            &&& a.objects[i].forwarded is Some ==> b.objects[i].forwarded
                == a.objects[i].forwarded
        }
}

/// One of the first `upto` slots refers to the object at position `j` of `to`.
pub open spec fn slot_names(slots: Seq<ObjectReference>, upto: int, to: SpaceModel, j: int) -> bool {
    exists|k: int| 0 <= k < upto && (#[trigger] slots[k]).addr == to.objects[j].start
}

/// `b` is `a` with objects only added after those it had.
pub open spec fn extends(a: SpaceModel, b: SpaceModel) -> bool {
    &&& b.start == a.start
    &&& b.limit == a.limit
    &&& a.objects.len() <= b.objects.len()
    &&& forall|j: int| 0 <= j < a.objects.len() ==> #[trigger] b.objects[j] == a.objects[j]
}

/// Every forwarding installed in `from` names an object of `to`.
pub open spec fn forwards_into(from: SpaceModel, to: SpaceModel) -> bool {
    forall|i: int|
        0 <= i < from.objects.len() && (#[trigger] from.objects[i]).forwarded is Some ==> to.holds(
            from.objects[i].forwarded.unwrap().addr,
        )
}

/// The address ranges of the two regions do not meet.
pub open spec fn apart(a: SpaceModel, b: SpaceModel) -> bool {
    a.limit <= b.start || b.limit <= a.start
}

pub proof fn lemma_extends_holds(a: SpaceModel, b: SpaceModel, addr: u64)
    requires
        extends(a, b),
        a.holds(addr),
    ensures
        b.holds(addr),
{
    let i = choose|i: int| 0 <= i < a.objects.len() && #[trigger] a.objects[i].start == addr;
    assert(b.objects[i] == a.objects[i]);
}

pub proof fn lemma_extends_trans(a: SpaceModel, b: SpaceModel, c: SpaceModel)
    requires
        extends(a, b),
        extends(b, c),
    ensures
        extends(a, c),
{
    assert forall|j: int| 0 <= j < a.objects.len() implies #[trigger] c.objects[j] == a.objects[j] by {
        assert(b.objects[j] == a.objects[j]);
    }
}

/// Forwardings that name objects of `a` still do once `a` has grown to `b`.
pub proof fn lemma_forwards_into_extends(f: SpaceModel, a: SpaceModel, b: SpaceModel)
    requires
        forwards_into(f, a),
        extends(a, b),
    ensures
        forwards_into(f, b),
{
    assert forall|i: int|
        0 <= i < f.objects.len() && (#[trigger] f.objects[i]).forwarded is Some implies b.holds(
        f.objects[i].forwarded.unwrap().addr,
    ) by {
        lemma_extends_holds(a, b, f.objects[i].forwarded.unwrap().addr);
    }
}

/// A bump allocation only adds an unforwarded object after the others.
pub proof fn lemma_allocated_keeps(s: SpaceModel, bytes: u64, t: SpaceModel)
    requires
        s.wf(),
        0 < bytes <= s.room(),
    ensures
        extends(s, s.allocated(bytes)),
        s.unforwarded() ==> s.allocated(bytes).unforwarded(),
        forwards_into(s, t) ==> forwards_into(s.allocated(bytes), t),
{
    let a = s.allocated(bytes);
    assert forall|j: int| 0 <= j < s.objects.len() implies #[trigger] a.objects[j] == s.objects[j] by {}
    if s.unforwarded() {
        assert forall|k: int| 0 <= k < a.objects.len() implies (#[trigger] a.objects[k]).forwarded
            is None by {
            if k < s.objects.len() {
                assert(a.objects[k] == s.objects[k]);
            }
        }
    }
    if forwards_into(s, t) {
        assert forall|k: int|
            0 <= k < a.objects.len() && (#[trigger] a.objects[k]).forwarded is Some implies t.holds(
            a.objects[k].forwarded.unwrap().addr,
        ) by {
            if k < s.objects.len() {
                assert(a.objects[k] == s.objects[k]);
            }
        }
    }
}

/// No object starts in two regions whose ranges do not meet.
pub proof fn lemma_apart_holds(a: SpaceModel, b: SpaceModel, addr: u64)
    requires
        a.wf(),
        b.wf(),
        apart(a, b),
        a.holds(addr),
    ensures
        !b.holds(addr),
{
    let i = choose|i: int| 0 <= i < a.objects.len() && #[trigger] a.objects[i].start == addr;
    if b.holds(addr) {
        let j = choose|j: int| 0 <= j < b.objects.len() && #[trigger] b.objects[j].start == addr;
        assert(a.objects[i].bytes > 0);
        assert(b.objects[j].bytes > 0);
    }
}

pub proof fn lemma_forwarding_grows_trans(a: SpaceModel, b: SpaceModel, c: SpaceModel)
    requires
        forwarding_grows(a, b),
        forwarding_grows(b, c),
    ensures
        forwarding_grows(a, c),
{
    assert forall|i: int| 0 <= i < a.objects.len() implies {
        &&& (#[trigger] c.objects[i]).start == a.objects[i].start
        &&& c.objects[i].bytes == a.objects[i].bytes
        &&& a.objects[i].forwarded is Some ==> c.objects[i].forwarded == a.objects[i].forwarded
    } by {
        assert(b.objects[i].start == a.objects[i].start);
    }
}

/// Forwarding more objects leaves the set of objects a region holds as it is.
pub proof fn lemma_holds_kept(a: SpaceModel, b: SpaceModel, addr: u64)
    requires
        forwarding_grows(a, b),
    ensures
        a.holds(addr) == b.holds(addr),
{
    if a.holds(addr) {
        let i = choose|i: int| 0 <= i < a.objects.len() && #[trigger] a.objects[i].start == addr;
        assert(b.objects[i].start == a.objects[i].start);
    }
    if b.holds(addr) {
        let j = choose|j: int| 0 <= j < b.objects.len() && #[trigger] b.objects[j].start == addr;
        assert(b.objects[j].start == a.objects[j].start);
    }
}

/// A forwarding, once installed, stays as it is while forwarding grows.
pub proof fn lemma_forwarding_kept(a: SpaceModel, b: SpaceModel, object: ObjectReference)
    requires
        a.wf(),
        b.wf(),
        forwarding_grows(a, b),
        forwarding_of(a, object) is Some,
    ensures
        forwarding_of(b, object) == forwarding_of(a, object),
        a.holds(object.addr) == b.holds(object.addr),
{
    if a.holds(object.addr) {
        let i = a.index_of(object.addr);
        assert(b.objects[i].start == a.objects[i].start);
        lemma_index_of_unique(b, i, object.addr);
    } else if b.holds(object.addr) {
        let j = b.index_of(object.addr);
        assert(b.objects[j].start == a.objects[j].start);
        assert(a.holds(object.addr));
    }
}

/// Slots traced in different batches of one cycle that held the same
/// reference end up holding the same address: forwarding is single-valued.
pub proof fn lemma_batches_converge(
    a: SpaceModel,
    b: SpaceModel,
    object: ObjectReference,
    first: ObjectReference,
    second: ObjectReference,
)
    requires
        a.wf(),
        b.wf(),
        forwarding_grows(a, b),
        forwarding_of(a, object) == Some(first),
        forwarding_of(b, object) == Some(second),
    ensures
        first == second,
{
    lemma_forwarding_kept(a, b, object);
}

/// What one trace does to the region being evacuated: it only adds forwarding,
/// and afterwards the traced object has a forwarding equal to the result.
pub proof fn lemma_traced_forwards(from: SpaceModel, to: SpaceModel, object: ObjectReference)
    requires
        from.wf(),
        to.wf(),
    ensures
        forwarding_grows(from, traced(from, to, object).0),
        traced(from, to, object).0.wf(),
        traced(from, to, object).1.wf(),
        traced(from, to, object).2 is Some ==> forwarding_of(traced(from, to, object).0, object)
            == traced(from, to, object).2,
        traced(from, to, object).2 is None ==> traced(from, to, object).0 == from
            && traced(from, to, object).1 == to && forwarding_of(from, object) is None
            && from.objects[from.index_of(object.addr)].bytes > to.room(),
        extends(to, traced(from, to, object).1),
        to.unforwarded() ==> traced(from, to, object).1.unforwarded(),
        forwards_into(from, to) ==> forwards_into(
            traced(from, to, object).0,
            traced(from, to, object).1,
        ),
        traced(from, to, object).1.objects.len() == to.objects.len() || (traced(
            from,
            to,
            object,
        ).1.objects.len() == to.objects.len() + 1 && traced(from, to, object).2 == Some(
            ObjectReference { addr: traced(from, to, object).1.objects[to.objects.len() as int].start },
        )),
{
    let (f1, t1, r) = traced(from, to, object);
    if from.holds(object.addr) {
        let i = from.index_of(object.addr);
        let o = from.objects[i];
        if o.forwarded is None && o.bytes <= to.room() {
            let n = ObjectReference { addr: to.cursor as u64 };
            let last = to.objects.len() as int;
            assert(t1.objects[last].start == n.addr);
            assert(extends(to, t1)) by {
                assert forall|j: int| 0 <= j < to.objects.len() implies #[trigger] t1.objects[j]
                    == to.objects[j] by {}
            }
            assert(t1.holds(n.addr));
            if to.unforwarded() {
                assert forall|k: int| 0 <= k < t1.objects.len() implies (#[trigger] t1.objects[k]).forwarded
                    is None by {
                    if k < last {
                        assert(t1.objects[k] == to.objects[k]);
                    }
                }
            }
            if forwards_into(from, to) {
                assert forall|k: int|
                    0 <= k < f1.objects.len() && (#[trigger] f1.objects[k]).forwarded is Some implies t1.holds(
                    f1.objects[k].forwarded.unwrap().addr,
                ) by {
                    if k != i {
                        assert(f1.objects[k] == from.objects[k]);
                        lemma_extends_holds(to, t1, from.objects[k].forwarded.unwrap().addr);
                    }
                }
            }
            assert(f1.objects[i].start == object.addr);
            assert(f1.wf()) by {
                assert forall|k: int| 0 <= k < f1.objects.len() implies #[trigger] f1.objects[k].bytes
                    > 0 by {
                    assert(f1.objects[k].bytes == from.objects[k].bytes);
                }
                assert forall|k: int, j: int| 0 <= k < j < f1.objects.len() implies #[trigger] f1.objects[k].start
                    + f1.objects[k].bytes <= #[trigger] f1.objects[j].start by {
                    assert(from.objects[k].start + from.objects[k].bytes <= from.objects[j].start);
                }
            }
            lemma_index_of_unique(f1, i, object.addr);
            assert(t1.wf()) by {
                assert forall|k: int| 0 <= k < t1.objects.len() implies {
                    &&& #[trigger] t1.objects[k].bytes > 0
                    &&& t1.start <= t1.objects[k].start
                    &&& t1.objects[k].start + t1.objects[k].bytes <= t1.cursor
                } by {
                    if k < to.objects.len() {
                        assert(t1.objects[k] == to.objects[k]);
                    } else {
                        assert(t1.objects[k] == SpaceObject { start: to.cursor as u64, bytes: o.bytes, forwarded: None });
                        assert(t1.cursor == to.cursor + o.bytes);
                    }
                }
                assert forall|k: int, j: int| 0 <= k < j < t1.objects.len() implies #[trigger] t1.objects[k].start
                    + t1.objects[k].bytes <= #[trigger] t1.objects[j].start by {
                    assert(t1.objects[k] == to.objects[k]);
                    if j < to.objects.len() {
                        assert(t1.objects[j] == to.objects[j]);
                    }
                }
            }
        }
    }
}

/// Tracing the same reference again right after a successful trace returns the
/// same address and changes nothing: the copy is made at most once.
pub proof fn lemma_trace_idempotent(from: SpaceModel, to: SpaceModel, object: ObjectReference)
    requires
        from.wf(),
        to.wf(),
        traced(from, to, object).2 is Some,
    ensures
        traced(traced(from, to, object).0, traced(from, to, object).1, object) == traced(
            from,
            to,
            object,
        ),
{
    lemma_traced_forwards(from, to, object);
    let (f1, t1, r) = traced(from, to, object);
    if f1.holds(object.addr) {
        assert(f1.objects[f1.index_of(object.addr)].forwarded == r);
    }
}

/// Traces `object` with `from` evacuated into `to`.
pub fn copy_object(from: &mut CopySpace, to: &mut CopySpace, object: ObjectReference) -> (r: Option<
    ObjectReference,
>)
    requires
        old(from)@.wf(),
        old(to)@.wf(),
    ensures
        (final(from)@, final(to)@, r) == traced(old(from)@, old(to)@, object),
        final(from)@.wf(),
        final(to)@.wf(),
{
    proof {
        lemma_traced_forwards(from@, to@, object);
    }
    match from.find(object.addr) {
        None => Some(object),
        Some(i) => {
            let o = from.object_at(i);
            match o.forwarded {
                Some(f) => Some(f),
                None => match to.allocate(o.bytes) {
                    None => None,
                    Some(n) => {
                        from.set_forwarding(i, n);
                        Some(n)
                    },
                },
            }
        },
    }
}

/// Traces the object each slot refers to and rewrites the slot with the
/// result. On success every slot holds the forwarding of what it held, so
/// slots that held the same reference hold the same one afterwards. It fails
/// only when some slot's object has not been copied and does not fit in `to`.
pub fn trace_slots(from: &mut CopySpace, to: &mut CopySpace, slots: &mut Vec<ObjectReference>) -> (r:
    bool)
    requires
        old(from)@.wf(),
        old(to)@.wf(),
    ensures
        final(from)@.wf(),
        final(to)@.wf(),
        forwarding_grows(old(from)@, final(from)@),
        extends(old(to)@, final(to)@),
        old(to)@.unforwarded() ==> final(to)@.unforwarded(),
        forwards_into(old(from)@, old(to)@) ==> forwards_into(final(from)@, final(to)@),
        final(slots)@.len() == old(slots)@.len(),
        r ==> forall|j: int|
            old(to)@.objects.len() <= j < final(to)@.objects.len() ==> #[trigger] slot_names(
                final(slots)@,
                final(slots)@.len() as int,
                final(to)@,
                j,
            ),
        r ==> forall|i: int|
            0 <= i < old(slots)@.len() ==> forwarding_of(final(from)@, #[trigger] old(slots)@[i])
                == Some(final(slots)@[i]),
        r ==> forall|i: int, j: int|
            0 <= i < old(slots)@.len() && 0 <= j < old(slots)@.len() && old(slots)@[i]
                == old(slots)@[j] ==> #[trigger] final(slots)@[i] == #[trigger] final(slots)@[j],
        !r ==> exists|i: int|
            0 <= i < old(slots)@.len() && forwarding_of(final(from)@, #[trigger] old(slots)@[i])
                is None && final(from)@.objects[final(from)@.index_of(old(slots)@[i].addr)].bytes
                > final(to)@.room(),
{
    let ghost from0 = from@;
    let ghost to0 = to@;
    let ghost slots0 = slots@;
    let mut i: usize = 0;
    while i < slots.len()
        invariant
            from0 == old(from)@,
            slots0 == old(slots)@,
            to0 == old(to)@,
            extends(to0, to@),
            to0.unforwarded() ==> to@.unforwarded(),
            forwards_into(from0, to0) ==> forwards_into(from@, to@),
            forall|j: int|
                to0.objects.len() <= j < to@.objects.len() ==> #[trigger] slot_names(
                    slots@,
                    i as int,
                    to@,
                    j,
                ),
            from@.wf(),
            to@.wf(),
            forwarding_grows(from0, from@),
            slots@.len() == slots0.len(),
            i <= slots@.len(),
            forall|k: int|
                0 <= k < i ==> forwarding_of(from@, #[trigger] slots0[k]) == Some(slots@[k]),
            forall|k: int| i <= k < slots@.len() ==> #[trigger] slots@[k] == slots0[k],
        decreases slots0.len() - i,
    {
        let ghost from_before = from@;
        let ghost to_before = to@;
        let object = slots[i];
        let traced_to = copy_object(from, to, object);
        proof {
            lemma_traced_forwards(from_before, to_before, object);
        }
        match traced_to {
            None => {
                assert(forwarding_of(from@, slots0[i as int]) is None);
                return false;
            },
            Some(n) => {
                proof {
                    lemma_forwarding_grows_trans(from0, from_before, from@);
                    assert forall|k: int| 0 <= k < i implies forwarding_of(
                        from@,
                        #[trigger] slots0[k],
                    ) == Some(slots@[k]) by {
                        lemma_forwarding_kept(from_before, from@, slots0[k]);
                    }
                }
                let ghost slots_before = slots@;
                slots.set(i, n);
                proof {
                    lemma_extends_trans(to0, to_before, to@);
                    assert forall|j: int| to0.objects.len() <= j < to@.objects.len() implies #[trigger] slot_names(
                        slots@,
                        i + 1,
                        to@,
                        j,
                    ) by {
                        if j < to_before.objects.len() {
                            assert(slot_names(slots_before, i as int, to_before, j));
                            assert(to@.objects[j] == to_before.objects[j]);
                            let k = choose|k: int|
                                0 <= k < i && (#[trigger] slots_before[k]).addr
                                    == to_before.objects[j].start;
                            assert(slots@[k] == slots_before[k]);
                        } else {
                            assert(slots@[i as int] == n);
                            assert(slots@[i as int].addr == to@.objects[j].start);
                        }
                    }
                }
                i = i + 1;
            },
        }
    }
    proof {
        assert forall|a: int, b: int|
            0 <= a < slots0.len() && 0 <= b < slots0.len() && slots0[a] == slots0[b] implies #[trigger] slots@[a]
            == #[trigger] slots@[b] by {
            assert(forwarding_of(from@, slots0[a]) == Some(slots@[a]));
            assert(forwarding_of(from@, slots0[b]) == Some(slots@[b]));
        }
    }
    true
}

} // verus!
