use vstd::prelude::*;

use crate::util::{bytes_to_pages_up, pages_for, ObjectReference};

verus! {

/// The copy semantics a region can be bound to while it is traced.
#[derive(Clone, Copy, Debug, PartialEq, Eq, Structural)]
pub enum CopySemantics {
    DefaultCopy,
    Nursery,
    PromoteToMature,
    Mature,
}

/// One object held by a region: its first byte, its size, and, once it has been
/// copied out in the current cycle, the reference of its copy.
#[derive(Clone, Copy, Debug, PartialEq, Eq, Structural)]
pub struct SpaceObject {
    pub start: u64,
    pub bytes: u64,
    pub forwarded: Option<ObjectReference>,
}

/// The abstract state of a region.
pub struct SpaceModel {
    pub start: int,
    pub limit: int,
    pub cursor: int,
    pub from_space: bool,
    pub copy_for_sft_trace: Option<CopySemantics>,
    pub objects: Seq<SpaceObject>,
}

impl SpaceModel {
    /// Bump allocation stays within the region, and the objects lie in
    /// allocation order without overlapping.
    pub open spec fn wf(self) -> bool {
        &&& 0 < self.start <= self.cursor <= self.limit <= u64::MAX
        &&& forall|i: int|
            0 <= i < self.objects.len() ==> {
                &&& #[trigger] self.objects[i].bytes > 0
                &&& self.start <= self.objects[i].start
                &&& self.objects[i].start + self.objects[i].bytes <= self.cursor
            }
        &&& forall|i: int, j: int|
            0 <= i < j < self.objects.len() ==> #[trigger] self.objects[i].start
                + self.objects[i].bytes <= #[trigger] self.objects[j].start
    }

    /// Pages this region holds: every byte below the bump cursor.
    pub open spec fn reserved_pages(self) -> int {
        pages_for(self.cursor - self.start)
    }

    /// The address lies in the region's range.
    pub open spec fn contains(self, addr: u64) -> bool {
        self.start <= addr < self.limit
    }

    /// An object of this region starts at `addr`.
    pub open spec fn holds(self, addr: u64) -> bool {
        exists|i: int| 0 <= i < self.objects.len() && #[trigger] self.objects[i].start == addr
    }

    /// The position of the object that starts at `addr`.
    pub open spec fn index_of(self, addr: u64) -> int {
        choose|i: int| 0 <= i < self.objects.len() && #[trigger] self.objects[i].start == addr
    }

    /// No object of the region has been forwarded.
    pub open spec fn unforwarded(self) -> bool {
        forall|i: int| 0 <= i < self.objects.len() ==> (#[trigger] self.objects[i]).forwarded is None
    }

    /// Bytes left for bump allocation.
    pub open spec fn room(self) -> int {
        self.limit - self.cursor
    }

    /// The region after a bump allocation of `bytes` bytes.
    pub open spec fn allocated(self, bytes: u64) -> SpaceModel {
        SpaceModel {
            cursor: self.cursor + bytes,
            objects: self.objects.push(
                SpaceObject { start: self.cursor as u64, bytes, forwarded: None },
            ),
            ..self
        }
    }

    /// The region after the object at position `i` was forwarded to `to`.
    pub open spec fn forwarded_at(self, i: int, to: ObjectReference) -> SpaceModel {
        SpaceModel {
            objects: self.objects.update(
                i,
                SpaceObject { forwarded: Some(to), ..self.objects[i] },
            ),
            ..self
        }
    }

    /// The region emptied: nothing allocated, no objects.
    pub open spec fn emptied(self) -> SpaceModel {
        SpaceModel { cursor: self.start, objects: Seq::empty(), from_space: false, ..self }
    }
}

/// The references of the objects, in the order they were allocated.
pub open spec fn starts(objects: Seq<SpaceObject>) -> Seq<ObjectReference> {
    objects.map_values(|o: SpaceObject| ObjectReference { addr: o.start })
}

/// Objects that do not overlap have distinct references.
pub proof fn lemma_starts_distinct(m: SpaceModel)
    requires
        m.wf(),
    ensures
        starts(m.objects).no_duplicates(),
{
    assert forall|i: int, j: int|
        0 <= i < starts(m.objects).len() && 0 <= j < starts(m.objects).len() && i != j implies starts(
        m.objects,
    )[i] != starts(m.objects)[j] by {
        if i < j {
            assert(m.objects[i].start + m.objects[i].bytes <= m.objects[j].start);
            assert(m.objects[i].bytes > 0);
        } else {
            assert(m.objects[j].start + m.objects[j].bytes <= m.objects[i].start);
            assert(m.objects[j].bytes > 0);
        }
    }
}

/// A memory region with bump allocation that objects are copied out of or into.
pub struct CopySpace {
    start: u64,
    limit: u64,
    cursor: u64,
    from_space: bool,
    copy_for_sft_trace: Option<CopySemantics>,
    objects: Vec<SpaceObject>,
}

impl View for CopySpace {
    type V = SpaceModel;

    closed spec fn view(&self) -> SpaceModel {
        SpaceModel {
            start: self.start as int,
            limit: self.limit as int,
            cursor: self.cursor as int,
            from_space: self.from_space,
            copy_for_sft_trace: self.copy_for_sft_trace,
            objects: self.objects@,
        }
    }
}

/// Under `wf`, at most one object starts at a given address.
pub proof fn lemma_index_of_unique(m: SpaceModel, i: int, addr: u64)
    requires
        m.wf(),
        0 <= i < m.objects.len(),
        m.objects[i].start == addr,
    ensures
        m.holds(addr),
        m.index_of(addr) == i,
{
    let j = m.index_of(addr);
    assert(m.objects[i].start == addr);
    if j < i {
        assert(m.objects[j].start + m.objects[j].bytes <= m.objects[i].start);
        assert(m.objects[j].bytes > 0);
    } else if i < j {
        assert(m.objects[i].start + m.objects[i].bytes <= m.objects[j].start);
        assert(m.objects[i].bytes > 0);
    }
}

impl CopySpace {
    /// A region over `[start, start + bytes)`, empty, with the given role.
    pub fn new(start: u64, bytes: u64, from_space: bool) -> (r: CopySpace)
        requires
            0 < start,
            start + bytes <= u64::MAX,
        ensures
            r@ == (SpaceModel {
                start: start as int,
                limit: start + bytes,
                cursor: start as int,
                from_space,
                copy_for_sft_trace: None,
                objects: Seq::empty(),
            }),
            r@.wf(),
    {
        CopySpace {
            start,
            limit: start + bytes,
            cursor: start,
            from_space,
            copy_for_sft_trace: None,
            objects: Vec::new(),
        }
    }

    /// Sets the region's role for the coming cycle.
    pub fn prepare(&mut self, from_space: bool)
        ensures
            final(self)@ == (SpaceModel { from_space, ..old(self)@ }),
    {
        self.from_space = from_space;
    }

    /// Reclaims every page of the region: its objects are gone.
    pub fn release(&mut self)
        ensures
            final(self)@ == old(self)@.emptied(),
    {
        self.cursor = self.start;
        self.objects = Vec::new();
        self.from_space = false;
    }

    pub fn is_from_space(&self) -> (r: bool)
        ensures
            r == self@.from_space,
    {
        self.from_space
    }

    pub fn copy_for_sft_trace(&self) -> (r: Option<CopySemantics>)
        ensures
            r == self@.copy_for_sft_trace,
    {
        self.copy_for_sft_trace
    }

    /// Binds (or unbinds) the copy semantics used when this region is traced.
    pub fn set_copy_for_sft_trace(&mut self, semantics: Option<CopySemantics>)
        ensures
            final(self)@ == (SpaceModel { copy_for_sft_trace: semantics, ..old(self)@ }),
    {
        self.copy_for_sft_trace = semantics;
    }

    pub fn start(&self) -> (r: u64)
        ensures
            r == self@.start,
    {
        self.start
    }

    pub fn limit(&self) -> (r: u64)
        ensures
            r == self@.limit,
    {
        self.limit
    }

    pub fn cursor(&self) -> (r: u64)
        ensures
            r == self@.cursor,
    {
        self.cursor
    }

    /// Pages taken by what has been allocated in the region.
    pub fn reserved_pages(&self) -> (r: u64)
        requires
            self@.wf(),
        ensures
            r == self@.reserved_pages(),
    {
        bytes_to_pages_up(self.cursor - self.start)
    }

    /// Whether the reference lies in the region's address range.
    pub fn in_space(&self, object: ObjectReference) -> (r: bool)
        ensures
            r == self@.contains(object.addr),
    {
        self.start <= object.addr && object.addr < self.limit
    }

    pub fn num_objects(&self) -> (r: usize)
        ensures
            r == self@.objects.len(),
    {
        self.objects.len()
    }

    pub fn object_at(&self, i: usize) -> (r: SpaceObject)
        requires
            i < self@.objects.len(),
        ensures
            r == self@.objects[i as int],
    {
        self.objects[i]
    }

    /// Bump-allocates `bytes` bytes; `None` when the region has no room left.
    pub fn allocate(&mut self, bytes: u64) -> (r: Option<ObjectReference>)
        requires
            old(self)@.wf(),
            bytes > 0,
        ensures
            final(self)@.wf(),
            bytes <= old(self)@.room() ==> r == Some(ObjectReference { addr: old(self)@.cursor as u64 })
                && final(self)@ == old(self)@.allocated(bytes),
            bytes > old(self)@.room() ==> r is None && final(self)@ == old(self)@,
    {
        if bytes <= self.limit - self.cursor {
            let addr = self.cursor;
            self.objects.push(SpaceObject { start: addr, bytes, forwarded: None });
            self.cursor = self.cursor + bytes;
            assert(self@.objects =~= old(self)@.allocated(bytes).objects);
            Some(ObjectReference { addr })
        } else {
            None
        }
    }

    /// The position of the object that starts at `addr`, if there is one.
    pub fn find(&self, addr: u64) -> (r: Option<usize>)
        requires
            self@.wf(),
        ensures
            r is None <==> !self@.holds(addr),
            r matches Some(i) ==> i == self@.index_of(addr) && i < self@.objects.len(),
    {
        let mut i: usize = 0;
        while i < self.objects.len()
            invariant
                i <= self.objects.len(),
                self@.wf(),
                forall|k: int| 0 <= k < i ==> #[trigger] self.objects@[k].start != addr,
            decreases self.objects.len() - i,
        {
            if self.objects[i].start == addr {
                proof {
                    lemma_index_of_unique(self@, i as int, addr);
                }
                return Some(i);
            }
            i = i + 1;
        }
        assert(!self@.holds(addr)) by {
            if self@.holds(addr) {
                let k = choose|k: int| 0 <= k < self@.objects.len() && #[trigger] self@.objects[k].start == addr;
                assert(self.objects@[k].start == addr);
            }
        }
        None
    }

    /// Records that the object at position `i` now lives at `to`.
    pub fn set_forwarding(&mut self, i: usize, to: ObjectReference)
        requires
            old(self)@.wf(),
            i < old(self)@.objects.len(),
        ensures
            final(self)@ == old(self)@.forwarded_at(i as int, to),
            final(self)@.wf(),
    {
        let o = self.objects[i];
        self.objects.set(i, SpaceObject { forwarded: Some(to), ..o });
        assert(self@.objects =~= old(self)@.forwarded_at(i as int, to).objects);
    }
}

} // verus!
