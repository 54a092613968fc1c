//! A column: dense storage of one component type across all entity slots,
//! guarded by a runtime shared/exclusive accessor discipline.
//!
//! A column keeps one `Option` payload per entity slot (`None` meaning "this
//! entity does not carry the component"). Because columns are reached through
//! a uniform, key-routed interface rather than through compile-time borrows,
//! access is checked at run time: any number of shared accessors, or one
//! exclusive accessor, may be outstanding at a time. The column counts its
//! outstanding shared accessors and flags an outstanding exclusive one;
//! acquisition fails (returns `None`) whenever it would break that
//! discipline.

use vstd::prelude::*;

verus! {

/// A shared accessor: a snapshot of one slot's payload, handed out only while
/// the column has no outstanding exclusive accessor. Dropping it without
/// ending the read leaves the column counted as still being read.
pub struct RefComponent<C> {
    pub(crate) value: Option<C>,
}

impl<C> RefComponent<C> {
    /// The payload observed at acquisition time.
    pub closed spec fn spec_value(self) -> Option<C> {
        self.value
    }
}

impl<C: Copy> RefComponent<C> {
    /// Reads the observed payload.
    pub fn value(&self) -> (v: Option<C>)
        ensures
            v == self.spec_value(),
    {
        self.value
    }
}

/// An exclusive accessor: the sole handle on one slot's payload while it is
/// outstanding. The payload it carries is written back into the column when
/// the accessor is returned through `Components::end_write`.
pub struct RefMutComponent<C> {
    pub(crate) idx: usize,
    pub(crate) value: Option<C>,
}

impl<C> RefMutComponent<C> {
    /// The slot this accessor was taken from.
    pub closed spec fn spec_idx(self) -> usize {
        self.idx
    }

    /// The payload the accessor currently carries.
    pub closed spec fn spec_value(self) -> Option<C> {
        self.value
    }

    /// Replaces the carried payload; the replacement is what the column will
    /// hold once the accessor is returned.
    pub fn set_value(&mut self, v: Option<C>)
        ensures
            final(self).spec_value() == v,
            final(self).spec_idx() == old(self).spec_idx(),
    {
        self.value = v;
    }
}

impl<C: Copy> RefMutComponent<C> {
    /// Reads the carried payload.
    pub fn value(&self) -> (v: Option<C>)
        ensures
            v == self.spec_value(),
    {
        self.value
    }
}

/// Storage for one component type: one optional payload per entity slot,
/// together with the bookkeeping of outstanding accessors.
pub struct Components<C> {
    slots: Vec<Option<C>>,
    readers: usize,
    writer: bool,
}

impl<C> Components<C> {
    /// The payloads, one per slot; `None` marks an empty slot.
    pub closed spec fn spec_slots(self) -> Seq<Option<C>> {
        self.slots@
    }

    /// How many shared accessors are outstanding.
    pub closed spec fn spec_readers(self) -> usize {
        self.readers
    }

    /// Whether an exclusive accessor is outstanding.
    pub closed spec fn spec_writer(self) -> bool {
        self.writer
    }

    /// The accessor discipline: an outstanding exclusive accessor excludes
    /// all shared ones.
    pub open spec fn inv(self) -> bool {
        self.spec_writer() ==> self.spec_readers() == 0
    }

    /// A new column of `size` empty slots, with no outstanding accessor.
    pub fn new(size: usize) -> (c: Self)
        ensures
            c.spec_slots().len() == size,
            forall|i: int| 0 <= i < size ==> c.spec_slots()[i] is None,
            c.spec_readers() == 0,
            !c.spec_writer(),
    {
        let mut slots: Vec<Option<C>> = Vec::new();
        let mut i: usize = 0;
        while i < size
            invariant
                i <= size,
                slots@.len() == i,
                forall|k: int| 0 <= k < i ==> slots@[k] is None,
            decreases size - i,
        {
            slots.push(None);
            i = i + 1;
        }
        Components { slots, readers: 0, writer: false }
    }

    /// The number of slots.
    pub fn len(&self) -> (n: usize)
        ensures
            n == self.spec_slots().len(),
    {
        self.slots.len()
    }

    /// Appends one empty slot, keeping the column length-synced with the
    /// registry's slot table when a new entity is allocated.
    pub fn push_none(&mut self)
        ensures
            final(self).spec_slots() == old(self).spec_slots().push(None),
            final(self).spec_readers() == old(self).spec_readers(),
            final(self).spec_writer() == old(self).spec_writer(),
    {
        self.slots.push(None);
    }

    /// Overwrites slot `idx` with `Some(component)`. An out-of-range index or
    /// an outstanding exclusive accessor would mean a broken registry
    /// invariant, so both are ruled out up front.
    pub fn set(&mut self, idx: usize, component: C)
        requires
            idx < old(self).spec_slots().len(),
            !old(self).spec_writer(),
        ensures
            final(self).spec_slots() == old(self).spec_slots().update(idx as int, Some(component)),
            final(self).spec_readers() == old(self).spec_readers(),
            final(self).spec_writer() == old(self).spec_writer(),
    {
        self.slots[idx] = Some(component);
    }

    /// Empties slot `idx`, used when the entity occupying it is destroyed.
    pub fn clear_slot(&mut self, idx: usize)
        requires
            idx < old(self).spec_slots().len(),
            !old(self).spec_writer(),
        ensures
            final(self).spec_slots() == old(self).spec_slots().update(idx as int, None),
            final(self).spec_readers() == old(self).spec_readers(),
            final(self).spec_writer() == old(self).spec_writer(),
    {
        self.slots[idx] = None;
    }
}

impl<C: Copy> Components<C> {
    /// Acquires a shared accessor on slot `idx`: succeeds exactly when no
    /// exclusive accessor is outstanding (and the reader count can still
    /// grow), observing the slot's payload as it is now.
    pub fn get(&mut self, idx: usize) -> (r: Option<RefComponent<C>>)
        requires
            idx < old(self).spec_slots().len(),
        ensures
            final(self).spec_slots() == old(self).spec_slots(),
            final(self).spec_writer() == old(self).spec_writer(),
            r is Some <==> (!old(self).spec_writer() && old(self).spec_readers() < usize::MAX),
            r is Some ==> r->Some_0.spec_value() == old(self).spec_slots()[idx as int]
                && final(self).spec_readers() == old(self).spec_readers() + 1,
            r is None ==> *final(self) == *old(self),
    {
        if self.writer || self.readers == usize::MAX {
            None
        } else {
            self.readers = self.readers + 1;
            Some(RefComponent { value: self.slots[idx] })
        }
    }

    /// Acquires the exclusive accessor on slot `idx`: succeeds exactly when
    /// no accessor of either kind is outstanding. Until the accessor is
    /// returned through `end_write`, no further accessor can be acquired and
    /// the slot cannot be overwritten.
    pub fn get_mut(&mut self, idx: usize) -> (r: Option<RefMutComponent<C>>)
        requires
            idx < old(self).spec_slots().len(),
        ensures
            final(self).spec_slots() == old(self).spec_slots(),
            final(self).spec_readers() == old(self).spec_readers(),
            r is Some <==> (!old(self).spec_writer() && old(self).spec_readers() == 0),
            r is Some ==> r->Some_0.spec_idx() == idx
                && r->Some_0.spec_value() == old(self).spec_slots()[idx as int]
                && final(self).spec_writer(),
            r is None ==> *final(self) == *old(self),
    {
        if self.writer || self.readers > 0 {
            None
        } else {
            self.writer = true;
            Some(RefMutComponent { idx, value: self.slots[idx] })
        }
    }
}

impl<C> Components<C> {
    /// Ends one shared access. Returns `false` (and changes nothing) when no
    /// shared accessor is outstanding, which marks a misuse of the
    /// discipline.
    pub fn end_read(&mut self) -> (r: bool)
        ensures
            r <==> old(self).spec_readers() > 0,
            r ==> final(self).spec_slots() == old(self).spec_slots()
                && final(self).spec_readers() == old(self).spec_readers() - 1
                && final(self).spec_writer() == old(self).spec_writer(),
            !r ==> *final(self) == *old(self),
    {
        if self.readers > 0 {
            self.readers = self.readers - 1;
            true
        } else {
            false
        }
    }

    /// Returns an exclusive accessor: writes the payload it carries back into
    /// its slot and lifts the exclusion. Returns `false` (and changes
    /// nothing) when no exclusive accessor is outstanding or the accessor
    /// does not fit this column, which marks a misuse of the discipline.
    pub fn end_write(&mut self, accessor: RefMutComponent<C>) -> (r: bool)
        ensures
            r <==> (old(self).spec_writer() && accessor.spec_idx() < old(self).spec_slots().len()),
            r ==> final(self).spec_slots() == old(self).spec_slots().update(
                accessor.spec_idx() as int,
                accessor.spec_value(),
            ) && final(self).spec_readers() == old(self).spec_readers()
                && !final(self).spec_writer(),
            !r ==> *final(self) == *old(self),
    {
        if self.writer && accessor.idx < self.slots.len() {
            self.slots[accessor.idx] = accessor.value;
            self.writer = false;
            true
        } else {
            false
        }
    }
}

} // verus!
