use vstd::prelude::*;
use vstd::pervasive::runtime_assert;
use crate::instance::InstanceCounter;
use crate::model::{ArenaView, first_free_from, lemma_first_free_from};

verus! {

/// Capacity of an arena made by `new`.
pub const DEFAULT_CAPACITY: usize = 16;

/// A handle to one occupied slot of one arena: the arena's tag and the slot's
/// position. It cannot be copied or built outside this crate, and taking or
/// removing the element consumes it.
pub struct Index(usize, usize);

impl Index {
    /// Tag of the arena that issued this index.
    pub closed spec fn instance(&self) -> usize {
        self.0
    }

    /// Position of the slot this index names.
    pub closed spec fn slot(&self) -> int {
        self.1 as int
    }

    /// Position of the slot this index names.
    pub fn position(&self) -> (r: usize)
        ensures
            r == self.slot(),
    {
        self.1
    }
}

impl<T> ArenaView<T> {
    /// `i` was issued by this arena and names an occupied slot.
    pub open spec fn owns(self, i: Index) -> bool {
        i.instance() == self.instance && self.is_occupied(i.slot())
    }
}

/// A growable store of slots. Each stored element is reached only through
/// the unique `Index` returned when it was stored.
pub struct IndexedVec<T> {
    slots: Vec<Option<T>>,
    capacity: usize,
    instance: usize,
}

impl<T> View for IndexedVec<T> {
    type V = ArenaView<T>;

    closed spec fn view(&self) -> ArenaView<T> {
        ArenaView { slots: self.slots@, capacity: self.capacity as nat, instance: self.instance }
    }
}

impl<T> IndexedVec<T> {
    /// An empty arena with the default capacity, tagged from `counter`.
    pub fn new(counter: &mut InstanceCounter) -> (r: IndexedVec<T>)
        ensures
            r@.slots == Seq::<Option<T>>::empty(),
            r@.capacity == DEFAULT_CAPACITY,
            r@.instance == old(counter).next_tag(),
            final(counter).next_tag() == crate::instance::tag_after(old(counter).next_tag()),
    {
        IndexedVec::with_capacity(DEFAULT_CAPACITY, counter)
    }

    /// An empty arena with room for `capacity` elements, tagged from `counter`.
    pub fn with_capacity(capacity: usize, counter: &mut InstanceCounter) -> (r: IndexedVec<T>)
        ensures
            r@.slots == Seq::<Option<T>>::empty(),
            r@.capacity == capacity,
            r@.instance == old(counter).next_tag(),
            final(counter).next_tag() == crate::instance::tag_after(old(counter).next_tag()),
    {
        let instance = counter.issue();
        IndexedVec { slots: Vec::with_capacity(capacity), capacity, instance }
    }

    /// Number of slots, occupied or empty.
    pub fn len(&self) -> (r: usize)
        ensures
            r == self@.len(),
    {
        self.slots.len()
    }

    /// The logical capacity: `push` appends while the length is below it.
    pub fn capacity(&self) -> (r: usize)
        ensures
            r == self@.capacity,
    {
        self.capacity
    }

    /// The tag stamped into every index this arena issues.
    pub fn instance(&self) -> (r: usize)
        ensures
            r == self@.instance,
    {
        self.instance
    }

    /// Lowest empty slot, or the length when there is none.
    fn first_free(&self) -> (r: usize)
        ensures
            r == self@.first_free(),
    {
        let mut i: usize = 0;
        while i < self.slots.len()
            invariant
                i <= self.slots@.len(),
                first_free_from(self.slots@, i as int) == first_free_from(self.slots@, 0),
            decreases self.slots@.len() - i,
        {
            if self.slots[i].is_none() {
                return i;
            }
            i = i + 1;
        }
        i
    }

    fn do_push(&mut self, value: T) -> (r: Index)
        requires
            old(self)@.len() < usize::MAX,
        ensures
            final(self)@ == (ArenaView { slots: old(self)@.slots.push(Some(value)), ..old(self)@ }),
            r.instance() == old(self)@.instance,
            r.slot() == old(self)@.len(),
    {
        let len = self.slots.len();
        self.slots.push(Some(value));
        Index(self.instance, len)
    }

    /// Puts `value` into the lowest empty slot, or hands it back when there
    /// is none.
    fn do_fill(&mut self, value: T) -> (r: Result<Index, T>)
        ensures
            old(self)@.has_free() ==> (r matches Ok(i) && i.slot() == old(self)@.first_free()
                && i.instance() == old(self)@.instance && final(self)@ == old(self)@.added(value)),
            !old(self)@.has_free() ==> r == Err::<Index, T>(value) && final(self)@ == old(self)@,
    {
        let hole = self.first_free();
        if hole < self.slots.len() {
            self.slots.set(hole, Some(value));
            Ok(Index(self.instance, hole))
        } else {
            Err(value)
        }
    }

    /// Stores `value`, preferring the lowest hole left by a removal; without
    /// one it appends, growing the capacity by about a third when full.
    pub fn add(&mut self, value: T) -> (r: Index)
        requires
            old(self)@.has_free() || old(self)@.len() < usize::MAX,
        ensures
            final(self)@ == old(self)@.added(value),
            r.instance() == old(self)@.instance,
            r.slot() == old(self)@.add_position(),
            final(self)@.owns(r),
    {
        let value = match self.do_fill(value) {
            Ok(i) => return i,
            Err(v) => v,
        };
        proof {
            lemma_first_free_from(self.slots@, 0);
        }
        let len = self.slots.len();
        if len >= self.capacity {
            let extra: usize = if len / 3 == 0 { 1 } else if len > usize::MAX - len / 3 {
                usize::MAX - len
            } else {
                len / 3
            };
            self.slots.reserve(extra);
            self.capacity = len + extra;
        }
        self.do_push(value)
    }

    /// Stores `value`, preferring to append while the capacity allows; when
    /// full it fills the lowest hole rather than grow, as `add` does.
    pub fn push(&mut self, value: T) -> (r: Index)
        requires
            old(self)@.can_append() || old(self)@.has_free() || old(self)@.len() < usize::MAX,
        ensures
            final(self)@ == old(self)@.pushed(value),
            r.instance() == old(self)@.instance,
            r.slot() == old(self)@.push_position(),
            final(self)@.owns(r),
    {
        if self.slots.len() < self.capacity {
            self.do_push(value)
        } else {
            self.add(value)
        }
    }

    /// Stops the program when `instance` is not this arena's tag: an index
    /// of another arena has no meaning here.
    fn assert_instance(&self, instance: usize)
        requires
            instance == self@.instance,
    {
        runtime_assert(instance == self.instance);
    }

    /// The element that `index` names.
    pub fn get(&self, index: &Index) -> (r: &T)
        requires
            self@.owns(*index),
        ensures
            *r == self@.value_at(index.slot()),
    {
        self.assert_instance(index.0);
        self.slots[index.1].as_ref().unwrap()
    }

    /// A mutable reference to the element that `index` names; what is
    /// written through it becomes that slot's value.
    pub fn get_mut(&mut self, index: &mut Index) -> (r: &mut T)
        requires
            old(self)@.owns(*old(index)),
        ensures
            *r == old(self)@.value_at(old(index).slot()),
            final(self)@ == old(self)@.swapped(old(index).slot(), *final(r)),
            *final(index) == *old(index),
    {
        self.assert_instance(index.0);
        self.slots[index.1].as_mut().unwrap()
    }

    /// Replaces the element that `index` names with `value` and returns
    /// the previous one; the index stays valid.
    pub fn swap(&mut self, index: &mut Index, value: T) -> (r: T)
        requires
            old(self)@.owns(*old(index)),
        ensures
            r == old(self)@.value_at(old(index).slot()),
            final(self)@ == old(self)@.swapped(old(index).slot(), value),
            *final(index) == *old(index),
    {
        self.assert_instance(index.0);
        let mut value = value;
        core::mem::swap(self.get_mut(index), &mut value);
        value
    }

    /// Takes the element out of the slot that `index` names, consuming the
    /// index; the slot becomes free for reuse.
    pub fn take(&mut self, index: Index) -> (r: T)
        requires
            old(self)@.owns(index),
        ensures
            r == old(self)@.value_at(index.slot()),
            final(self)@ == old(self)@.taken(index.slot()),
    {
        let Index(instance, i) = index;
        self.assert_instance(instance);
        self.slots[i].take().unwrap()
    }

    /// Drops the element that `index` names, consuming the index; the slot
    /// becomes free for reuse.
    pub fn remove(&mut self, index: Index)
        requires
            old(self)@.owns(index),
        ensures
            final(self)@ == old(self)@.taken(index.slot()),
    {
        self.take(index);
    }
}

} // verus!
