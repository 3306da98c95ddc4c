use vstd::prelude::*;

verus! {

/// The abstract state of an arena: its slots (`None` for an empty, reusable
/// slot), its logical capacity, and the tag stamped into its indices.
pub ghost struct ArenaView<T> {
    pub slots: Seq<Option<T>>,
    pub capacity: nat,
    pub instance: usize,
}

/// Position of the first empty slot at or after `i`, or the length when
/// there is none.
pub open spec fn first_free_from<T>(slots: Seq<Option<T>>, i: int) -> int
    decreases slots.len() - i,
{
    if i >= slots.len() {
        slots.len() as int
    } else if slots[i] is None {
        i
    } else {
        first_free_from(slots, i + 1)
    }
}

/// The first empty slot at or after `i` lies between `i` and the length,
/// is empty when below the length, and every slot before it from `i` on is
/// occupied.
pub proof fn lemma_first_free_from<T>(slots: Seq<Option<T>>, i: int)
    requires
        0 <= i <= slots.len(),
    ensures
        i <= first_free_from(slots, i) <= slots.len(),
        first_free_from(slots, i) < slots.len() ==> slots[first_free_from(slots, i)] is None,
        forall|q: int| i <= q < first_free_from(slots, i) ==> slots[q] is Some,
    decreases slots.len() - i,
{
    if i < slots.len() && slots[i] is Some {
        lemma_first_free_from(slots, i + 1);
    }
}

/// Number of occupied slots.
pub open spec fn live_count<T>(slots: Seq<Option<T>>) -> nat
    decreases slots.len(),
{
    if slots.len() == 0 {
        0
    } else {
        live_count(slots.drop_last()) + if slots.last() is Some { 1nat } else { 0nat }
    }
}

/// Capacity after growth from a full store of `len` slots: about a third
/// more, at least one more, and never past `usize::MAX`.
pub open spec fn grown(len: nat) -> nat {
    if len / 3 == 0 {
        len + 1
    } else if len + len / 3 > usize::MAX {
        usize::MAX as nat
    } else {
        len + len / 3
    }
}

impl<T> ArenaView<T> {
    pub open spec fn len(self) -> nat {
        self.slots.len()
    }

    pub open spec fn is_free(self, p: int) -> bool {
        0 <= p < self.slots.len() && self.slots[p] is None
    }

    pub open spec fn is_occupied(self, p: int) -> bool {
        0 <= p < self.slots.len() && self.slots[p] is Some
    }

    /// The value held by an occupied slot.
    pub open spec fn value_at(self, p: int) -> T {
        self.slots[p]->Some_0
    }

    /// The set of empty, reusable slot positions.
    pub open spec fn free(self) -> Set<int> {
        Set::new(|p: int| self.is_free(p))
    }

    /// Lowest empty slot, or `len()` when every slot is occupied.
    pub open spec fn first_free(self) -> int {
        first_free_from(self.slots, 0)
    }

    pub open spec fn has_free(self) -> bool {
        self.first_free() < self.len()
    }

    /// Where `add` places a new value: the lowest hole, else the end.
    pub open spec fn add_position(self) -> int {
        self.first_free()
    }

    /// The state after `add(v)`: the lowest hole is filled; without a hole
    /// the value is appended, growing the capacity first when it is reached.
    pub open spec fn added(self, v: T) -> ArenaView<T> {
        if self.has_free() {
            ArenaView { slots: self.slots.update(self.first_free(), Some(v)), ..self }
        } else {
            ArenaView {
                slots: self.slots.push(Some(v)),
                capacity: if self.len() >= self.capacity { grown(self.len()) } else { self.capacity },
                ..self
            }
        }
    }

    /// Whether `push` appends without needing to grow.
    pub open spec fn can_append(self) -> bool {
        self.len() < self.capacity
    }

    /// Where `push` places a new value: the end while capacity allows, else
    /// where `add` would.
    pub open spec fn push_position(self) -> int {
        if self.can_append() { self.len() as int } else { self.add_position() }
    }

    /// The state after `push(v)`.
    pub open spec fn pushed(self, v: T) -> ArenaView<T> {
        if self.can_append() {
            ArenaView { slots: self.slots.push(Some(v)), ..self }
        } else {
            self.added(v)
        }
    }

    /// The state after the slot `p` is given the value `v`.
    pub open spec fn swapped(self, p: int, v: T) -> ArenaView<T> {
        ArenaView { slots: self.slots.update(p, Some(v)), ..self }
    }

    /// The state after the value at `p` is taken out.
    pub open spec fn taken(self, p: int) -> ArenaView<T> {
        ArenaView { slots: self.slots.update(p, None), ..self }
    }

    /// Number of values the arena holds, which its teardown finalizes.
    pub open spec fn live(self) -> nat {
        live_count(self.slots)
    }
}

} // verus!
