use vstd::prelude::*;
use crate::arena::Index;
use crate::model::{ArenaView, live_count, lemma_first_free_from};

verus! {

/// One operation on an arena, by slot position.
pub ghost enum Step<T> {
    Add(T),
    Push(T),
    Swap(int, T),
    Take(int),
}

impl<T> Step<T> {
    /// Whether the step names the slot `p` (a swap or a take of it).
    pub open spec fn targets(self, p: int) -> bool {
        match self {
            Step::Swap(q, _) => q == p,
            Step::Take(q) => q == p,
            _ => false,
        }
    }
}

impl<T> ArenaView<T> {
    /// The state after one step.
    pub open spec fn step(self, s: Step<T>) -> ArenaView<T> {
        match s {
            Step::Add(v) => self.added(v),
            Step::Push(v) => self.pushed(v),
            Step::Swap(p, v) => self.swapped(p, v),
            Step::Take(p) => self.taken(p),
        }
    }

    /// Whether the operation's `requires` admits the step in this state.
    pub open spec fn allows(self, s: Step<T>) -> bool {
        match s {
            Step::Add(_) => self.has_free() || self.len() < usize::MAX,
            Step::Push(_) => self.can_append() || self.has_free() || self.len() < usize::MAX,
            Step::Swap(p, _) => self.is_occupied(p),
            Step::Take(p) => self.is_occupied(p),
        }
    }

    /// The state after the steps, in order.
    pub open spec fn run(self, steps: Seq<Step<T>>) -> ArenaView<T>
        decreases steps.len(),
    {
        if steps.len() == 0 {
            self
        } else {
            self.step(steps[0]).run(steps.drop_first())
        }
    }

    /// Whether every step is admitted in the state it meets.
    pub open spec fn runs(self, steps: Seq<Step<T>>) -> bool
        decreases steps.len(),
    {
        steps.len() == 0 || (self.allows(steps[0]) && self.step(steps[0]).runs(steps.drop_first()))
    }
}

/// Number of steps that store a new value (adds and pushes).
pub open spec fn stores<T>(steps: Seq<Step<T>>) -> nat
    decreases steps.len(),
{
    if steps.len() == 0 {
        0
    } else {
        stores(steps.drop_first()) + match steps[0] {
            Step::Add(_) | Step::Push(_) => 1nat,
            _ => 0nat,
        }
    }
}

/// Number of steps that take a value out.
pub open spec fn takes<T>(steps: Seq<Step<T>>) -> nat
    decreases steps.len(),
{
    if steps.len() == 0 {
        0
    } else {
        takes(steps.drop_first()) + if steps[0] is Take { 1nat } else { 0nat }
    }
}

/// A store lands on a slot that was not occupied, so it leaves every
/// occupied slot as it was, and the new value sits at the reported position.
pub proof fn lemma_store_frame<T>(v: ArenaView<T>, x: T)
    ensures
        !v.is_occupied(v.add_position()),
        v.added(x).is_occupied(v.add_position()),
        v.added(x).value_at(v.add_position()) == x,
        v.added(x).len() >= v.len(),
        forall|p: int| v.is_occupied(p) ==> #[trigger] v.added(x).is_occupied(p)
            && v.added(x).slots[p] == v.slots[p],
        !v.is_occupied(v.push_position()),
        v.pushed(x).is_occupied(v.push_position()),
        v.pushed(x).value_at(v.push_position()) == x,
        v.pushed(x).len() >= v.len(),
        forall|p: int| v.is_occupied(p) ==> #[trigger] v.pushed(x).is_occupied(p)
            && v.pushed(x).slots[p] == v.slots[p],
{
    lemma_first_free_from(v.slots, 0);
}


/// Appending a slot adds one to the count when the slot is occupied.
pub proof fn lemma_live_push<T>(s: Seq<Option<T>>, x: Option<T>)
    ensures
        live_count(s.push(x)) == live_count(s) + if x is Some { 1nat } else { 0nat },
{
    assert(s.push(x).drop_last() =~= s);
}

/// Overwriting one slot changes the count by what left and what came.
pub proof fn lemma_live_update<T>(s: Seq<Option<T>>, p: int, x: Option<T>)
    requires
        0 <= p < s.len(),
    ensures
        live_count(s.update(p, x)) + (if s[p] is Some { 1nat } else { 0nat })
            == live_count(s) + (if x is Some { 1nat } else { 0nat }),
    decreases s.len(),
{
    let u = s.update(p, x);
    if p == s.len() - 1 {
        assert(u.drop_last() =~= s.drop_last());
    } else {
        assert(u.drop_last() =~= s.drop_last().update(p, x));
        lemma_live_update(s.drop_last(), p, x);
    }
}

/// Each admitted step changes the number of held values by one at most: a
/// store adds one, a take removes one, a swap keeps the count.
pub proof fn lemma_step_live<T>(v: ArenaView<T>, st: Step<T>)
    requires
        v.allows(st),
    ensures
        v.step(st).live() + (if st is Take { 1nat } else { 0nat })
            == v.live() + match st {
                Step::Add(_) | Step::Push(_) => 1nat,
                _ => 0nat,
            },
{
    lemma_first_free_from(v.slots, 0);
    match st {
        Step::Add(x) => {
            if v.has_free() {
                lemma_live_update(v.slots, v.first_free(), Some(x));
            } else {
                lemma_live_push(v.slots, Some(x));
            }
        },
        Step::Push(x) => {
            if v.can_append() {
                lemma_live_push(v.slots, Some(x));
            } else if v.has_free() {
                lemma_live_update(v.slots, v.first_free(), Some(x));
            } else {
                lemma_live_push(v.slots, Some(x));
            }
        },
        Step::Swap(p, x) => {
            lemma_live_update(v.slots, p, Some(x));
        },
        Step::Take(p) => {
            lemma_live_update(v.slots, p, None);
        },
    }
}

/// The arena holds exactly the values stored and not yet taken: after N
/// stores and M takes from an arena holding `h` values it holds `h + N - M`,
/// and its teardown finalizes each of them once. Freed slots hold nothing,
/// so no stale value is finalized.
pub proof fn law_live_values<T>(v: ArenaView<T>, steps: Seq<Step<T>>)
    requires
        v.runs(steps),
    ensures
        v.run(steps).live() + takes(steps) == v.live() + stores(steps),
    decreases steps.len(),
{
    if steps.len() > 0 {
        lemma_step_live(v, steps[0]);
        law_live_values(v.step(steps[0]), steps.drop_first());
    }
}

/// A value stored at slot `p` (by `add`, `push` or `swap`) stays there
/// through any admitted steps that neither swap nor take `p`, so the next
/// `take` of `p` returns the value most recently stored there. Stores never
/// land on an occupied slot.
pub proof fn law_value_kept<T>(v: ArenaView<T>, p: int, steps: Seq<Step<T>>)
    requires
        v.is_occupied(p),
        v.runs(steps),
        forall|k: int| 0 <= k < steps.len() ==> !(#[trigger] steps[k]).targets(p),
    ensures
        v.run(steps).is_occupied(p),
        v.run(steps).value_at(p) == v.value_at(p),
    decreases steps.len(),
{
    if steps.len() > 0 {
        let st = steps[0];
        assert(!steps[0].targets(p));
        match st {
            Step::Add(x) => {
                lemma_store_frame(v, x);
            },
            Step::Push(x) => {
                lemma_store_frame(v, x);
            },
            _ => {},
        }
        let rest = steps.drop_first();
        assert forall|k: int| 0 <= k < rest.len() implies !(#[trigger] rest[k]).targets(p) by {
            assert(rest[k] == steps[k + 1]);
        }
        law_value_kept(v.step(st), p, rest);
    }
}

impl<T> Step<T> {
    /// The slot a step writes or empties in the state `v`.
    pub open spec fn position(self, v: ArenaView<T>) -> int {
        match self {
            Step::Add(_) => v.add_position(),
            Step::Push(_) => v.push_position(),
            Step::Swap(q, _) => q,
            Step::Take(q) => q,
        }
    }
}

/// Whatever `add`, `push` or `swap` stores is what a later `take` of that
/// slot returns, however many steps on other slots come between.
pub proof fn law_round_trip<T>(v: ArenaView<T>, st: Step<T>, x: T, steps: Seq<Step<T>>)
    requires
        v.allows(st),
        st == Step::<T>::Add(x) || st == Step::<T>::Push(x) || st == Step::Swap(st->Swap_0, x),
        v.step(st).runs(steps),
        forall|k: int| 0 <= k < steps.len() ==> !(#[trigger] steps[k]).targets(st.position(v)),
    ensures
        v.step(st).run(steps).is_occupied(st.position(v)),
        v.step(st).run(steps).value_at(st.position(v)) == x,
{
    lemma_store_frame(v, x);
    law_value_kept(v.step(st), st.position(v), steps);
}

/// Freeing slot `p` makes the next `add` reuse a hole instead of growing:
/// `p` itself when it is the lowest hole, which it is when the arena had
/// none before. `push` does the same once it cannot append.
pub proof fn law_slot_reuse<T>(v: ArenaView<T>, p: int, x: T)
    requires
        v.is_occupied(p),
    ensures
        v.taken(p).free() == v.free().insert(p),
        v.taken(p).has_free(),
        v.taken(p).add_position() <= p,
        v.taken(p).added(x).len() == v.len(),
        v.taken(p).added(x).capacity == v.capacity,
        !v.has_free() ==> v.taken(p).add_position() == p,
        !v.taken(p).can_append() ==> v.taken(p).push_position() == v.taken(p).add_position(),
{
    let w = v.taken(p);
    lemma_first_free_from(v.slots, 0);
    lemma_first_free_from(w.slots, 0);
    assert(w.is_free(p));
    assert(w.free() =~= v.free().insert(p));
    if !v.has_free() {
        assert forall|q: int| 0 <= q < p implies w.slots[q] is Some by {
            assert(v.slots[q] is Some);
        }
    }
}

/// An index issued by one arena is never accepted by an arena with another
/// tag, whatever that arena holds: every operation that takes an index asks
/// that the arena own it, and the tag check stops the program otherwise.
pub proof fn law_instance_isolation<T, U>(a: ArenaView<T>, b: ArenaView<U>, i: Index)
    requires
        a.owns(i),
        a.instance != b.instance,
    ensures
        !b.owns(i),
{
}

/// Growing past the capacity keeps every held value at its slot, so every
/// index issued before the growth still names its value.
pub proof fn law_growth_keeps_values<T>(v: ArenaView<T>, x: T)
    requires
        v.len() >= v.capacity,
    ensures
        forall|p: int| v.is_occupied(p) ==> #[trigger] v.added(x).is_occupied(p)
            && v.added(x).value_at(p) == v.value_at(p),
        forall|p: int| v.is_occupied(p) ==> #[trigger] v.pushed(x).is_occupied(p)
            && v.pushed(x).value_at(p) == v.value_at(p),
        forall|i: Index| v.owns(i) ==> #[trigger] v.added(x).owns(i) && v.pushed(x).owns(i),
{
    lemma_store_frame(v, x);
}

} // verus!
