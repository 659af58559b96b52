//! Fixed-capacity first-in/first-out rings that carry control messages
//! between the client and the service.
//!
//! A ring never blocks and never reorders: `Push` reports a full ring by
//! returning `false`, `Pop` reports an empty one by returning `None`.

use vstd::prelude::*;

verus! {

/// What a ring of capacity `cap` holds after an attempt to push `item`
/// onto the pending items `q`.
pub open spec fn ring_push<T>(q: Seq<T>, cap: nat, item: T) -> Seq<T> {
    if q.len() < cap {
        q.push(item)
    } else {
        q
    }
}

/// The item that a pop hands out from the pending items `q`.
pub open spec fn ring_front<T>(q: Seq<T>) -> Option<T> {
    if q.len() == 0 {
        None
    } else {
        Some(q[0])
    }
}

/// What stays pending after a pop from `q`.
pub open spec fn ring_rest<T>(q: Seq<T>) -> Seq<T> {
    if q.len() == 0 {
        q
    } else {
        q.subrange(1, q.len() as int)
    }
}

/// The pending items after pushing every item of `items`, in order, onto a
/// ring of capacity `cap` that holds `q`.
pub open spec fn push_all<T>(q: Seq<T>, cap: nat, items: Seq<T>) -> Seq<T>
    decreases items.len(),
{
    if items.len() == 0 {
        q
    } else {
        push_all(ring_push(q, cap, items[0]), cap, items.subrange(1, items.len() as int))
    }
}

/// The items that `n` pops hand out from `q`, in the order of the pops; a pop
/// from an empty ring hands out nothing.
pub open spec fn pop_many<T>(q: Seq<T>, n: nat) -> Seq<T>
    decreases n,
{
    if n == 0 {
        Seq::empty()
    } else {
        match ring_front(q) {
            Some(x) => seq![x] + pop_many(ring_rest(q), (n - 1) as nat),
            None => pop_many(ring_rest(q), (n - 1) as nat),
        }
    }
}

/// What stays pending after `n` pops from `q`.
pub open spec fn rest_after<T>(q: Seq<T>, n: nat) -> Seq<T>
    decreases n,
{
    if n == 0 {
        q
    } else {
        rest_after(ring_rest(q), (n - 1) as nat)
    }
}

/// Pushes that fit are all taken: while the ring has room for every item of
/// `items`, pushing them appends them to the pending items in order.
pub proof fn lemma_push_all_fits<T>(q: Seq<T>, cap: nat, items: Seq<T>)
    requires
        q.len() + items.len() <= cap,
    ensures
        push_all(q, cap, items) == q + items,
    decreases items.len(),
{
    if items.len() == 0 {
        assert(q + items =~= q);
    } else {
        let tail = items.subrange(1, items.len() as int);
        lemma_push_all_fits(q.push(items[0]), cap, tail);
        assert(q.push(items[0]) + tail =~= q + items);
    }
}

/// `n` pops from a ring that holds at least `n` items hand out its `n`
/// oldest items, oldest first, and leave the others pending.
pub proof fn lemma_pop_many_takes_prefix<T>(q: Seq<T>, n: nat)
    requires
        n <= q.len(),
    ensures
        pop_many(q, n) == q.take(n as int),
        rest_after(q, n) == q.skip(n as int),
    decreases n,
{
    if n == 0 {
        assert(q.take(0) =~= Seq::<T>::empty());
        assert(q.skip(0) =~= q);
    } else {
        let rest = ring_rest(q);
        lemma_pop_many_takes_prefix(rest, (n - 1) as nat);
        assert(seq![q[0]] + rest.take(n - 1) =~= q.take(n as int));
        assert(rest.skip(n - 1) =~= q.skip(n as int));
    }
}

/// Pushing onto an empty ring succeeds for every item up to the ring's
/// capacity; once the ring is full, one more push is refused and the pending
/// items stay as they were.
///
/// The `k`-th push finds the ring holding the first `k` items, which is fewer
/// than `cap`, so `Push` returns `true` for it.
pub proof fn law_push_succeeds_until_full<T>(cap: nat, items: Seq<T>, extra: T)
    requires
        items.len() == cap,
    ensures
        forall|k: int|
            0 <= k < items.len() ==> (#[trigger] push_all(
                Seq::<T>::empty(),
                cap,
                items.take(k),
            )) == items.take(k) && items.take(k).len() < cap,
        push_all(Seq::<T>::empty(), cap, items) == items,
        !(items.len() < cap),
        ring_push(push_all(Seq::<T>::empty(), cap, items), cap, extra) == items,
{
    assert forall|k: int| 0 <= k < items.len() implies (#[trigger] push_all(
        Seq::<T>::empty(),
        cap,
        items.take(k),
    )) == items.take(k) && items.take(k).len() < cap by {
        lemma_push_all_fits(Seq::<T>::empty(), cap, items.take(k));
        assert(Seq::<T>::empty() + items.take(k) =~= items.take(k));
    }
    lemma_push_all_fits(Seq::<T>::empty(), cap, items);
    assert(Seq::<T>::empty() + items =~= items);
}

/// First in, first out: after the items of `items` were pushed onto an empty
/// ring that has room for them, as many pops return exactly those items in
/// the order in which they were pushed, and leave the ring empty.
pub proof fn law_fifo<T>(cap: nat, items: Seq<T>)
    requires
        items.len() <= cap,
    ensures
        pop_many(push_all(Seq::<T>::empty(), cap, items), items.len()) == items,
        rest_after(push_all(Seq::<T>::empty(), cap, items), items.len()) == Seq::<T>::empty(),
{
    lemma_push_all_fits(Seq::<T>::empty(), cap, items);
    assert(Seq::<T>::empty() + items =~= items);
    lemma_pop_many_takes_prefix(items, items.len());
    assert(items.take(items.len() as int) =~= items);
    assert(items.skip(items.len() as int) =~= Seq::<T>::empty());
}

/// A pop from an empty ring hands out nothing and leaves the ring empty, so
/// any number of pops in a row all hand out nothing.
pub proof fn law_pop_empty_is_idempotent<T>(n: nat)
    ensures
        ring_front(Seq::<T>::empty()) is None,
        ring_rest(Seq::<T>::empty()) == Seq::<T>::empty(),
        pop_many(Seq::<T>::empty(), n) == Seq::<T>::empty(),
        rest_after(Seq::<T>::empty(), n) == Seq::<T>::empty(),
    decreases n,
{
    if n > 0 {
        law_pop_empty_is_idempotent::<T>((n - 1) as nat);
    }
}

/// A bounded queue of `T` stored in a circular array.
pub struct RingQueue<T: Copy> {
    slots: Vec<Option<T>>,
    head: usize,
    count: usize,
}

impl<T: Copy> RingQueue<T> {
    /// The slot that holds the `i`-th oldest pending item.
    pub closed spec fn slot_of(&self, i: int) -> int {
        if self.head + i < self.slots.len() {
            self.head + i
        } else {
            self.head + i - self.slots.len()
        }
    }

    /// The representation invariant: the pending items lie in occupied slots
    /// of the circular array. Every constructor establishes it and every
    /// method keeps it.
    pub closed spec fn wf(&self) -> bool {
        &&& self.count <= self.slots.len()
        &&& self.head <= self.slots.len()
        &&& (self.slots.len() > 0 ==> self.head < self.slots.len())
        &&& forall|i: int| 0 <= i < self.count ==> (#[trigger] self.slots[self.slot_of(i)]) is Some
    }

    /// The number of items the ring can hold.
    pub closed spec fn capacity(&self) -> nat {
        self.slots.len() as nat
    }

    /// A ring never holds more items than it has room for, and its capacity
    /// is a machine integer.
    pub proof fn lemma_bounded(&self)
        requires
            self.wf(),
        ensures
            self@.len() <= self.capacity(),
            self.capacity() <= usize::MAX,
    {
    }

    /// An empty ring with room for `capacity` items.
    pub fn New(capacity: usize) -> (q: Self)
        ensures
            q.wf(),
            q@ == Seq::<T>::empty(),
            q.capacity() == capacity,
    {
        let mut slots: Vec<Option<T>> = Vec::new();
        let mut i: usize = 0;
        while i < capacity
            invariant
                i <= capacity,
                slots.len() == i,
            decreases capacity - i,
        {
            slots.push(None);
            i = i + 1;
        }
        let q = RingQueue { slots, head: 0, count: 0 };
        assert(q@ =~= Seq::<T>::empty());
        q
    }

    /// The number of items the ring can hold.
    pub fn Capacity(&self) -> (n: usize)
        ensures
            n == self.capacity(),
    {
        self.slots.len()
    }

    /// The number of pending items.
    pub fn DataCount(&self) -> (n: usize)
        requires
            self.wf(),
        ensures
            n == self@.len(),
            n <= self.capacity(),
    {
        self.count
    }

    /// The number of items that can still be pushed.
    pub fn SpaceCount(&self) -> (n: usize)
        requires
            self.wf(),
        ensures
            n == self.capacity() - self@.len(),
    {
        self.slots.len() - self.count
    }

    /// Whether nothing is pending.
    pub fn IsEmpty(&self) -> (b: bool)
        requires
            self.wf(),
        ensures
            b == (self@.len() == 0),
    {
        self.count == 0
    }

    /// Whether the next `Push` would be refused.
    pub fn IsFull(&self) -> (b: bool)
        requires
            self.wf(),
        ensures
            b == (self@.len() >= self.capacity()),
    {
        self.count == self.slots.len()
    }

    /// Appends `item` behind the pending items, unless the ring is full.
    ///
    /// Returns whether the item was taken. A refused push leaves the ring as
    /// it was.
    pub fn Push(&mut self, item: T) -> (ok: bool)
        requires
            old(self).wf(),
        ensures
            final(self).wf(),
            final(self).capacity() == old(self).capacity(),
            ok == (old(self)@.len() < old(self).capacity()),
            final(self)@ == ring_push(old(self)@, old(self).capacity(), item),
            !ok ==> *final(self) == *old(self),
    {
        let cap = self.slots.len();
        if self.count == cap {
            return false;
        }
        let tail = if self.head < cap - self.count {
            self.head + self.count
        } else {
            self.head - (cap - self.count)
        };
        let ghost before = *self;
        self.slots.set(tail, Some(item));
        assert forall|i: int| 0 <= i < self.count implies (#[trigger] self.slots[self.slot_of(i)])
            == before.slots[before.slot_of(i)] by {
            assert(self.slot_of(i) == before.slot_of(i));
            assert(before.slot_of(i) != tail);
        }
        self.count = self.count + 1;
        assert(self.slot_of(before.count as int) == tail);
        assert forall|i: int| 0 <= i < self.count implies (#[trigger] self.slots[self.slot_of(
            i,
        )]) is Some by {
            if i < before.count {
                assert(self.slot_of(i) == before.slot_of(i));
                assert(before.slots[before.slot_of(i)] is Some);
                assert(before.slot_of(i) != tail);
            }
        }
        assert(self@ =~= before@.push(item)) by {
            assert forall|i: int| 0 <= i < before.count implies self@[i] == before@[i] by {
                assert(self.slot_of(i) == before.slot_of(i));
            }
        }
        true
    }

    /// Removes and returns the oldest pending item, or `None` when the ring
    /// is empty. A pop from an empty ring leaves the ring as it was.
    pub fn Pop(&mut self) -> (item: Option<T>)
        requires
            old(self).wf(),
        ensures
            final(self).wf(),
            final(self).capacity() == old(self).capacity(),
            item == ring_front(old(self)@),
            final(self)@ == ring_rest(old(self)@),
            old(self)@.len() == 0 ==> *final(self) == *old(self),
    {
        if self.count == 0 {
            return None;
        }
        let cap = self.slots.len();
        let ghost before = *self;
        assert(before.slot_of(0) == before.head);
        let item = self.slots[self.head];
        let next = if self.head + 1 == cap {
            0
        } else {
            self.head + 1
        };
        self.count = self.count - 1;
        self.head = next;
        assert forall|i: int| 0 <= i < self.count implies self.slot_of(i) == before.slot_of(
            i + 1,
        ) by {}
        assert(self@ =~= before@.subrange(1, before@.len() as int));
        item
    }
}

impl<T: Copy> View for RingQueue<T> {
    type V = Seq<T>;

    /// The pending items, oldest first.
    closed spec fn view(&self) -> Seq<T> {
        Seq::new(self.count as nat, |i: int| self.slots[self.slot_of(i)].unwrap())
    }
}

} // verus!
