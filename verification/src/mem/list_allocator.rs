//! The allocator of one region: it hands out blocks from the spans that were
//! donated to it and takes them back.
//!
//! The allocator keeps its books beside the region, not inside it, so a
//! request for exactly the bytes that are free can be served.

use crate::mem::heap_model::span_set;
use crate::mem::heap_model::HeapModel;
use crate::mem::heap_model::Layout;
use crate::mem::heap_model::lemma_first_fit_unique;
use crate::mem::heap_model::lemma_no_fit;
use crate::mem::span_list::covered;
use crate::mem::span_list::run_covered;
use crate::mem::span_list::Span;
use crate::mem::span_list::SpanList;
use vstd::prelude::*;

verus! {

/// Whether one of the blocks is `[addr, addr + size)`.
pub open spec fn holds_block(used: Seq<Span>, addr: int, size: int) -> bool {
    exists|i: int| 0 <= i < used.len() && (#[trigger] used[i]).addr == addr && used[i].size == size
}

/// The allocator of the region `[start, end)`.
pub struct ListAllocator {
    start: u64,
    end: u64,
    free: SpanList,
    used: Vec<Span>,
    initialized: bool,
}

impl View for ListAllocator {
    type V = HeapModel;

    closed spec fn view(&self) -> HeapModel {
        HeapModel {
            start: self.start as int,
            end: self.end as int,
            free: Set::new(|a: int| self.free.covers(a)),
            live: Set::new(|b: (int, int)| holds_block(self.used@, b.0, b.1)),
        }
    }
}

impl ListAllocator {
    /// The representation invariant: the free spans are sorted and apart,
    /// free bytes and live blocks lie inside the region, no byte of a live
    /// block is free, and no two live blocks share a byte.
    pub closed spec fn wf(&self) -> bool {
        &&& self.free.wf()
        &&& forall|a: int| self.free.covers(a) ==> self.start <= a < self.end
        &&& forall|i: int|
            0 <= i < self.used@.len() ==> (#[trigger] self.used@[i]).size > 0 && self.start
                <= self.used@[i].addr && self.used@[i].end() <= self.end
        &&& forall|i: int, a: int|
            0 <= i < self.used@.len() && #[trigger] self.used@[i].has(a) ==> !covered(
                self.free@,
                a,
            )
        &&& forall|i: int, j: int|
            0 <= i < self.used@.len() && 0 <= j < self.used@.len() && i != j ==> (
            #[trigger] self.used@[i]).end() <= (#[trigger] self.used@[j]).addr || self.used@[j].end()
                <= self.used@[i].addr
    }

    /// Whether `initialize` was called.
    pub closed spec fn is_initialized(&self) -> bool {
        self.initialized
    }

    /// Every well-formed allocator shows a consistent heap.
    pub proof fn lemma_consistent(&self)
        requires
            self.wf(),
        ensures
            self@.consistent(),
    {
        let h = self@;
        assert forall|b: (int, int)| #[trigger] h.live.contains(b) implies b.1 > 0 && h.start <= b.0
            && b.0 + b.1 <= h.end by {
            let i = choose|i: int|
                0 <= i < self.used@.len() && (#[trigger] self.used@[i]).addr == b.0
                    && self.used@[i].size == b.1;
            assert(self.used@[i].size > 0);
        }
        assert forall|b: (int, int), a: int|
            h.live.contains(b) && b.0 <= a < b.0 + b.1 implies !h.free.contains(a) by {
            let i = choose|i: int|
                0 <= i < self.used@.len() && (#[trigger] self.used@[i]).addr == b.0
                    && self.used@[i].size == b.1;
            assert(self.used@[i].has(a));
        }
        assert forall|b: (int, int), c: (int, int)|
            h.live.contains(b) && h.live.contains(c) && b != c implies b.0 + b.1 <= c.0 || c.0 + c.1
            <= b.0 by {
            let i = choose|i: int|
                0 <= i < self.used@.len() && (#[trigger] self.used@[i]).addr == b.0
                    && self.used@[i].size == b.1;
            let j = choose|j: int|
                0 <= j < self.used@.len() && (#[trigger] self.used@[j]).addr == c.0
                    && self.used@[j].size == c.1;
            assert(i != j);
            assert(self.used@[i].end() <= self.used@[j].addr || self.used@[j].end()
                <= self.used@[i].addr);
        }
    }

    /// An allocator over `[start, end)` to which nothing was donated yet.
    pub fn New(start: u64, end: u64) -> (a: Self)
        ensures
            a.wf(),
            a@ == HeapModel::empty(start as int, end as int),
            !a.is_initialized(),
    {
        let a = ListAllocator {
            start,
            end,
            free: SpanList::New(),
            used: Vec::new(),
            initialized: false,
        };
        assert(a@.free =~= Set::<int>::empty());
        assert(a@.live =~= Set::<(int, int)>::empty());
        a
    }

    /// Marks the allocator as ready. The heap stays as it is.
    pub fn initialize(&mut self)
        requires
            old(self).wf(),
        ensures
            final(self).wf(),
            final(self).is_initialized(),
            final(self)@ == old(self)@,
    {
        self.initialized = true;
    }

    /// Whether `initialize` was called.
    pub fn IsInitialized(&self) -> (b: bool)
        ensures
            b == self.is_initialized(),
    {
        self.initialized
    }

    /// A hook for checking the allocator's books at run time. The books are
    /// kept right by construction, so there is nothing to do.
    pub fn Check(&self) {
    }

    /// The first address of the region.
    pub fn Start(&self) -> (a: u64)
        ensures
            a == self@.start,
    {
        self.start
    }

    /// The first address behind the region.
    pub fn End(&self) -> (a: u64)
        ensures
            a == self@.end,
    {
        self.end
    }

    /// Whether `[ptr, ptr + size)` is a live block of this allocator.
    pub fn IsLive(&self, ptr: u64, size: u64) -> (b: bool)
        ensures
            b == self@.live.contains((ptr as int, size as int)),
    {
        self.find_block(ptr, size).is_some()
    }

    /// The position of the live block `[ptr, ptr + size)` in the books.
    fn find_block(&self, ptr: u64, size: u64) -> (r: Option<usize>)
        ensures
            match r {
                Some(i) => i < self.used@.len() && self.used@[i as int].addr == ptr
                    && self.used@[i as int].size == size,
                None => !holds_block(self.used@, ptr as int, size as int),
            },
            r is Some == self@.live.contains((ptr as int, size as int)),
    {
        let n = self.used.len();
        let mut i: usize = 0;
        while i < n
            invariant
                n == self.used@.len(),
                i <= n,
                forall|k: int|
                    0 <= k < i ==> !((#[trigger] self.used@[k]).addr == ptr && self.used@[k].size
                        == size),
            decreases n - i,
        {
            let b = self.used[i];
            if b.addr == ptr && b.size == size {
                assert(holds_block(self.used@, ptr as int, size as int));
                return Some(i);
            }
            i = i + 1;
        }
        None
    }

    /// Whether a byte of `[addr, addr + size)` belongs to a live block.
    fn touches_block(&self, addr: u64, size: u64) -> (b: bool)
        requires
            self.wf(),
            addr + size <= u64::MAX,
        ensures
            b == exists|i: int|
                0 <= i < self.used@.len() && !((#[trigger] self.used@[i]).end() <= addr || addr
                    + size <= self.used@[i].addr),
    {
        let n = self.used.len();
        let limit = addr + size;
        let mut i: usize = 0;
        while i < n
            invariant
                self.wf(),
                n == self.used@.len(),
                i <= n,
                limit == addr + size,
                forall|k: int|
                    0 <= k < i ==> (#[trigger] self.used@[k]).end() <= addr || limit
                        <= self.used@[k].addr,
            decreases n - i,
        {
            let b = self.used[i];
            assert(self.used@[i as int].end() <= self.end);
            if !(b.addr + b.size <= addr || limit <= b.addr) {
                return true;
            }
            i = i + 1;
        }
        false
    }

    /// Donates the span `[addr, addr + size)` to the free pool.
    ///
    /// The span is taken when it is not empty, lies inside the region and
    /// shares no byte with the free pool or with a live block. Returns
    /// whether it was taken; a span that is refused changes nothing.
    pub fn Add(&mut self, addr: u64, size: u64) -> (ok: bool)
        requires
            old(self).wf(),
        ensures
            final(self).wf(),
            final(self).is_initialized() == old(self).is_initialized(),
            ok == old(self)@.accepts(addr as int, size as int),
            final(self)@ == old(self)@.donate(addr as int, size as int),
    {
        if size == 0 || addr < self.start || addr > self.end || size > self.end - addr {
            return false;
        }
        if self.free.Overlaps(addr, size) {
            proof {
                let a = choose|a: int| addr <= a < addr + size && self.free.covers(a);
                assert(self@.free.contains(a));
            }
            return false;
        }
        if self.touches_block(addr, size) {
            proof {
                let i = choose|i: int|
                    0 <= i < self.used@.len() && !((#[trigger] self.used@[i]).end() <= addr || addr
                        + size <= self.used@[i].addr);
                let b = (self.used@[i].addr as int, self.used@[i].size as int);
                assert(holds_block(self.used@, b.0, b.1));
                assert(self@.live.contains(b));
            }
            return false;
        }
        let ghost before = *self;
        proof {
            assert forall|b: (int, int)| #[trigger] before@.live.contains(b) implies b.0 + b.1
                <= addr || addr + size <= b.0 by {
                let i = choose|i: int|
                    0 <= i < before.used@.len() && (#[trigger] before.used@[i]).addr == b.0
                        && before.used@[i].size == b.1;
                assert(before.used@[i].end() <= addr || addr + size <= before.used@[i].addr);
            }
            assert forall|a: int| addr <= a < addr + size implies !before.free.covers(a) by {}
            assert(before@.accepts(addr as int, size as int));
        }
        self.free.Insert(addr, size);
        proof {
            assert(self.used@ == before.used@);
            assert forall|i: int, a: int|
                0 <= i < self.used@.len() && #[trigger] self.used@[i].has(a) implies !covered(
                self.free@,
                a,
            ) by {
                assert(before.used@[i].has(a));
                assert(!covered(before.free@, a));
                assert(before.used@[i].end() <= addr || addr + size <= before.used@[i].addr);
                assert(self.free.covers(a) <==> before.free.covers(a) || addr <= a < addr + size);
            }
            assert forall|a: int| self.free.covers(a) implies self.start <= a < self.end by {
                assert(self.free.covers(a) <==> before.free.covers(a) || addr <= a < addr + size);
            }
            assert(self@.free =~= before@.free.union(span_set(addr as int, size as int))) by {
                assert forall|a: int|
                    self@.free.contains(a) <==> before@.free.union(
                        span_set(addr as int, size as int),
                    ).contains(a) by {
                    assert(self.free.covers(a) <==> before.free.covers(a) || addr <= a < addr
                        + size);
                }
            }
            assert(self@.live =~= before@.live);
        }
        true
    }

    /// Hands out a block of `layout.size` bytes whose address is a multiple
    /// of `layout.align`.
    ///
    /// The block is placed at the lowest address at which it fits. `None`
    /// says that it fits nowhere (or that the layout asks for no bytes or
    /// for alignment 0); the heap then stays as it is.
    pub fn Alloc(&mut self, layout: Layout) -> (r: Option<u64>)
        requires
            old(self).wf(),
        ensures
            final(self).wf(),
            final(self).is_initialized() == old(self).is_initialized(),
            (match r {
                Some(p) => Some(p as int),
                None => None,
            }) == old(self)@.allocate(layout).0,
            final(self)@ == old(self)@.allocate(layout).1,
            r is None ==> *final(self) == *old(self),
            r matches Some(p) ==> old(self)@.is_first_fit(
                p as int,
                layout.size as int,
                layout.align as int,
            ),
            r is None ==> forall|q: int|
                !old(self)@.fits(q, layout.size as int, layout.align as int),
    {
        let ghost before = *self;
        let size = layout.size;
        let align = layout.align;
        if size == 0 || align == 0 {
            proof {
                lemma_no_fit(before@, size as int, align as int);
            }
            return None;
        }
        let found = self.free.FindFit(size, align);
        match found {
            None => {
                proof {
                    assert forall|q: int| !before@.fits(q, size as int, align as int) by {
                        if before@.fits(q, size as int, align as int) {
                            assert forall|a: int| q <= a < q + size implies covered(
                                before.free@,
                                a,
                            ) by {
                                assert(before@.free.contains(a));
                            }
                            assert(run_covered(before.free@, q, size as int));
                        }
                    }
                    lemma_no_fit(before@, size as int, align as int);
                }
                None
            },
            Some((i, p)) => {
                proof {
                    assert forall|a: int| p <= a < p + size implies before@.free.contains(a) by {
                        assert(before.free@[i as int].has(a));
                    }
                    assert(before@.fits(p as int, size as int, align as int));
                    assert forall|q: int|
                        before@.fits(q, size as int, align as int) implies p <= q by {
                        assert forall|a: int| q <= a < q + size implies covered(
                            before.free@,
                            a,
                        ) by {
                            assert(before@.free.contains(a));
                        }
                        assert(run_covered(before.free@, q, size as int));
                    }
                    assert(before@.is_first_fit(p as int, size as int, align as int));
                    lemma_first_fit_unique(before@, p as int, size as int, align as int);
                    assert(before.free@[i as int].has(p as int));
                    assert(before.free@[i as int].has(p + size - 1));
                    assert(before.free.covers(p as int));
                    assert(before.free.covers(p + size - 1));
                }
                self.free.Carve(i, p, size);
                self.used.push(Span { addr: p, size });
                proof {
                    let n = before.used@.len() as int;
                    assert(self.used@[n] == Span { addr: p, size });
                    assert forall|k: int| 0 <= k < n implies self.used@[k] == before.used@[k] by {}
                    assert forall|a: int| self.free.covers(a) implies self.start <= a
                        < self.end by {
                        assert(before.free.covers(a));
                    }
                    assert forall|k: int, a: int|
                        0 <= k < self.used@.len() && #[trigger] self.used@[k].has(
                            a,
                        ) implies !covered(self.free@, a) by {
                        if k < n {
                            assert(before.used@[k].has(a));
                            assert(!covered(before.free@, a));
                        }
                        assert(self.free.covers(a) <==> before.free.covers(a) && !(p <= a < p
                            + size));
                    }
                    assert forall|k: int|
                        0 <= k < self.used@.len() implies (#[trigger] self.used@[k]).size > 0
                        && self.start <= self.used@[k].addr && self.used@[k].end() <= self.end by {
                        if k < n {
                            assert(self.used@[k] == before.used@[k]);
                        } else {
                            assert(before.free.covers(p as int));
                            assert(before.free.covers(p + size - 1));
                        }
                    }
                    assert forall|j: int, k: int|
                        0 <= j < self.used@.len() && 0 <= k < self.used@.len() && j != k implies (
                    #[trigger] self.used@[j]).end() <= (#[trigger] self.used@[k]).addr
                        || self.used@[k].end() <= self.used@[j].addr by {
                        if j < n && k < n {
                            assert(self.used@[j] == before.used@[j]);
                            assert(self.used@[k] == before.used@[k]);
                        } else {
                            let o = if j < n {
                                j
                            } else {
                                k
                            };
                            let b = before.used@[o];
                            assert(self.used@[o] == b);
                            // a live block and the new block share no byte
                            if !(b.end() <= p || p + size <= b.addr) {
                                let a = if b.addr < p {
                                    p as int
                                } else {
                                    b.addr as int
                                };
                                assert(b.has(a));
                                assert(!covered(before.free@, a));
                                assert(before@.free.contains(a));
                            }
                        }
                    }
                    assert(self@.free =~= before@.free.difference(
                        span_set(p as int, size as int),
                    )) by {
                        assert forall|a: int|
                            self@.free.contains(a) <==> before@.free.difference(
                                span_set(p as int, size as int),
                            ).contains(a) by {
                            assert(self.free.covers(a) <==> before.free.covers(a) && !(p <= a < p
                                + size));
                        }
                    }
                    assert(self@.live =~= before@.live.insert((p as int, size as int))) by {
                        assert forall|b: (int, int)|
                            self@.live.contains(b) <==> before@.live.insert(
                                (p as int, size as int),
                            ).contains(b) by {
                            if holds_block(self.used@, b.0, b.1) {
                                let k = choose|k: int|
                                    0 <= k < self.used@.len() && (#[trigger] self.used@[k]).addr
                                        == b.0 && self.used@[k].size == b.1;
                                if k < n {
                                    assert(before.used@[k].addr == b.0);
                                    assert(holds_block(before.used@, b.0, b.1));
                                }
                            }
                            if holds_block(before.used@, b.0, b.1) {
                                let k = choose|k: int|
                                    0 <= k < before.used@.len() && (#[trigger] before.used@[k]).addr
                                        == b.0 && before.used@[k].size == b.1;
                                assert(self.used@[k].addr == b.0);
                                assert(holds_block(self.used@, b.0, b.1));
                            }
                            if b == (p as int, size as int) {
                                assert(self.used@[n].addr == b.0);
                                assert(holds_block(self.used@, b.0, b.1));
                            }
                        }
                    }
                }
                Some(p)
            },
        }
    }

    /// Takes back the live block `[ptr, ptr + layout.size)`.
    ///
    /// The caller returns only what this allocator handed out, with the
    /// layout it was asked for; `IsLive` tells whether that is so.
    pub fn Dealloc(&mut self, ptr: u64, layout: Layout)
        requires
            old(self).wf(),
            old(self)@.live.contains((ptr as int, layout.size as int)),
        ensures
            final(self).wf(),
            final(self).is_initialized() == old(self).is_initialized(),
            final(self)@ == old(self)@.release(ptr as int, layout.size as int),
    {
        let ghost before = *self;
        let size = layout.size;
        let found = self.find_block(ptr, size);
        let i = found.unwrap();
        self.used.remove(i);
        proof {
            let n = self.used@.len() as int;
            assert forall|k: int| 0 <= k < n implies #[trigger] self.used@[k] == before.used@[if k
                < i {
                k
            } else {
                k + 1
            }] by {}
            assert(before.used@[i as int].size > 0);
            assert forall|a: int| ptr <= a < ptr + size implies !self.free.covers(a) by {
                assert(before.used@[i as int].has(a));
            }
            assert(before.used@[i as int].end() <= before.end);
        }
        self.free.Insert(ptr, size);
        proof {
            let n = self.used@.len() as int;
            let src = |k: int|
                if k < i {
                    k
                } else {
                    k + 1
                };
            assert forall|k: int| 0 <= k < n implies #[trigger] self.used@[k] == before.used@[src(
                k,
            )] by {}
            assert forall|a: int| self.free.covers(a) implies self.start <= a < self.end by {
                assert(self.free.covers(a) <==> before.free.covers(a) || ptr <= a < ptr + size);
            }
            assert forall|k: int|
                0 <= k < self.used@.len() implies (#[trigger] self.used@[k]).size > 0 && self.start
                <= self.used@[k].addr && self.used@[k].end() <= self.end by {
                assert(self.used@[k] == before.used@[src(k)]);
            }
            assert forall|k: int, a: int|
                0 <= k < self.used@.len() && #[trigger] self.used@[k].has(a) implies !covered(
                self.free@,
                a,
            ) by {
                assert(self.used@[k] == before.used@[src(k)]);
                assert(before.used@[src(k)].has(a));
                assert(!covered(before.free@, a));
                assert(before.used@[src(k)].end() <= before.used@[i as int].addr
                    || before.used@[i as int].end() <= before.used@[src(k)].addr);
                assert(self.free.covers(a) <==> before.free.covers(a) || ptr <= a < ptr + size);
            }
            assert forall|j: int, k: int|
                0 <= j < self.used@.len() && 0 <= k < self.used@.len() && j != k implies (
            #[trigger] self.used@[j]).end() <= (#[trigger] self.used@[k]).addr
                || self.used@[k].end() <= self.used@[j].addr by {
                assert(self.used@[j] == before.used@[src(j)]);
                assert(self.used@[k] == before.used@[src(k)]);
            }
            assert(self@.free =~= before@.free.union(span_set(ptr as int, size as int))) by {
                assert forall|a: int|
                    self@.free.contains(a) <==> before@.free.union(
                        span_set(ptr as int, size as int),
                    ).contains(a) by {
                    assert(self.free.covers(a) <==> before.free.covers(a) || ptr <= a < ptr
                        + size);
                }
            }
            assert(self@.live =~= before@.live.remove((ptr as int, size as int))) by {
                assert forall|b: (int, int)|
                    self@.live.contains(b) <==> before@.live.remove(
                        (ptr as int, size as int),
                    ).contains(b) by {
                    if holds_block(self.used@, b.0, b.1) {
                        let k = choose|k: int|
                            0 <= k < self.used@.len() && (#[trigger] self.used@[k]).addr == b.0
                                && self.used@[k].size == b.1;
                        assert(self.used@[k] == before.used@[src(k)]);
                        assert(before.used@[src(k)].addr == b.0);
                        assert(holds_block(before.used@, b.0, b.1));
                        if b == (ptr as int, size as int) {
                            // two entries for one block would share its bytes
                            assert(before.used@[src(k)].end() <= before.used@[i as int].addr
                                || before.used@[i as int].end() <= before.used@[src(k)].addr);
                        }
                    }
                    if holds_block(before.used@, b.0, b.1) && b != (ptr as int, size as int) {
                        let k = choose|k: int|
                            0 <= k < before.used@.len() && (#[trigger] before.used@[k]).addr == b.0
                                && before.used@[k].size == b.1;
                        assert(k != i);
                        let t = if k < i {
                            k
                        } else {
                            k - 1
                        };
                        assert(self.used@[t] == before.used@[src(t)]);
                        assert(self.used@[t].addr == b.0);
                        assert(holds_block(self.used@, b.0, b.1));
                    }
                }
            }
        }
    }
}

} // verus!
