//! The mathematical model of one region's heap: which bytes are free and
//! which blocks are live. The allocator's contracts and the laws about it
//! are stated over this model.

use vstd::prelude::*;

verus! {

/// The size and alignment that a request asks for.
#[derive(Clone, Copy, Debug, PartialEq, Eq)]
pub struct Layout {
    pub size: u64,
    pub align: u64,
}

/// The addresses `lo, lo + 1, .., lo + n - 1`.
pub open spec fn span_set(lo: int, n: int) -> Set<int> {
    Set::new(|a: int| lo <= a < lo + n)
}

/// The state of a region's heap.
///
/// `free` holds every address that is free; `live` holds every block that
/// was handed out and not yet returned, as a pair of address and size.
pub struct HeapModel {
    pub start: int,
    pub end: int,
    pub free: Set<int>,
    pub live: Set<(int, int)>,
}

impl HeapModel {
    /// The heap of the region `[start, end)` before anything was donated.
    pub open spec fn empty(start: int, end: int) -> HeapModel {
        HeapModel { start, end, free: Set::empty(), live: Set::empty() }
    }

    /// What holds of every heap that the allocator produces: free bytes and
    /// live blocks lie inside the region, no byte of a live block is free,
    /// and no two live blocks share a byte.
    pub open spec fn consistent(self) -> bool {
        &&& forall|a: int| self.free.contains(a) ==> self.start <= a < self.end
        &&& forall|b: (int, int)| #[trigger]
            self.live.contains(b) ==> b.1 > 0 && self.start <= b.0 && b.0 + b.1 <= self.end
        &&& forall|b: (int, int), a: int|
            self.live.contains(b) && b.0 <= a < b.0 + b.1 ==> !self.free.contains(a)
        &&& forall|b: (int, int), c: (int, int)|
            self.live.contains(b) && self.live.contains(c) && b != c ==> b.0 + b.1 <= c.0 || c.0
                + c.1 <= b.0
    }

    /// Whether a block of `size` bytes can start at `p`: `p` is a multiple of
    /// `align` and every byte of the block is free.
    pub open spec fn fits(self, p: int, size: int, align: int) -> bool {
        &&& size > 0
        &&& align > 0
        &&& p % align == 0
        &&& forall|a: int| p <= a < p + size ==> self.free.contains(a)
    }

    /// Whether `p` is the lowest address at which the block fits.
    pub open spec fn is_first_fit(self, p: int, size: int, align: int) -> bool {
        &&& self.fits(p, size, align)
        &&& forall|q: int| self.fits(q, size, align) ==> p <= q
    }

    /// The lowest address at which the block fits, if it fits anywhere.
    pub open spec fn first_fit(self, size: int, align: int) -> Option<int> {
        if exists|p: int| self.is_first_fit(p, size, align) {
            Some(choose|p: int| self.is_first_fit(p, size, align))
        } else {
            None
        }
    }

    /// The heap after the block `[p, p + size)` was handed out.
    pub open spec fn take(self, p: int, size: int) -> HeapModel {
        HeapModel {
            free: self.free.difference(span_set(p, size)),
            live: self.live.insert((p, size)),
            ..self
        }
    }

    /// The address that an allocation returns, and the heap after it. The
    /// request is served at the lowest address at which it fits; when it fits
    /// nowhere, nothing is returned and the heap stays as it is.
    pub open spec fn allocate(self, layout: Layout) -> (Option<int>, HeapModel) {
        match self.first_fit(layout.size as int, layout.align as int) {
            Some(p) => (Some(p), self.take(p, layout.size as int)),
            None => (None, self),
        }
    }

    /// The heap after the live block `[p, p + size)` was returned.
    pub open spec fn release(self, p: int, size: int) -> HeapModel {
        HeapModel {
            free: self.free.union(span_set(p, size)),
            live: self.live.remove((p, size)),
            ..self
        }
    }

    /// Whether the span `[addr, addr + size)` can be donated: it is not
    /// empty, lies inside the region, and shares no byte with the free bytes
    /// or with a live block.
    pub open spec fn accepts(self, addr: int, size: int) -> bool {
        &&& size > 0
        &&& self.start <= addr
        &&& addr + size <= self.end
        &&& forall|a: int| addr <= a < addr + size ==> !self.free.contains(a)
        &&& forall|b: (int, int)| #[trigger]
            self.live.contains(b) ==> b.0 + b.1 <= addr || addr + size <= b.0
    }

    /// The heap after an attempt to donate `[addr, addr + size)`: the span
    /// becomes free where it can be donated, and nothing changes otherwise.
    pub open spec fn donate(self, addr: int, size: int) -> HeapModel {
        if self.accepts(addr, size) {
            HeapModel { free: self.free.union(span_set(addr, size)), ..self }
        } else {
            self
        }
    }
}

/// At most one address is the lowest at which a block fits.
pub proof fn lemma_first_fit_unique(h: HeapModel, p: int, size: int, align: int)
    requires
        h.is_first_fit(p, size, align),
    ensures
        h.first_fit(size, align) == Some(p),
{
    let q = choose|q: int| h.is_first_fit(q, size, align);
    assert(h.is_first_fit(q, size, align));
    assert(p <= q && q <= p);
}

/// Where a block fits nowhere, there is no first fit.
pub proof fn lemma_no_fit(h: HeapModel, size: int, align: int)
    requires
        forall|q: int| !h.fits(q, size, align),
    ensures
        h.first_fit(size, align) is None,
{
}

/// The heap of a region to which nothing was donated is consistent.
pub proof fn law_empty_is_consistent(start: int, end: int)
    ensures
        HeapModel::empty(start, end).consistent(),
{
}

/// A donation keeps the heap consistent.
pub proof fn law_donate_keeps_consistent(h: HeapModel, addr: int, size: int)
    requires
        h.consistent(),
    ensures
        h.donate(addr, size).consistent(),
{
    let g = h.donate(addr, size);
    if h.accepts(addr, size) {
        assert forall|b: (int, int), a: int|
            g.live.contains(b) && b.0 <= a < b.0 + b.1 implies !g.free.contains(a) by {
            assert(h.live.contains(b));
        }
    }
}

/// No two live blocks ever share a byte: an allocation keeps the heap
/// consistent, and the block that it hands out lies inside the region and
/// shares no byte with a block that was live before.
pub proof fn law_allocate_keeps_blocks_apart(h: HeapModel, layout: Layout)
    requires
        h.consistent(),
    ensures
        h.allocate(layout).1.consistent(),
        h.allocate(layout).0 matches Some(p) ==> {
            &&& h.start <= p
            &&& p + layout.size <= h.end
            &&& p % (layout.align as int) == 0
            &&& !h.live.contains((p, layout.size as int))
            &&& forall|b: (int, int)| #[trigger]
                h.live.contains(b) ==> b.0 + b.1 <= p || p + layout.size <= b.0
        },
{
    let size = layout.size as int;
    let align = layout.align as int;
    match h.first_fit(size, align) {
        None => {},
        Some(p) => {
            assert(h.is_first_fit(p, size, align));
            let g = h.take(p, size);
            assert(h.free.contains(p));
            assert(h.free.contains(p + size - 1));
            assert forall|b: (int, int)| #[trigger] h.live.contains(b) implies b.0 + b.1 <= p || p
                + size <= b.0 by {
                if !(b.0 + b.1 <= p || p + size <= b.0) {
                    let a = if b.0 < p {
                        p
                    } else {
                        b.0
                    };
                    assert(h.free.contains(a));
                    assert(b.0 <= a < b.0 + b.1);
                }
            }
            if h.live.contains((p, size)) {
                assert(p <= p < p + size);
                assert(!h.free.contains(p));
            }
            assert forall|b: (int, int)| #[trigger] g.live.contains(b) implies b.1 > 0 && g.start
                <= b.0 && b.0 + b.1 <= g.end by {
                if b != (p, size) {
                    assert(h.live.contains(b));
                }
            }
            assert forall|b: (int, int), a: int|
                g.live.contains(b) && b.0 <= a < b.0 + b.1 implies !g.free.contains(a) by {
                if b != (p, size) {
                    assert(h.live.contains(b));
                }
            }
            assert forall|b: (int, int), c: (int, int)|
                g.live.contains(b) && g.live.contains(c) && b != c implies b.0 + b.1 <= c.0 || c.0
                + c.1 <= b.0 by {
                if b != (p, size) {
                    assert(h.live.contains(b));
                }
                if c != (p, size) {
                    assert(h.live.contains(c));
                }
            }
        },
    }
}

/// Returning a live block keeps the heap consistent.
pub proof fn law_release_keeps_consistent(h: HeapModel, p: int, size: int)
    requires
        h.consistent(),
        h.live.contains((p, size)),
    ensures
        h.release(p, size).consistent(),
{
    let g = h.release(p, size);
    assert forall|b: (int, int), a: int|
        g.live.contains(b) && b.0 <= a < b.0 + b.1 implies !g.free.contains(a) by {
        assert(h.live.contains(b));
        assert(b != (p, size));
    }
}

/// After the first `reserved` bytes of the region `[start, end)` were kept
/// back and the rest was donated, a request for exactly the rest succeeds
/// once, at the first address behind the reserved bytes. After it the heap
/// is exhausted: neither a request for one byte nor a second request for
/// the rest is served.
pub proof fn law_exact_fit_exhausts(start: u64, end: u64, reserved: u64)
    requires
        start + reserved < end,
    ensures
        ({
            let rest = (end - start - reserved) as u64;
            let whole = Layout { size: rest, align: 1 };
            let byte = Layout { size: 1, align: 1 };
            let h0 = HeapModel::empty(start as int, end as int);
            let h1 = h0.donate(start + reserved, rest as int);
            let h2 = h1.allocate(whole).1;
            &&& h0.accepts(start + reserved, rest as int)
            &&& h1.allocate(whole).0 == Some(start + reserved)
            &&& h2.allocate(byte).0 is None
            &&& h2.allocate(whole).0 is None
            &&& h2.allocate(byte).1 == h2
        }),
{
    let rest = (end - start - reserved) as u64;
    let lo = start + reserved;
    let whole = Layout { size: rest, align: 1 };
    let h0 = HeapModel::empty(start as int, end as int);
    assert(h0.accepts(lo, rest as int));
    let h1 = h0.donate(lo, rest as int);
    assert(lo % 1 == 0);
    assert(h1.fits(lo, rest as int, 1));
    assert forall|q: int| h1.fits(q, rest as int, 1) implies lo <= q by {
        assert(h1.free.contains(q));
    }
    lemma_first_fit_unique(h1, lo, rest as int, 1);
    let h2 = h1.allocate(whole).1;
    assert(h2 == h1.take(lo, rest as int));
    assert forall|q: int| !h2.fits(q, 1, 1) by {
        if h2.fits(q, 1, 1) {
            assert(h2.free.contains(q));
        }
    }
    assert forall|q: int| !h2.fits(q, rest as int, 1) by {
        if h2.fits(q, rest as int, 1) {
            assert(h2.free.contains(q));
        }
    }
    lemma_no_fit(h2, 1, 1);
    lemma_no_fit(h2, rest as int, 1);
}

/// Nothing leaks over an allocation and the return of its block: the heap
/// is then what it was before, and the same request is served again at the
/// same address.
pub proof fn law_block_is_reused(h: HeapModel, layout: Layout)
    requires
        h.consistent(),
        h.allocate(layout).0 is Some,
    ensures
        ({
            let p = h.allocate(layout).0.unwrap();
            let back = h.allocate(layout).1.release(p, layout.size as int);
            &&& back == h
            &&& back.allocate(layout).0 == Some(p)
        }),
{
    let size = layout.size as int;
    let p = h.allocate(layout).0.unwrap();
    law_allocate_keeps_blocks_apart(h, layout);
    assert(h.is_first_fit(p, size, layout.align as int));
    let back = h.take(p, size).release(p, size);
    assert(back.free =~= h.free) by {
        assert forall|a: int| back.free.contains(a) <==> h.free.contains(a) by {
            if p <= a < p + size {
                assert(h.free.contains(a));
            }
        }
    }
    assert(back.live =~= h.live);
}

/// One request to a heap.
pub enum HeapOp {
    Allocate(Layout),
    /// The return of the block at the address with the size; a block that is
    /// not live is not taken back.
    Release(int, int),
    /// The donation of the span at the address with the size.
    Donate(int, int),
}

/// The heap after one request.
pub open spec fn step(h: HeapModel, op: HeapOp) -> HeapModel {
    match op {
        HeapOp::Allocate(layout) => h.allocate(layout).1,
        HeapOp::Release(p, size) => if h.live.contains((p, size)) {
            h.release(p, size)
        } else {
            h
        },
        HeapOp::Donate(addr, size) => h.donate(addr, size),
    }
}

/// The heap after the requests of `ops`, one after the other.
pub open spec fn run(h: HeapModel, ops: Seq<HeapOp>) -> HeapModel
    decreases ops.len(),
{
    if ops.len() == 0 {
        h
    } else {
        run(step(h, ops[0]), ops.subrange(1, ops.len() as int))
    }
}

/// Whatever requests reach a heap, and in whatever order the lock lets the
/// threads' requests through, the heap stays consistent. So at every moment
/// any two live blocks are apart, and each lies inside the region and holds
/// no free byte.
pub proof fn law_every_history_keeps_blocks_apart(start: int, end: int, ops: Seq<HeapOp>)
    ensures
        run(HeapModel::empty(start, end), ops).consistent(),
{
    lemma_run_keeps_consistent(HeapModel::empty(start, end), ops);
}

proof fn lemma_run_keeps_consistent(h: HeapModel, ops: Seq<HeapOp>)
    requires
        h.consistent(),
    ensures
        run(h, ops).consistent(),
    decreases ops.len(),
{
    if ops.len() > 0 {
        match ops[0] {
            HeapOp::Allocate(layout) => {
                law_allocate_keeps_blocks_apart(h, layout);
            },
            HeapOp::Release(p, size) => {
                if h.live.contains((p, size)) {
                    law_release_keeps_consistent(h, p, size);
                }
            },
            HeapOp::Donate(addr, size) => {
                law_donate_keeps_consistent(h, addr, size);
            },
        }
        lemma_run_keeps_consistent(step(h, ops[0]), ops.subrange(1, ops.len() as int));
    }
}

} // verus!
