//! Lists of address spans, kept sorted by address with a gap between any two
//! neighbours, so that every run of free bytes lies inside one span.

use vstd::prelude::*;

verus! {

/// The addresses `addr, .., addr + size - 1`.
#[derive(Clone, Copy, Debug, PartialEq, Eq)]
pub struct Span {
    pub addr: u64,
    pub size: u64,
}

impl Span {
    /// The first address behind the span.
    pub open spec fn end(self) -> int {
        self.addr + self.size
    }

    /// Whether the span holds the address `a`.
    pub open spec fn has(self, a: int) -> bool {
        self.addr <= a < self.addr + self.size
    }
}

/// Whether one of the spans holds the address `a`.
pub open spec fn covered(spans: Seq<Span>, a: int) -> bool {
    exists|i: int| 0 <= i < spans.len() && #[trigger] spans[i].has(a)
}

/// No span is empty or runs past the end of the address space; the spans are
/// in ascending order and at least one byte lies between any two of them.
pub open spec fn sorted_apart(spans: Seq<Span>) -> bool {
    &&& forall|i: int|
        0 <= i < spans.len() ==> (#[trigger] spans[i]).size > 0 && spans[i].end() <= u64::MAX
    &&& forall|i: int, j: int|
        0 <= i < j < spans.len() ==> (#[trigger] spans[i]).end() < (#[trigger] spans[j]).addr
}

/// The lowest multiple of `align` that is not below `a`.
pub open spec fn align_up(a: int, align: int) -> int {
    if a % align == 0 {
        a
    } else {
        a + (align - a % align)
    }
}

/// `align_up` yields a multiple of `align`, less than `align` above `a`.
pub proof fn lemma_align_up(a: int, align: int)
    requires
        a >= 0,
        align > 0,
    ensures
        align_up(a, align) % align == 0,
        a <= align_up(a, align) < a + align,
{
    let r = a % align;
    assert(0 <= r < align) by (nonlinear_arith)
        requires
            r == a % align,
            align > 0,
    ;
    if r != 0 {
        assert((a + (align - r)) % align == 0) by (nonlinear_arith)
            requires
                r == a % align,
                align > 0,
        ;
    }
}

/// No multiple of `align` lies between `a` and `align_up(a, align)`.
pub proof fn lemma_align_up_least(a: int, align: int, q: int)
    requires
        a >= 0,
        align > 0,
        q >= a,
        q % align == 0,
    ensures
        align_up(a, align) <= q,
{
    lemma_align_up(a, align);
    let p = align_up(a, align);
    if q < p {
        assert(false) by (nonlinear_arith)
            requires
                p % align == 0,
                q % align == 0,
                align > 0,
                q < p,
                p - q < align,
        ;
    }
}

/// A run of covered addresses lies inside a single span.
pub proof fn lemma_run_in_one_span(spans: Seq<Span>, p: int, n: int) -> (i: int)
    requires
        sorted_apart(spans),
        n > 0,
        forall|a: int| p <= a < p + n ==> covered(spans, a),
    ensures
        0 <= i < spans.len(),
        spans[i].addr <= p,
        p + n <= spans[i].end(),
{
    assert(covered(spans, p));
    let i = choose|i: int| 0 <= i < spans.len() && #[trigger] spans[i].has(p);
    if p + n > spans[i].end() {
        let e = spans[i].end();
        assert(covered(spans, e));
        let k = choose|k: int| 0 <= k < spans.len() && #[trigger] spans[k].has(e);
        if k < i {
            assert(spans[k].end() < spans[i].addr);
        } else if k > i {
            assert(spans[i].end() < spans[k].addr);
        }
        assert(false);
    }
    i
}

/// Whether every address of `[p, p + n)` lies in one of the spans.
pub open spec fn run_covered(spans: Seq<Span>, p: int, n: int) -> bool {
    forall|a: int| p <= a < p + n ==> covered(spans, a)
}

/// A list of spans in ascending order, with a gap between any two of them.
pub struct SpanList {
    spans: Vec<Span>,
}

impl View for SpanList {
    type V = Seq<Span>;

    closed spec fn view(&self) -> Seq<Span> {
        self.spans@
    }
}

impl SpanList {
    /// The representation invariant of the list.
    pub open spec fn wf(&self) -> bool {
        sorted_apart(self@)
    }

    /// Whether one of the spans holds the address `a`.
    pub open spec fn covers(&self, a: int) -> bool {
        covered(self@, a)
    }

    /// The empty list.
    pub fn New() -> (l: Self)
        ensures
            l.wf(),
            l@ == Seq::<Span>::empty(),
            forall|a: int| !l.covers(a),
    {
        SpanList { spans: Vec::new() }
    }

    /// The number of spans.
    pub fn Len(&self) -> (n: usize)
        ensures
            n == self@.len(),
    {
        self.spans.len()
    }

    /// The `i`-th span, counted from the lowest address.
    pub fn Get(&self, i: usize) -> (s: Span)
        requires
            i < self@.len(),
        ensures
            s == self@[i as int],
    {
        self.spans[i]
    }

    /// Finds the lowest address that is a multiple of `align` and starts a
    /// run of `size` covered bytes, together with the span that holds the run.
    pub fn FindFit(&self, size: u64, align: u64) -> (r: Option<(usize, u64)>)
        requires
            self.wf(),
            size > 0,
            align > 0,
        ensures
            match r {
                Some((i, p)) => {
                    &&& i < self@.len()
                    &&& self@[i as int].addr <= p
                    &&& p + size <= self@[i as int].end()
                    &&& (p as int) % (align as int) == 0
                    &&& forall|q: int|
                        q % (align as int) == 0 && run_covered(self@, q, size as int) ==> p <= q
                },
                None => forall|q: int|
                    !(q % (align as int) == 0 && run_covered(self@, q, size as int)),
            },
    {
        let n = self.spans.len();
        let mut i: usize = 0;
        while i < n
            invariant
                self.wf(),
                n == self@.len(),
                i <= n,
                size > 0,
                align > 0,
                forall|k: int|
                    0 <= k < i ==> align_up((#[trigger] self@[k]).addr as int, align as int) + size
                        > self@[k].end(),
            decreases n - i,
        {
            let span = self.spans[i];
            proof {
                lemma_align_up(span.addr as int, align as int);
            }
            let rem = span.addr % align;
            let pad = if rem == 0 {
                0
            } else {
                align - rem
            };
            assert(span.addr + pad == align_up(span.addr as int, align as int));
            if pad < span.size && size <= span.size - pad {
                let p = span.addr + pad;
                proof {
                    let spans = self@;
                    assert forall|q: int|
                        q % (align as int) == 0 && run_covered(spans, q, size as int) implies p
                        <= q by {
                        let j = lemma_run_in_one_span(spans, q, size as int);
                        lemma_align_up_least(spans[j].addr as int, align as int, q);
                        if j < i {
                            assert(align_up(spans[j].addr as int, align as int) + size
                                > spans[j].end());
                        } else if j > i {
                            assert(spans[i as int].end() < spans[j].addr);
                        }
                    }
                }
                return Some((i, p));
            }
            i = i + 1;
        }
        proof {
            let spans = self@;
            assert forall|q: int|
                !(q % (align as int) == 0 && run_covered(spans, q, size as int)) by {
                if q % (align as int) == 0 && run_covered(spans, q, size as int) {
                    let j = lemma_run_in_one_span(spans, q, size as int);
                    lemma_align_up_least(spans[j].addr as int, align as int, q);
                    assert(align_up(spans[j].addr as int, align as int) + size > spans[j].end());
                }
            }
        }
        None
    }

    /// Whether a byte of `[addr, addr + size)` lies in one of the spans.
    pub fn Overlaps(&self, addr: u64, size: u64) -> (b: bool)
        requires
            self.wf(),
            addr + size <= u64::MAX,
        ensures
            b == exists|a: int| addr <= a < addr + size && self.covers(a),
    {
        if size == 0 {
            return false;
        }
        let n = self.spans.len();
        let limit = addr + size;
        let mut i: usize = 0;
        while i < n
            invariant
                self.wf(),
                n == self@.len(),
                i <= n,
                limit == addr + size,
                size > 0,
                forall|k: int|
                    0 <= k < i ==> (#[trigger] self@[k]).end() <= addr || limit <= self@[k].addr,
            decreases n - i,
        {
            let span = self.spans[i];
            if span.addr < limit && addr < span.addr + span.size {
                proof {
                    let a = if addr < span.addr {
                        span.addr as int
                    } else {
                        addr as int
                    };
                    assert(self@[i as int].has(a));
                    assert(addr <= a < addr + size && self.covers(a));
                }
                return true;
            }
            i = i + 1;
        }
        proof {
            let spans = self@;
            assert forall|a: int| addr <= a < addr + size implies !covered(spans, a) by {
                if covered(spans, a) {
                    let k = choose|k: int| 0 <= k < spans.len() && #[trigger] spans[k].has(a);
                    assert(spans[k].end() <= addr || limit <= spans[k].addr);
                }
            }
        }
        false
    }

    /// Takes the bytes `[p, p + size)` out of the `i`-th span, which holds
    /// them all.
    pub fn Carve(&mut self, i: usize, p: u64, size: u64)
        requires
            old(self).wf(),
            i < old(self)@.len(),
            size > 0,
            old(self)@[i as int].addr <= p,
            p + size <= old(self)@[i as int].end(),
        ensures
            final(self).wf(),
            forall|a: int|
                final(self).covers(a) <==> old(self).covers(a) && !(p <= a < p + size),
    {
        let ghost s0 = self@;
        let span = self.spans[i];
        let before = p - span.addr;
        let after = (span.addr + span.size) - (p + size);
        if before == 0 && after == 0 {
            self.spans.remove(i);
            proof {
                let s1 = self@;
                assert forall|k: int| 0 <= k < s1.len() implies #[trigger] s1[k] == s0[if k < i {
                    k
                } else {
                    k + 1
                }] by {}
                lemma_carved(s0, s1, i as int, p as int, size as int, 0);
            }
        } else if before == 0 {
            self.spans.set(i, Span { addr: p + size, size: after });
            proof {
                lemma_carved(s0, self@, i as int, p as int, size as int, 1);
            }
        } else if after == 0 {
            self.spans.set(i, Span { addr: span.addr, size: before });
            proof {
                lemma_carved(s0, self@, i as int, p as int, size as int, 1);
            }
        } else {
            self.spans.set(i, Span { addr: span.addr, size: before });
            assert(i < self.spans.len());
            self.spans.insert(i + 1, Span { addr: p + size, size: after });
            proof {
                let s1 = self@;
                assert(s1[i as int] == Span { addr: span.addr, size: before });
                assert(s1[i + 1] == Span { addr: (p + size) as u64, size: after });
                lemma_carved(s0, s1, i as int, p as int, size as int, 2);
            }
        }
    }

    /// Adds the bytes `[addr, addr + size)`, none of which lies in a span
    /// yet, and joins them with the spans that they touch.
    pub fn Insert(&mut self, addr: u64, size: u64)
        requires
            old(self).wf(),
            size > 0,
            addr + size <= u64::MAX,
            forall|a: int| addr <= a < addr + size ==> !old(self).covers(a),
        ensures
            final(self).wf(),
            forall|a: int|
                final(self).covers(a) <==> old(self).covers(a) || addr <= a < addr + size,
    {
        let ghost s0 = self@;
        let n = self.spans.len();
        let mut idx: usize = 0;
        while idx < n && self.spans[idx].addr < addr
            invariant
                self@ == s0,
                n == s0.len(),
                idx <= n,
                forall|k: int| 0 <= k < idx ==> (#[trigger] s0[k]).addr < addr,
            decreases n - idx,
        {
            idx = idx + 1;
        }
        proof {
            assert forall|a: int| addr <= a < addr + size implies !covered(s0, a) by {
                assert(!old(self).covers(a));
            }
            lemma_gap(s0, addr as int, size as int, idx as int);
        }
        let joins_prev = idx > 0 && self.spans[idx - 1].addr + self.spans[idx - 1].size == addr;
        let joins_next = idx < n && addr + size == self.spans[idx].addr;
        if joins_prev && joins_next {
            let prev = self.spans[idx - 1];
            let next = self.spans[idx];
            self.spans.set(idx - 1, Span { addr: prev.addr, size: prev.size + size + next.size });
            self.spans.remove(idx);
            proof {
                let s1 = self@;
                assert forall|k: int| 0 <= k < s1.len() && k != idx - 1 implies #[trigger] s1[k]
                    == s0[if k < idx {
                    k
                } else {
                    k + 1
                }] by {}
                lemma_inserted(s0, s1, addr as int, size as int, idx as int, 0);
            }
        } else if joins_prev {
            let prev = self.spans[idx - 1];
            self.spans.set(idx - 1, Span { addr: prev.addr, size: prev.size + size });
            proof {
                lemma_inserted(s0, self@, addr as int, size as int, idx as int, 1);
            }
        } else if joins_next {
            let next = self.spans[idx];
            self.spans.set(idx, Span { addr, size: size + next.size });
            proof {
                lemma_inserted(s0, self@, addr as int, size as int, idx as int, 2);
            }
        } else {
            self.spans.insert(idx, Span { addr, size });
            proof {
                let s1 = self@;
                assert(s1[idx as int] == Span { addr, size });
                lemma_inserted(s0, s1, addr as int, size as int, idx as int, 3);
            }
        }
    }
}

/// How the spans `s1` arise from `s0` when `[p, p + size)` is taken out of
/// `s0[i]`: with `grow == 0` the span is dropped, with `grow == 1` it is
/// shortened at one end, with `grow == 2` it is split in two.
spec fn carved_from(s0: Seq<Span>, s1: Seq<Span>, i: int, p: int, size: int, grow: int) -> bool {
    &&& 0 <= i < s0.len()
    &&& 0 <= grow <= 2
    &&& s1.len() == s0.len() + grow - 1
    &&& forall|k: int| 0 <= k < i ==> #[trigger] s1[k] == s0[k]
    &&& forall|k: int| i + grow <= k < s1.len() ==> #[trigger] s1[k] == s0[k - grow + 1]
    &&& grow == 1 ==> {
        ||| (s1[i].addr == p + size && s1[i].end() == s0[i].end() && s0[i].addr == p)
        ||| (s1[i].addr == s0[i].addr && s1[i].end() == p && s0[i].end() == p + size)
    }
    &&& grow == 1 ==> s1[i].size > 0
    &&& grow == 0 ==> s0[i].addr == p && s0[i].end() == p + size
    &&& grow == 2 ==> {
        &&& s1[i].addr == s0[i].addr
        &&& s1[i].end() == p
        &&& s1[i].size > 0
        &&& s1[i + 1].addr == p + size
        &&& s1[i + 1].end() == s0[i].end()
        &&& s1[i + 1].size > 0
    }
}

proof fn lemma_carved(s0: Seq<Span>, s1: Seq<Span>, i: int, p: int, size: int, grow: int)
    requires
        sorted_apart(s0),
        size > 0,
        0 <= i < s0.len(),
        s0[i].addr <= p,
        p + size <= s0[i].end(),
        carved_from(s0, s1, i, p, size, grow),
    ensures
        sorted_apart(s1),
        forall|a: int| covered(s1, a) <==> covered(s0, a) && !(p <= a < p + size),
{
    let src = |k: int|
        if k < i {
            k
        } else if k < i + grow {
            i
        } else {
            k - grow + 1
        };
    assert forall|k: int| 0 <= k < s1.len() implies 0 <= src(k) < s0.len() && (#[trigger] s1[k]).addr
        >= s0[src(k)].addr && s1[k].end() <= s0[src(k)].end() && s1[k].size > 0 by {
        if k < i {
            assert(s1[k] == s0[k]);
        } else if k >= i + grow {
            assert(s1[k] == s0[k - grow + 1]);
        }
    }
    assert forall|j: int, k: int| 0 <= j < k < s1.len() implies (#[trigger] s1[j]).end() < (
    #[trigger] s1[k]).addr by {
        if src(j) < src(k) {
            assert(s0[src(j)].end() < s0[src(k)].addr);
        }
    }
    assert forall|a: int| covered(s1, a) implies covered(s0, a) && !(p <= a < p + size) by {
        let k = choose|k: int| 0 <= k < s1.len() && #[trigger] s1[k].has(a);
        assert(s0[src(k)].has(a));
        if src(k) < i {
            assert(s0[src(k)].end() < s0[i].addr);
        } else if src(k) > i {
            assert(s0[i].end() < s0[src(k)].addr);
        }
    }
    assert forall|a: int| covered(s0, a) && !(p <= a < p + size) implies covered(s1, a) by {
        let k = choose|k: int| 0 <= k < s0.len() && #[trigger] s0[k].has(a);
        if k < i {
            assert(s1[k] == s0[k]);
            assert(s1[k].has(a));
        } else if k > i {
            assert(s1[k + grow - 1] == s0[k]);
            assert(s1[k + grow - 1].has(a));
        } else if grow == 1 {
            assert(s1[i].has(a));
        } else if grow == 2 {
            if a < p {
                assert(s1[i].has(a));
            } else {
                assert(s1[i + 1].has(a));
            }
        }
    }
}

/// Where the new bytes `[addr, addr + size)` go: in front of `s[idx]`, with
/// every earlier span ending at or before `addr` and every later one
/// starting at or behind `addr + size`.
proof fn lemma_gap(s: Seq<Span>, addr: int, size: int, idx: int)
    requires
        sorted_apart(s),
        size > 0,
        0 <= idx <= s.len(),
        forall|a: int| addr <= a < addr + size ==> !covered(s, a),
        forall|k: int| 0 <= k < idx ==> (#[trigger] s[k]).addr < addr,
        idx < s.len() ==> s[idx].addr >= addr,
    ensures
        forall|k: int| 0 <= k < idx ==> (#[trigger] s[k]).end() <= addr,
        forall|k: int| idx <= k < s.len() ==> (#[trigger] s[k]).addr >= addr + size,
{
    assert forall|k: int| 0 <= k < idx implies (#[trigger] s[k]).end() <= addr by {
        if s[k].end() > addr {
            assert(s[k].has(addr));
            assert(covered(s, addr));
        }
    }
    assert forall|k: int| idx <= k < s.len() implies (#[trigger] s[k]).addr >= addr + size by {
        if idx < k {
            assert(s[idx].end() < s[k].addr);
        }
        if s[k].addr < addr + size {
            assert(s[k].has(s[k].addr as int));
            assert(covered(s, s[k].addr as int));
        }
    }
}

/// How the spans `s1` arise from `s0` when `[addr, addr + size)` is added in
/// front of `s0[idx]`: with `mode == 0` the new bytes join both neighbours
/// into one span, with `mode == 1` they extend the span before them, with
/// `mode == 2` the span behind them, and with `mode == 3` they form a span of
/// their own.
spec fn inserted_into(
    s0: Seq<Span>,
    s1: Seq<Span>,
    addr: int,
    size: int,
    idx: int,
    mode: int,
) -> bool {
    &&& 0 <= idx <= s0.len()
    &&& 0 <= mode <= 3
    &&& mode == 0 ==> {
        &&& 0 < idx < s0.len()
        &&& s1.len() == s0.len() - 1
        &&& s0[idx - 1].end() == addr
        &&& s0[idx].addr == addr + size
        &&& s1[idx - 1].addr == s0[idx - 1].addr
        &&& s1[idx - 1].end() == s0[idx].end()
        &&& forall|k: int| 0 <= k < idx - 1 ==> #[trigger] s1[k] == s0[k]
        &&& forall|k: int| idx <= k < s1.len() ==> #[trigger] s1[k] == s0[k + 1]
    }
    &&& mode == 1 ==> {
        &&& 0 < idx
        &&& s1.len() == s0.len()
        &&& s0[idx - 1].end() == addr
        &&& idx < s0.len() ==> s0[idx].addr > addr + size
        &&& s1[idx - 1].addr == s0[idx - 1].addr
        &&& s1[idx - 1].end() == addr + size
        &&& forall|k: int| 0 <= k < s1.len() && k != idx - 1 ==> #[trigger] s1[k] == s0[k]
    }
    &&& mode == 2 ==> {
        &&& idx < s0.len()
        &&& s1.len() == s0.len()
        &&& idx > 0 ==> s0[idx - 1].end() < addr
        &&& s0[idx].addr == addr + size
        &&& s1[idx].addr == addr
        &&& s1[idx].end() == s0[idx].end()
        &&& forall|k: int| 0 <= k < s1.len() && k != idx ==> #[trigger] s1[k] == s0[k]
    }
    &&& mode == 3 ==> {
        &&& s1.len() == s0.len() + 1
        &&& idx > 0 ==> s0[idx - 1].end() < addr
        &&& idx < s0.len() ==> s0[idx].addr > addr + size
        &&& s1[idx].addr == addr
        &&& s1[idx].end() == addr + size
        &&& forall|k: int| 0 <= k < idx ==> #[trigger] s1[k] == s0[k]
        &&& forall|k: int| idx < k < s1.len() ==> #[trigger] s1[k] == s0[k - 1]
    }
}

proof fn lemma_inserted(s0: Seq<Span>, s1: Seq<Span>, addr: int, size: int, idx: int, mode: int)
    requires
        sorted_apart(s0),
        size > 0,
        addr + size <= u64::MAX,
        0 <= idx <= s0.len(),
        forall|k: int| 0 <= k < idx ==> (#[trigger] s0[k]).end() <= addr,
        forall|k: int| idx <= k < s0.len() ==> (#[trigger] s0[k]).addr >= addr + size,
        inserted_into(s0, s1, addr, size, idx, mode),
    ensures
        sorted_apart(s1),
        forall|a: int| covered(s1, a) <==> covered(s0, a) || addr <= a < addr + size,
{
    // For each span of `s1`, the lowest and the highest span of `s0` inside it.
    let lo = |k: int|
        if mode == 0 {
            if k < idx {
                k
            } else {
                k + 1
            }
        } else if mode == 3 {
            if k <= idx {
                k
            } else {
                k - 1
            }
        } else {
            k
        };
    assert forall|k: int| 0 <= k < s1.len() implies (#[trigger] s1[k]).size > 0 && s1[k].end()
        <= u64::MAX by {
        if mode == 0 {
            if k < idx - 1 {
                assert(s1[k] == s0[k]);
            } else if k >= idx {
                assert(s1[k] == s0[k + 1]);
            } else {
                assert(s0[idx].size > 0);
            }
        } else if mode == 1 {
            if k != idx - 1 {
                assert(s1[k] == s0[k]);
            } else {
                assert(s0[idx - 1].size > 0);
            }
        } else if mode == 2 {
            if k != idx {
                assert(s1[k] == s0[k]);
            } else {
                assert(s0[idx].size > 0);
            }
        } else {
            if k < idx {
                assert(s1[k] == s0[k]);
            } else if k > idx {
                assert(s1[k] == s0[k - 1]);
            }
        }
    }
    assert forall|j: int, k: int| 0 <= j < k < s1.len() implies (#[trigger] s1[j]).end() < (
    #[trigger] s1[k]).addr by {
        lemma_inserted_order(s0, s1, addr, size, idx, mode, j, k);
    }
    assert forall|a: int| covered(s1, a) implies covered(s0, a) || addr <= a < addr + size by {
        let k = choose|k: int| 0 <= k < s1.len() && #[trigger] s1[k].has(a);
        if !(addr <= a < addr + size) {
            if mode == 0 {
                if k < idx - 1 {
                    assert(s0[k].has(a));
                } else if k >= idx {
                    assert(s0[k + 1].has(a));
                } else if a < addr {
                    assert(s0[idx - 1].has(a));
                } else {
                    assert(s0[idx].has(a));
                }
            } else if mode == 1 {
                if k != idx - 1 {
                    assert(s0[k].has(a));
                } else {
                    assert(s0[idx - 1].has(a));
                }
            } else if mode == 2 {
                if k != idx {
                    assert(s0[k].has(a));
                } else {
                    assert(s0[idx].has(a));
                }
            } else {
                if k < idx {
                    assert(s0[k].has(a));
                } else if k > idx {
                    assert(s0[k - 1].has(a));
                }
            }
        }
    }
    assert forall|a: int| covered(s0, a) || addr <= a < addr + size implies covered(s1, a) by {
        if addr <= a < addr + size {
            if mode == 0 || mode == 1 {
                assert(s1[idx - 1].has(a));
            } else {
                assert(s1[idx].has(a));
            }
        } else {
            let k = choose|k: int| 0 <= k < s0.len() && #[trigger] s0[k].has(a);
            if mode == 0 {
                if k < idx - 1 {
                    assert(s1[k] == s0[k]);
                    assert(s1[k].has(a));
                } else if k > idx {
                    assert(s1[k - 1] == s0[k]);
                    assert(s1[k - 1].has(a));
                } else {
                    assert(s1[idx - 1].has(a));
                }
            } else if mode == 1 {
                if k != idx - 1 {
                    assert(s1[k] == s0[k]);
                }
                assert(s1[k].has(a));
            } else if mode == 2 {
                if k != idx {
                    assert(s1[k] == s0[k]);
                }
                assert(s1[k].has(a));
            } else {
                if k < idx {
                    assert(s1[k] == s0[k]);
                    assert(s1[k].has(a));
                } else {
                    assert(s1[k + 1] == s0[k]);
                    assert(s1[k + 1].has(a));
                }
            }
        }
    }
}

proof fn lemma_inserted_order(
    s0: Seq<Span>,
    s1: Seq<Span>,
    addr: int,
    size: int,
    idx: int,
    mode: int,
    j: int,
    k: int,
)
    requires
        sorted_apart(s0),
        size > 0,
        0 <= idx <= s0.len(),
        forall|k: int| 0 <= k < idx ==> (#[trigger] s0[k]).end() <= addr,
        forall|k: int| idx <= k < s0.len() ==> (#[trigger] s0[k]).addr >= addr + size,
        inserted_into(s0, s1, addr, size, idx, mode),
        0 <= j < k < s1.len(),
    ensures
        s1[j].end() < s1[k].addr,
{
    if mode == 0 {
        // s1[idx - 1] spans s0[idx - 1] .. s0[idx]
        let hi = if j < idx - 1 {
            j
        } else {
            j + 1
        };
        let lo = if k < idx {
            k
        } else {
            k + 1
        };
        if j < idx - 1 {
            assert(s1[j] == s0[j]);
        } else if j >= idx {
            assert(s1[j] == s0[j + 1]);
        }
        if k < idx - 1 {
            assert(s1[k] == s0[k]);
        } else if k >= idx {
            assert(s1[k] == s0[k + 1]);
        }
        assert(s1[j].end() == s0[hi].end());
        assert(s1[k].addr == s0[lo].addr);
        assert(s0[hi].end() < s0[lo].addr);
    } else if mode == 1 {
        if j != idx - 1 {
            assert(s1[j] == s0[j]);
        }
        if k != idx - 1 {
            assert(s1[k] == s0[k]);
        }
        if j == idx - 1 {
            assert(s0[idx].end() > s0[idx].addr);
            if k > idx {
                assert(s0[idx].end() < s0[k].addr);
            }
        } else {
            assert(s0[j].end() < s0[k].addr);
        }
    } else if mode == 2 {
        if j != idx {
            assert(s1[j] == s0[j]);
        }
        if k != idx {
            assert(s1[k] == s0[k]);
        }
        if k == idx {
            assert(s0[idx - 1].size > 0);
            if j < idx - 1 {
                assert(s0[j].end() < s0[idx - 1].addr);
            }
        } else {
            assert(s0[j].end() < s0[k].addr);
        }
    } else {
        if j < idx {
            assert(s1[j] == s0[j]);
        } else if j > idx {
            assert(s1[j] == s0[j - 1]);
        }
        if k < idx {
            assert(s1[k] == s0[k]);
        } else if k > idx {
            assert(s1[k] == s0[k - 1]);
        }
        if j < idx && k > idx {
            assert(s0[j].end() <= addr);
            assert(s0[k - 1].addr >= addr + size);
        } else if j == idx {
            assert(s0[idx].size > 0);
            if k - 1 > idx {
                assert(s0[idx].end() < s0[k - 1].addr);
            }
        } else if k == idx {
            assert(s0[idx - 1].size > 0);
            if j < idx - 1 {
                assert(s0[j].end() < s0[idx - 1].addr);
            }
        } else if k < idx {
            assert(s0[j].end() < s0[k].addr);
        } else {
            assert(s0[j - 1].end() < s0[k - 1].addr);
        }
    }
}

} // verus!
