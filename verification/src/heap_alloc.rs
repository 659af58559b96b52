//! The controller of the host's heaps.
//!
//! Three regions at fixed addresses serve the host: one while the sandbox
//! starts, one that is private to the guest and one that guest and host
//! share. The controller says what has to be mapped, checks what was mapped,
//! builds an allocator in each region and routes every request to the
//! allocator that is in charge of it.
//!
//! Mapping memory is the embedding program's part: it maps what
//! `MappingPlan` asks for and hands the addresses it got to `Init`.

use crate::mem::heap_model::HeapModel;
use crate::mem::heap_model::Layout;
use crate::mem::list_allocator::ListAllocator;
use crate::memory_def::ALLOCATOR_CONTROL_SIZE;
use crate::memory_def::ATTESTATION_REQ_REQ;
use crate::memory_def::ATTESTATION_REQ_RSP;
use crate::memory_def::CPUID_PAGE;
use crate::memory_def::GHCB_OFFSET;
use crate::memory_def::GUEST_HOST_SHARED_HEAP_OFFSET;
use crate::memory_def::GUEST_HOST_SHARED_HEAP_SIZE;
use crate::memory_def::GUEST_PRIVATE_HEAP_OFFSET;
use crate::memory_def::GUEST_PRIVATE_INIT_HEAP_SIZE;
use crate::memory_def::GUEST_PRIVATE_RUNNING_HEAP_SIZE;
use crate::memory_def::HOST_INIT_HEAP_OFFSET;
use crate::memory_def::HOST_INIT_HEAP_SIZE;
use crate::memory_def::MAP_FAILED;
use crate::memory_def::PAGE_SIZE;
use crate::memory_def::PAGE_SIZE_2M;
use crate::memory_def::SECRET_PAGE;
use vstd::prelude::*;

verus! {

/// Whether the heaps are mapped with 2 MiB pages.
pub const ENABLE_HUGEPAGE: bool = false;

/// One of the three heap regions.
#[derive(Clone, Copy, Debug, PartialEq, Eq)]
pub enum HeapRegion {
    HostInit,
    GuestPrivate,
    GuestHostShared,
}

/// One request to the host's memory-mapping facility: readable and writable
/// anonymous memory, shared between the processes that map it, at exactly
/// the address `addr`.
#[derive(Clone, Copy, Debug, PartialEq, Eq)]
pub struct MapRequest {
    pub addr: u64,
    pub len: u64,
    pub shared: bool,
    pub anonymous: bool,
    pub fixed: bool,
    pub huge2m: bool,
    pub read: bool,
    pub write: bool,
}

/// Why the heaps could not be set up.
#[derive(Clone, Copy, Debug, PartialEq, Eq)]
pub enum HeapError {
    /// The number of addresses differs from the number of requests.
    PlanMismatch,
    /// The mapping facility failed on the request with this index.
    MapFailed { index: usize },
    /// The request with this index was mapped at another address than the
    /// one that the layout fixes.
    AddressMismatch { index: usize },
}

/// What came of a request for memory.
#[derive(Clone, Copy, Debug, PartialEq, Eq)]
pub enum HeapStep {
    /// The heaps are not set up: map them, call `Init` and ask again.
    MustInit,
    /// The block at this address was handed out.
    Block(u64),
    /// The heap in charge has no room for the request.
    Exhausted,
}

/// The address at which a heap region starts.
pub open spec fn region_start(r: HeapRegion) -> u64 {
    match r {
        HeapRegion::HostInit => HOST_INIT_HEAP_OFFSET,
        HeapRegion::GuestPrivate => GUEST_PRIVATE_HEAP_OFFSET,
        HeapRegion::GuestHostShared => GUEST_HOST_SHARED_HEAP_OFFSET,
    }
}

/// The number of bytes of a heap region that its allocator manages.
pub open spec fn region_size(r: HeapRegion) -> u64 {
    match r {
        HeapRegion::HostInit => HOST_INIT_HEAP_SIZE,
        HeapRegion::GuestPrivate => GUEST_PRIVATE_INIT_HEAP_SIZE,
        HeapRegion::GuestHostShared => GUEST_HOST_SHARED_HEAP_SIZE,
    }
}

/// The request for `len` bytes at `addr`.
pub open spec fn map_request(addr: u64, len: u64, huge2m: bool) -> MapRequest {
    MapRequest {
        addr,
        len,
        shared: true,
        anonymous: true,
        fixed: true,
        huge2m,
        read: true,
        write: true,
    }
}

/// What has to be mapped before the heaps can be used: the three heaps and,
/// for a confidential guest, the pages that it exchanges with its
/// hypervisor.
pub open spec fn mapping_plan(confidential: bool) -> Seq<MapRequest> {
    let heaps = seq![
        map_request(
            GUEST_PRIVATE_HEAP_OFFSET,
            (GUEST_PRIVATE_INIT_HEAP_SIZE + GUEST_PRIVATE_RUNNING_HEAP_SIZE) as u64,
            ENABLE_HUGEPAGE,
        ),
        map_request(GUEST_HOST_SHARED_HEAP_OFFSET, GUEST_HOST_SHARED_HEAP_SIZE, ENABLE_HUGEPAGE),
        map_request(HOST_INIT_HEAP_OFFSET, HOST_INIT_HEAP_SIZE, ENABLE_HUGEPAGE),
    ];
    if confidential {
        heaps + seq![
            map_request(CPUID_PAGE, PAGE_SIZE, false),
            map_request(SECRET_PAGE, PAGE_SIZE, false),
            map_request(GHCB_OFFSET, PAGE_SIZE_2M, false),
            map_request(ATTESTATION_REQ_REQ, PAGE_SIZE, false),
            map_request(ATTESTATION_REQ_RSP, PAGE_SIZE, false),
        ]
    } else {
        heaps
    }
}

/// Whether the mapping facility answered every request of `plan` with the
/// address that was asked for.
pub open spec fn all_mapped(plan: Seq<MapRequest>, mapped: Seq<u64>) -> bool {
    &&& mapped.len() == plan.len()
    &&& forall|i: int| 0 <= i < plan.len() ==> mapped[i] == (#[trigger] plan[i]).addr
}

/// Whether `i` is the first request of `plan` that was not answered with
/// the address that was asked for.
pub open spec fn first_fault(plan: Seq<MapRequest>, mapped: Seq<u64>, i: int) -> bool {
    &&& mapped.len() == plan.len()
    &&& 0 <= i < plan.len()
    &&& mapped[i] != plan[i].addr
    &&& forall|k: int| 0 <= k < i ==> mapped[k] == (#[trigger] plan[k]).addr
}

/// The outcome of checking `mapped` against `plan`.
pub open spec fn check_outcome(plan: Seq<MapRequest>, mapped: Seq<u64>, r: Result<(), HeapError>)
    -> bool {
    match r {
        Ok(()) => all_mapped(plan, mapped),
        Err(HeapError::PlanMismatch) => mapped.len() != plan.len(),
        Err(HeapError::MapFailed { index }) => first_fault(plan, mapped, index as int)
            && mapped[index as int] == MAP_FAILED,
        Err(HeapError::AddressMismatch { index }) => first_fault(plan, mapped, index as int)
            && mapped[index as int] != MAP_FAILED,
    }
}

/// The heap of a region right after it was set up: the control bytes at its
/// start are kept back, the rest is free.
pub open spec fn fresh_heap(r: HeapRegion) -> HeapModel {
    HeapModel::empty(region_start(r) as int, region_start(r) + region_size(r)).donate(
        region_start(r) + ALLOCATOR_CONTROL_SIZE,
        region_size(r) - ALLOCATOR_CONTROL_SIZE,
    )
}

/// The state of the host's heaps.
pub struct HostHeap {
    pub confidential: bool,
    pub initialized: bool,
    pub launched: bool,
    pub host_init: HeapModel,
    pub guest_private: HeapModel,
    pub shared: HeapModel,
}

impl HostHeap {
    /// The heap of the region `r`.
    pub open spec fn region(self, r: HeapRegion) -> HeapModel {
        match r {
            HeapRegion::HostInit => self.host_init,
            HeapRegion::GuestPrivate => self.guest_private,
            HeapRegion::GuestHostShared => self.shared,
        }
    }

    /// The same state with `h` as the heap of the region `r`.
    pub open spec fn with_region(self, r: HeapRegion, h: HeapModel) -> HostHeap {
        match r {
            HeapRegion::HostInit => HostHeap { host_init: h, ..self },
            HeapRegion::GuestPrivate => HostHeap { guest_private: h, ..self },
            HeapRegion::GuestHostShared => HostHeap { shared: h, ..self },
        }
    }

    /// The state before the heaps are set up.
    pub open spec fn initial(confidential: bool) -> HostHeap {
        HostHeap {
            confidential,
            initialized: false,
            launched: false,
            host_init: HeapModel::empty(0, 0),
            guest_private: HeapModel::empty(0, 0),
            shared: HeapModel::empty(0, 0),
        }
    }

    /// The state right after the heaps were set up.
    pub open spec fn set_up(self) -> HostHeap {
        HostHeap {
            confidential: self.confidential,
            initialized: true,
            launched: false,
            host_init: fresh_heap(HeapRegion::HostInit),
            guest_private: fresh_heap(HeapRegion::GuestPrivate),
            shared: fresh_heap(HeapRegion::GuestHostShared),
        }
    }

    /// The region that serves a request for memory. For a confidential
    /// guest it is the host's own heap until the guest is launched and the
    /// shared heap afterwards; otherwise it is always the guest-private heap.
    pub open spec fn alloc_region(self) -> HeapRegion {
        if !self.confidential {
            HeapRegion::GuestPrivate
        } else if !self.launched {
            HeapRegion::HostInit
        } else {
            HeapRegion::GuestHostShared
        }
    }

    /// The region that takes back the block at `addr`. For a confidential
    /// guest the address alone decides; otherwise it is always the
    /// guest-private heap.
    pub open spec fn dealloc_region(self, addr: int) -> HeapRegion {
        if !self.confidential {
            HeapRegion::GuestPrivate
        } else if in_region(HeapRegion::GuestPrivate, addr) {
            HeapRegion::GuestPrivate
        } else if in_region(HeapRegion::GuestHostShared, addr) {
            HeapRegion::GuestHostShared
        } else {
            HeapRegion::HostInit
        }
    }

    /// What holds of every state that the controller reaches.
    pub open spec fn consistent(self) -> bool {
        &&& self.host_init.consistent()
        &&& self.guest_private.consistent()
        &&& self.shared.consistent()
        &&& self.launched ==> self.initialized
        &&& self.initialized ==> forall|r: HeapRegion|
            (#[trigger] self.region(r)).start == region_start(r) && self.region(r).end
                == region_start(r) + region_size(r)
        &&& !self.initialized ==> self == HostHeap::initial(self.confidential)
    }
}

/// Whether `addr` lies in the heap region `r`.
pub open spec fn in_region(r: HeapRegion, addr: int) -> bool {
    region_start(r) <= addr < region_start(r) + region_size(r)
}

/// The address at which a heap region starts.
pub fn RegionStart(r: HeapRegion) -> (a: u64)
    ensures
        a == region_start(r),
{
    match r {
        HeapRegion::HostInit => HOST_INIT_HEAP_OFFSET,
        HeapRegion::GuestPrivate => GUEST_PRIVATE_HEAP_OFFSET,
        HeapRegion::GuestHostShared => GUEST_HOST_SHARED_HEAP_OFFSET,
    }
}

/// The number of bytes of a heap region that its allocator manages.
pub fn RegionSize(r: HeapRegion) -> (n: u64)
    ensures
        n == region_size(r),
{
    match r {
        HeapRegion::HostInit => HOST_INIT_HEAP_SIZE,
        HeapRegion::GuestPrivate => GUEST_PRIVATE_INIT_HEAP_SIZE,
        HeapRegion::GuestHostShared => GUEST_HOST_SHARED_HEAP_SIZE,
    }
}

fn request(addr: u64, len: u64, huge2m: bool) -> (r: MapRequest)
    ensures
        r == map_request(addr, len, huge2m),
{
    MapRequest {
        addr,
        len,
        shared: true,
        anonymous: true,
        fixed: true,
        huge2m,
        read: true,
        write: true,
    }
}

/// What has to be mapped before the heaps can be used, in the order in which
/// `CheckMapping` and `Init` expect the answers.
pub fn MappingPlan(confidential: bool) -> (plan: Vec<MapRequest>)
    ensures
        plan@ == mapping_plan(confidential),
{
    let mut plan: Vec<MapRequest> = Vec::new();
    plan.push(
        request(
            GUEST_PRIVATE_HEAP_OFFSET,
            GUEST_PRIVATE_INIT_HEAP_SIZE + GUEST_PRIVATE_RUNNING_HEAP_SIZE,
            ENABLE_HUGEPAGE,
        ),
    );
    plan.push(request(GUEST_HOST_SHARED_HEAP_OFFSET, GUEST_HOST_SHARED_HEAP_SIZE, ENABLE_HUGEPAGE));
    plan.push(request(HOST_INIT_HEAP_OFFSET, HOST_INIT_HEAP_SIZE, ENABLE_HUGEPAGE));
    if confidential {
        plan.push(request(CPUID_PAGE, PAGE_SIZE, false));
        plan.push(request(SECRET_PAGE, PAGE_SIZE, false));
        plan.push(request(GHCB_OFFSET, PAGE_SIZE_2M, false));
        plan.push(request(ATTESTATION_REQ_REQ, PAGE_SIZE, false));
        plan.push(request(ATTESTATION_REQ_RSP, PAGE_SIZE, false));
    }
    assert(plan@ =~= mapping_plan(confidential));
    plan
}

/// Checks the addresses that the mapping facility returned, one for each
/// request of `plan` and in the same order.
///
/// The first request that was not mapped where the layout wants it decides
/// the error: `MapFailed` where the facility returned its failure sentinel,
/// `AddressMismatch` where it returned another address.
pub fn CheckMapping(plan: &Vec<MapRequest>, mapped: &Vec<u64>) -> (r: Result<(), HeapError>)
    ensures
        check_outcome(plan@, mapped@, r),
{
    if mapped.len() != plan.len() {
        return Err(HeapError::PlanMismatch);
    }
    let n = plan.len();
    let mut i: usize = 0;
    while i < n
        invariant
            n == plan@.len(),
            n == mapped@.len(),
            i <= n,
            forall|k: int| 0 <= k < i ==> mapped@[k] == (#[trigger] plan@[k]).addr,
        decreases n - i,
    {
        let got = mapped[i];
        if got != plan[i].addr {
            if got == MAP_FAILED {
                return Err(HeapError::MapFailed { index: i });
            }
            return Err(HeapError::AddressMismatch { index: i });
        }
        i = i + 1;
    }
    Ok(())
}

/// The controller of the host's heaps.
pub struct HostAllocator {
    host_initialization_heap: u64,
    host_guest_shared_heap: u64,
    guest_private_heap: u64,
    initialized: bool,
    is_host_allocator: bool,
    is_vm_lauched: bool,
    confidential: bool,
    hostInit: ListAllocator,
    guestPrivate: ListAllocator,
    guestHostShared: ListAllocator,
}

impl View for HostAllocator {
    type V = HostHeap;

    closed spec fn view(&self) -> HostHeap {
        HostHeap {
            confidential: self.confidential,
            initialized: self.initialized,
            launched: self.is_vm_lauched,
            host_init: self.hostInit@,
            guest_private: self.guestPrivate@,
            shared: self.guestHostShared@,
        }
    }
}

/// An allocator over the region `r` with the control bytes kept back.
fn fresh_allocator(r: HeapRegion) -> (a: ListAllocator)
    ensures
        a.wf(),
        a@ == fresh_heap(r),
        !a.is_initialized(),
{
    let start = RegionStart(r);
    let size = RegionSize(r);
    let mut a = ListAllocator::New(start, start + size);
    let taken = a.Add(start + ALLOCATOR_CONTROL_SIZE, size - ALLOCATOR_CONTROL_SIZE);
    assert(taken);
    a
}

impl HostAllocator {
    /// The representation invariant.
    pub closed spec fn wf(&self) -> bool {
        &&& self.hostInit.wf()
        &&& self.guestPrivate.wf()
        &&& self.guestHostShared.wf()
        &&& self.host_initialization_heap == HOST_INIT_HEAP_OFFSET
        &&& self.host_guest_shared_heap == GUEST_HOST_SHARED_HEAP_OFFSET
        &&& self.guest_private_heap == GUEST_PRIVATE_HEAP_OFFSET
        &&& self.is_host_allocator
        &&& self@.launched ==> self@.initialized
        &&& self@.initialized ==> forall|r: HeapRegion|
            (#[trigger] self@.region(r)).start == region_start(r) && self@.region(r).end
                == region_start(r) + region_size(r)
        &&& !self@.initialized ==> self@ == HostHeap::initial(self@.confidential)
    }

    /// Every state that the controller reaches is consistent.
    pub proof fn lemma_consistent(&self)
        requires
            self.wf(),
        ensures
            self@.consistent(),
    {
        self.hostInit.lemma_consistent();
        self.guestPrivate.lemma_consistent();
        self.guestHostShared.lemma_consistent();
    }

    fn make(confidential: bool) -> (h: Self)
        ensures
            h.wf(),
            h@ == HostHeap::initial(confidential),
    {
        HostAllocator {
            host_initialization_heap: HOST_INIT_HEAP_OFFSET,
            host_guest_shared_heap: GUEST_HOST_SHARED_HEAP_OFFSET,
            guest_private_heap: GUEST_PRIVATE_HEAP_OFFSET,
            initialized: false,
            is_host_allocator: true,
            is_vm_lauched: false,
            confidential,
            hostInit: ListAllocator::New(0, 0),
            guestPrivate: ListAllocator::New(0, 0),
            guestHostShared: ListAllocator::New(0, 0),
        }
    }

    /// The controller before anything is mapped, for a guest that is not
    /// confidential.
    pub fn New() -> (h: Self)
        ensures
            h.wf(),
            h@ == HostHeap::initial(false),
    {
        Self::make(false)
    }

    /// The controller before anything is mapped, for a confidential guest.
    pub fn NewConfidential() -> (h: Self)
        ensures
            h.wf(),
            h@ == HostHeap::initial(true),
    {
        Self::make(true)
    }

    /// Whether the heaps are set up.
    pub fn IsInitialized(&self) -> (b: bool)
        ensures
            b == self@.initialized,
    {
        self.initialized
    }

    /// Whether the guest was launched.
    pub fn IsVmLaunched(&self) -> (b: bool)
        ensures
            b == self@.launched,
    {
        self.is_vm_lauched
    }

    /// Whether the controller serves a confidential guest.
    pub fn IsConfidential(&self) -> (b: bool)
        ensures
            b == self@.confidential,
    {
        self.confidential
    }

    /// Gives the heaps back to the host. Nothing is ever given back: the
    /// heaps live as long as the process, so this returns `false` and leaves
    /// the controller as it is.
    pub fn Clear(&self) -> (cleared: bool)
        ensures
            !cleared,
    {
        false
    }

    /// Whether `addr` lies in the guest-private heap.
    pub fn IsGuestPrivateHeapAddr(addr: u64) -> (b: bool)
        ensures
            b == in_region(HeapRegion::GuestPrivate, addr as int),
    {
        GUEST_PRIVATE_HEAP_OFFSET <= addr && addr - GUEST_PRIVATE_HEAP_OFFSET
            < GUEST_PRIVATE_INIT_HEAP_SIZE
    }

    /// Whether `addr` lies in the heap that guest and host share.
    pub fn IsHostGuestSharedHeapAddr(addr: u64) -> (b: bool)
        ensures
            b == in_region(HeapRegion::GuestHostShared, addr as int),
    {
        GUEST_HOST_SHARED_HEAP_OFFSET <= addr && addr - GUEST_HOST_SHARED_HEAP_OFFSET
            < GUEST_HOST_SHARED_HEAP_SIZE
    }

    /// The region that serves the next request for memory.
    pub fn AllocRegion(&self) -> (r: HeapRegion)
        ensures
            r == self@.alloc_region(),
    {
        if !self.confidential {
            HeapRegion::GuestPrivate
        } else if !self.is_vm_lauched {
            HeapRegion::HostInit
        } else {
            HeapRegion::GuestHostShared
        }
    }

    /// The region that takes back the block at `addr`.
    pub fn DeallocRegion(&self, addr: u64) -> (r: HeapRegion)
        ensures
            r == self@.dealloc_region(addr as int),
    {
        if !self.confidential {
            HeapRegion::GuestPrivate
        } else if Self::IsGuestPrivateHeapAddr(addr) {
            HeapRegion::GuestPrivate
        } else if Self::IsHostGuestSharedHeapAddr(addr) {
            HeapRegion::GuestHostShared
        } else {
            HeapRegion::HostInit
        }
    }

    /// The allocator of the heap that serves the host while the sandbox
    /// starts.
    pub fn HostInitAllocator(&self) -> (a: &ListAllocator)
        ensures
            a@ == self@.host_init,
            self.wf() ==> a.wf(),
    {
        &self.hostInit
    }

    /// The allocator of the guest-private heap.
    pub fn GuestPrivateAllocator(&self) -> (a: &ListAllocator)
        ensures
            a@ == self@.guest_private,
            self.wf() ==> a.wf(),
    {
        &self.guestPrivate
    }

    /// The allocator of the heap that guest and host share.
    pub fn GuestHostSharedAllocator(&self) -> (a: &ListAllocator)
        ensures
            a@ == self@.shared,
            self.wf() ==> a.wf(),
    {
        &self.guestHostShared
    }

    /// Sets up the heaps, once the regions of `MappingPlan` are mapped.
    ///
    /// `mapped` holds the address that the mapping facility returned for
    /// each request of the plan, in the plan's order. The heaps are set up
    /// only if every request was mapped at the address that the layout
    /// fixes; otherwise the error of `CheckMapping` comes back and nothing
    /// changes. Each heap then keeps its first `ALLOCATOR_CONTROL_SIZE`
    /// bytes back and holds the rest as free memory, and the guest counts as
    /// not launched.
    ///
    /// On a controller whose heaps are set up already, this does nothing.
    pub fn Init(&mut self, mapped: &Vec<u64>) -> (r: Result<(), HeapError>)
        requires
            old(self).wf(),
        ensures
            final(self).wf(),
            old(self)@.initialized ==> r is Ok && *final(self) == *old(self),
            !old(self)@.initialized ==> check_outcome(
                mapping_plan(old(self)@.confidential),
                mapped@,
                r,
            ),
            !old(self)@.initialized && r is Ok ==> final(self)@ == old(self)@.set_up(),
            r is Err ==> *final(self) == *old(self),
    {
        if self.initialized {
            return Ok(());
        }
        let plan = MappingPlan(self.confidential);
        match CheckMapping(&plan, mapped) {
            Err(e) => {
                return Err(e);
            },
            Ok(()) => {},
        }
        self.guestPrivate = fresh_allocator(HeapRegion::GuestPrivate);
        self.hostInit = fresh_allocator(HeapRegion::HostInit);
        self.guestHostShared = fresh_allocator(HeapRegion::GuestHostShared);
        self.initialized = true;
        self.is_vm_lauched = false;
        Ok(())
    }

    /// Records that the guest was launched. This happens once, after the
    /// heaps were set up: the call returns whether it was the one that made
    /// the step, and changes nothing otherwise.
    pub fn MarkVmLaunched(&mut self) -> (stepped: bool)
        requires
            old(self).wf(),
        ensures
            final(self).wf(),
            stepped == (old(self)@.initialized && !old(self)@.launched),
            stepped ==> final(self)@ == (HostHeap { launched: true, ..old(self)@ }),
            !stepped ==> *final(self) == *old(self),
    {
        if self.initialized && !self.is_vm_lauched {
            self.is_vm_lauched = true;
            proof {
                assert forall|r: HeapRegion|
                    (#[trigger] self@.region(r)).start == region_start(r) && self@.region(r).end
                        == region_start(r) + region_size(r) by {
                    assert(old(self)@.region(r).start == region_start(r));
                }
            }
            true
        } else {
            false
        }
    }

    /// Serves a request for memory from the region in charge.
    ///
    /// Before the heaps are set up nothing can be handed out: `MustInit`
    /// asks the caller to map the regions, call `Init` and ask again.
    /// Afterwards the request goes to the allocator of `AllocRegion`, which
    /// places the block at the lowest address at which it fits, or reports
    /// that the heap is exhausted. The other heaps stay as they are.
    pub fn Alloc(&mut self, layout: Layout) -> (r: HeapStep)
        requires
            old(self).wf(),
        ensures
            final(self).wf(),
            !old(self)@.initialized ==> r == HeapStep::MustInit && *final(self) == *old(self),
            old(self)@.initialized ==> ({
                let region = old(self)@.alloc_region();
                let served = old(self)@.region(region).allocate(layout);
                &&& final(self)@ == old(self)@.with_region(region, served.1)
                &&& match served.0 {
                    Some(p) => r == HeapStep::Block(p as u64) && 0 <= p <= u64::MAX,
                    None => r == HeapStep::Exhausted,
                }
            }),
    {
        if !self.initialized {
            return HeapStep::MustInit;
        }
        let got = match self.AllocRegion() {
            HeapRegion::HostInit => self.hostInit.Alloc(layout),
            HeapRegion::GuestPrivate => self.guestPrivate.Alloc(layout),
            HeapRegion::GuestHostShared => self.guestHostShared.Alloc(layout),
        };
        proof {
            let region = old(self)@.alloc_region();
            assert(old(self)@.region(region).start == region_start(region));
            assert(self@ == old(self)@.with_region(
                region,
                old(self)@.region(region).allocate(layout).1,
            ));
            assert forall|r: HeapRegion|
                (#[trigger] self@.region(r)).start == region_start(r) && self@.region(r).end
                    == region_start(r) + region_size(r) by {
                assert(old(self)@.region(r).start == region_start(r));
            }
        }
        match got {
            Some(p) => HeapStep::Block(p),
            None => HeapStep::Exhausted,
        }
    }

    /// Whether `[ptr, ptr + size)` is a live block of the region that takes
    /// back blocks at `ptr`.
    pub fn IsLive(&self, ptr: u64, size: u64) -> (b: bool)
        ensures
            b == self@.region(self@.dealloc_region(ptr as int)).live.contains(
                (ptr as int, size as int),
            ),
    {
        match self.DeallocRegion(ptr) {
            HeapRegion::HostInit => self.hostInit.IsLive(ptr, size),
            HeapRegion::GuestPrivate => self.guestPrivate.IsLive(ptr, size),
            HeapRegion::GuestHostShared => self.guestHostShared.IsLive(ptr, size),
        }
    }

    /// Takes back the block `[ptr, ptr + layout.size)`.
    ///
    /// The block goes to the allocator of `DeallocRegion`, which is chosen
    /// by the address and not by whether the guest was launched. The caller
    /// returns only what was handed out, with the layout that was asked for;
    /// `IsLive` tells whether that is so.
    pub fn Dealloc(&mut self, ptr: u64, layout: Layout)
        requires
            old(self).wf(),
            old(self)@.region(old(self)@.dealloc_region(ptr as int)).live.contains(
                (ptr as int, layout.size as int),
            ),
        ensures
            final(self).wf(),
            ({
                let region = old(self)@.dealloc_region(ptr as int);
                final(self)@ == old(self)@.with_region(
                    region,
                    old(self)@.region(region).release(ptr as int, layout.size as int),
                )
            }),
    {
        assert(self@.initialized);
        match self.DeallocRegion(ptr) {
            HeapRegion::HostInit => self.hostInit.Dealloc(ptr, layout),
            HeapRegion::GuestPrivate => self.guestPrivate.Dealloc(ptr, layout),
            HeapRegion::GuestHostShared => self.guestHostShared.Dealloc(ptr, layout),
        }
        proof {
            let region = old(self)@.dealloc_region(ptr as int);
            assert(self@ == old(self)@.with_region(
                region,
                old(self)@.region(region).release(ptr as int, layout.size as int),
            ));
            assert forall|r: HeapRegion|
                (#[trigger] self@.region(r)).start == region_start(r) && self@.region(r).end
                    == region_start(r) + region_size(r) by {
                assert(old(self)@.region(r).start == region_start(r));
            }
        }
    }
}

/// A block is taken back by the heap that handed it out, whether or not the
/// guest was launched in between: whatever block is live in a region, its
/// address routes to that region. For a guest that is not confidential this
/// is said of the guest-private heap, which serves all of its requests.
pub proof fn law_dealloc_finds_owner(h: HostHeap, r: HeapRegion, ptr: int, size: int)
    requires
        h.consistent(),
        h.region(r).live.contains((ptr, size)),
        h.confidential || r == HeapRegion::GuestPrivate,
    ensures
        h.dealloc_region(ptr) == r,
        (HostHeap { launched: !h.launched, ..h }).dealloc_region(ptr) == r,
{
    assert(h.initialized);
    assert(h.region(r).start == region_start(r));
    assert(in_region(r, ptr));
}

/// Whatever `Alloc` hands out is taken back by `Dealloc` at the heap it
/// came from: the block is live there, and its address routes there.
pub proof fn law_alloc_then_dealloc_routes_back(h: HostHeap, layout: Layout)
    requires
        h.consistent(),
        h.initialized,
        h.region(h.alloc_region()).allocate(layout).0 is Some,
    ensures
        ({
            let region = h.alloc_region();
            let p = h.region(region).allocate(layout).0.unwrap();
            let after = h.with_region(region, h.region(region).allocate(layout).1);
            &&& after.consistent()
            &&& after.region(region).live.contains((p, layout.size as int))
            &&& after.dealloc_region(p) == region
            &&& (HostHeap { launched: true, ..after }).dealloc_region(p) == region
        }),
{
    let region = h.alloc_region();
    let p = h.region(region).allocate(layout).0.unwrap();
    let after = h.with_region(region, h.region(region).allocate(layout).1);
    crate::mem::heap_model::law_allocate_keeps_blocks_apart(h.region(region), layout);
    assert forall|r: HeapRegion|
        (#[trigger] after.region(r)).start == region_start(r) && after.region(r).end
            == region_start(r) + region_size(r) by {
        assert(h.region(r).start == region_start(r));
    }
    assert(h.region(region).start == region_start(region));
    law_dealloc_finds_owner(after, region, p, layout.size as int);
}

/// The allocator that a virtual CPU keeps for itself, in front of the
/// region allocators.
pub struct VcpuAllocator {}

impl VcpuAllocator {
    /// Called when the virtual CPU's own allocator cannot serve a request.
    /// That is no error: the request then goes to the region allocator, so
    /// there is nothing to do.
    pub fn handleError(&self, _size: u64, _alignment: u64) {
    }
}

} // verus!
