use quark::heap_alloc::CheckMapping;
use quark::heap_alloc::HeapError;
use quark::heap_alloc::HeapRegion;
use quark::heap_alloc::HeapStep;
use quark::heap_alloc::HostAllocator;
use quark::heap_alloc::MappingPlan;
use quark::heap_alloc::RegionSize;
use quark::heap_alloc::RegionStart;
use quark::heap_alloc::VcpuAllocator;
use quark::mem::heap_model::Layout;
use quark::memory_def::ALLOCATOR_CONTROL_SIZE;
use quark::memory_def::GHCB_OFFSET;
use quark::memory_def::GUEST_HOST_SHARED_HEAP_OFFSET;
use quark::memory_def::GUEST_PRIVATE_HEAP_OFFSET;
use quark::memory_def::GUEST_PRIVATE_INIT_HEAP_SIZE;
use quark::memory_def::GUEST_PRIVATE_RUNNING_HEAP_SIZE;
use quark::memory_def::HOST_INIT_HEAP_OFFSET;
use quark::memory_def::HOST_INIT_HEAP_SIZE;
use quark::memory_def::MAP_FAILED;
use quark::memory_def::PAGE_SIZE_2M;

fn mapped_as_planned(confidential: bool) -> Vec<u64> {
    MappingPlan(confidential).iter().map(|r| r.addr).collect()
}

fn ready(confidential: bool) -> HostAllocator {
    let mut h = if confidential { HostAllocator::NewConfidential() } else { HostAllocator::New() };
    assert_eq!(h.Init(&mapped_as_planned(confidential)), Ok(()));
    h
}

#[test]
fn plan_names_three_heaps_and_the_confidential_pages() {
    let plain = MappingPlan(false);
    assert_eq!(plain.len(), 3);
    assert_eq!(plain[0].addr, GUEST_PRIVATE_HEAP_OFFSET);
    assert_eq!(plain[0].len, GUEST_PRIVATE_INIT_HEAP_SIZE + GUEST_PRIVATE_RUNNING_HEAP_SIZE);
    assert_eq!(plain[1].addr, GUEST_HOST_SHARED_HEAP_OFFSET);
    assert_eq!(plain[2].addr, HOST_INIT_HEAP_OFFSET);
    assert_eq!(plain[2].len, HOST_INIT_HEAP_SIZE);
    for r in &plain {
        assert!(r.shared && r.anonymous && r.fixed && r.read && r.write && !r.huge2m);
    }
    let cc = MappingPlan(true);
    assert_eq!(cc.len(), 8);
    assert_eq!(&cc[..3], &plain[..]);
    assert_eq!(cc[5].addr, GHCB_OFFSET);
    assert_eq!(cc[5].len, PAGE_SIZE_2M);
}

#[test]
fn check_mapping_reports_the_first_fault() {
    let plan = MappingPlan(true);
    let good = mapped_as_planned(true);
    assert_eq!(CheckMapping(&plan, &good), Ok(()));
    let mut failed = good.clone();
    failed[4] = MAP_FAILED;
    failed[6] = 0x1234;
    assert_eq!(CheckMapping(&plan, &failed), Err(HeapError::MapFailed { index: 4 }));
    let mut moved = good.clone();
    moved[1] = GUEST_HOST_SHARED_HEAP_OFFSET + 0x1000;
    moved[2] = MAP_FAILED;
    assert_eq!(CheckMapping(&plan, &moved), Err(HeapError::AddressMismatch { index: 1 }));
    assert_eq!(CheckMapping(&plan, &good[..7].to_vec()), Err(HeapError::PlanMismatch));
}

#[test]
fn alloc_before_init_asks_for_init() {
    let mut h = HostAllocator::New();
    assert!(!h.IsInitialized());
    assert!(!h.Clear());
    assert_eq!(h.Alloc(Layout { size: 8, align: 8 }), HeapStep::MustInit);
    assert!(!h.MarkVmLaunched());
    let mut bad = mapped_as_planned(false);
    bad[0] = MAP_FAILED;
    assert_eq!(h.Init(&bad), Err(HeapError::MapFailed { index: 0 }));
    assert!(!h.IsInitialized());
    assert_eq!(h.Init(&mapped_as_planned(false)), Ok(()));
    assert!(h.IsInitialized());
    assert!(!h.IsVmLaunched());
    // a second call changes nothing, whatever it is handed
    let p = match h.Alloc(Layout { size: 8, align: 8 }) {
        HeapStep::Block(p) => p,
        other => panic!("{:?}", other),
    };
    assert_eq!(h.Init(&bad), Ok(()));
    assert!(h.IsLive(p, 8));
}

#[test]
fn plain_guest_always_uses_the_private_heap() {
    let mut h = ready(false);
    assert!(!h.IsConfidential());
    assert_eq!(h.AllocRegion(), HeapRegion::GuestPrivate);
    let l = Layout { size: 64, align: 64 };
    assert_eq!(h.Alloc(l), HeapStep::Block(GUEST_PRIVATE_HEAP_OFFSET + ALLOCATOR_CONTROL_SIZE));
    assert!(h.MarkVmLaunched());
    assert!(!h.MarkVmLaunched());
    assert_eq!(h.AllocRegion(), HeapRegion::GuestPrivate);
    assert_eq!(h.DeallocRegion(HOST_INIT_HEAP_OFFSET + 8), HeapRegion::GuestPrivate);
    let p = GUEST_PRIVATE_HEAP_OFFSET + ALLOCATOR_CONTROL_SIZE;
    assert!(h.IsLive(p, 64));
    h.Dealloc(p, l);
    assert!(!h.IsLive(p, 64));
    assert_eq!(h.Alloc(l), HeapStep::Block(p));
}

#[test]
fn confidential_guest_switches_heaps_at_launch() {
    let mut h = ready(true);
    let l = Layout { size: 128, align: 16 };
    assert_eq!(h.AllocRegion(), HeapRegion::HostInit);
    let before = HOST_INIT_HEAP_OFFSET + ALLOCATOR_CONTROL_SIZE;
    assert_eq!(h.Alloc(l), HeapStep::Block(before));
    assert!(h.MarkVmLaunched());
    assert!(h.IsVmLaunched());
    assert_eq!(h.AllocRegion(), HeapRegion::GuestHostShared);
    let after = GUEST_HOST_SHARED_HEAP_OFFSET + ALLOCATOR_CONTROL_SIZE;
    assert_eq!(h.Alloc(l), HeapStep::Block(after));
    // the address decides where a block goes back, not the phase
    assert_eq!(h.DeallocRegion(before), HeapRegion::HostInit);
    assert_eq!(h.DeallocRegion(after), HeapRegion::GuestHostShared);
    assert_eq!(h.DeallocRegion(GUEST_PRIVATE_HEAP_OFFSET), HeapRegion::GuestPrivate);
    assert_eq!(h.DeallocRegion(0), HeapRegion::HostInit);
    assert!(h.IsLive(before, 128));
    h.Dealloc(before, l);
    assert!(!h.HostInitAllocator().IsLive(before, 128));
    assert!(h.GuestHostSharedAllocator().IsLive(after, 128));
    h.Dealloc(after, l);
    assert!(!h.GuestHostSharedAllocator().IsLive(after, 128));
    assert!(!h.GuestPrivateAllocator().IsLive(after, 128));
}

#[test]
fn each_heap_keeps_its_control_bytes_back() {
    let mut h = ready(false);
    let rest = GUEST_PRIVATE_INIT_HEAP_SIZE - ALLOCATOR_CONTROL_SIZE;
    assert_eq!(
        h.Alloc(Layout { size: rest, align: 1 }),
        HeapStep::Block(GUEST_PRIVATE_HEAP_OFFSET + ALLOCATOR_CONTROL_SIZE)
    );
    assert_eq!(h.Alloc(Layout { size: 1, align: 1 }), HeapStep::Exhausted);
}

#[test]
fn region_table_and_address_tests_agree() {
    for r in [HeapRegion::HostInit, HeapRegion::GuestPrivate, HeapRegion::GuestHostShared] {
        let start = RegionStart(r);
        let size = RegionSize(r);
        let private = matches!(r, HeapRegion::GuestPrivate);
        let shared = matches!(r, HeapRegion::GuestHostShared);
        for a in [start, start + 1, start + size - 1] {
            assert_eq!(HostAllocator::IsGuestPrivateHeapAddr(a), private);
            assert_eq!(HostAllocator::IsHostGuestSharedHeapAddr(a), shared);
        }
    }
    assert!(!HostAllocator::IsGuestPrivateHeapAddr(GUEST_PRIVATE_HEAP_OFFSET - 1));
    assert!(!HostAllocator::IsGuestPrivateHeapAddr(
        GUEST_PRIVATE_HEAP_OFFSET + GUEST_PRIVATE_INIT_HEAP_SIZE
    ));
}

#[test]
fn vcpu_allocator_error_is_ignored() {
    let v = VcpuAllocator {};
    v.handleError(4096, 8);
}
