//! The fixed layout of the host's virtual address space.
//!
//! Every process that takes part agrees on these addresses before anything
//! is mapped. The regions are page-aligned and share no byte, which
//! `law_layout_is_sound` proves of the table as it stands.

use vstd::prelude::*;

verus! {

pub const PAGE_SIZE: u64 = 0x1000;

pub const PAGE_SIZE_2M: u64 = 0x20_0000;

/// What the mapping facility returns in place of an address when it fails.
pub const MAP_FAILED: u64 = 0xffff_ffff_ffff_ffff;

/// The bytes at the start of each heap region that are kept back for the
/// region's allocator.
pub const ALLOCATOR_CONTROL_SIZE: u64 = 0x1000;

/// The guest-private heap: the part that is used while the sandbox starts,
/// followed by the part that the running guest uses.
pub const GUEST_PRIVATE_HEAP_OFFSET: u64 = 0x40_0000_0000;

pub const GUEST_PRIVATE_INIT_HEAP_SIZE: u64 = 0x4000_0000;

pub const GUEST_PRIVATE_RUNNING_HEAP_SIZE: u64 = 0x4000_0000;

/// The heap that guest and host share.
pub const GUEST_HOST_SHARED_HEAP_OFFSET: u64 = 0x41_0000_0000;

pub const GUEST_HOST_SHARED_HEAP_SIZE: u64 = 0x8000_0000;

/// The heap that serves the host until the guest is launched.
pub const HOST_INIT_HEAP_OFFSET: u64 = 0x42_0000_0000;

pub const HOST_INIT_HEAP_SIZE: u64 = 0x4000_0000;

/// The pages that a confidential guest exchanges with its hypervisor.
pub const CPUID_PAGE: u64 = 0x43_0000_0000;

pub const SECRET_PAGE: u64 = 0x43_0000_1000;

pub const ATTESTATION_REQ_REQ: u64 = 0x43_0000_2000;

pub const ATTESTATION_REQ_RSP: u64 = 0x43_0000_3000;

pub const GHCB_OFFSET: u64 = 0x43_0020_0000;

/// Whether `[a, a + n)` and `[b, b + m)` share no byte.
pub open spec fn apart(a: int, n: int, b: int, m: int) -> bool {
    a + n <= b || b + m <= a
}

/// The layout table is sound: every region starts on a page boundary, the
/// large-page region on a 2 MiB boundary, no region runs past the end of the
/// address space or reaches the failure sentinel, the control bytes fit into
/// each heap, and no two regions share a byte.
pub proof fn law_layout_is_sound()
    ensures
        GUEST_PRIVATE_HEAP_OFFSET % PAGE_SIZE == 0,
        GUEST_HOST_SHARED_HEAP_OFFSET % PAGE_SIZE == 0,
        HOST_INIT_HEAP_OFFSET % PAGE_SIZE == 0,
        CPUID_PAGE % PAGE_SIZE == 0,
        SECRET_PAGE % PAGE_SIZE == 0,
        ATTESTATION_REQ_REQ % PAGE_SIZE == 0,
        ATTESTATION_REQ_RSP % PAGE_SIZE == 0,
        GHCB_OFFSET % PAGE_SIZE_2M == 0,
        GHCB_OFFSET + PAGE_SIZE_2M < MAP_FAILED,
        ALLOCATOR_CONTROL_SIZE < GUEST_PRIVATE_INIT_HEAP_SIZE,
        ALLOCATOR_CONTROL_SIZE < GUEST_HOST_SHARED_HEAP_SIZE,
        ALLOCATOR_CONTROL_SIZE < HOST_INIT_HEAP_SIZE,
        apart(
            GUEST_PRIVATE_HEAP_OFFSET as int,
            GUEST_PRIVATE_INIT_HEAP_SIZE + GUEST_PRIVATE_RUNNING_HEAP_SIZE,
            GUEST_HOST_SHARED_HEAP_OFFSET as int,
            GUEST_HOST_SHARED_HEAP_SIZE as int,
        ),
        apart(
            GUEST_HOST_SHARED_HEAP_OFFSET as int,
            GUEST_HOST_SHARED_HEAP_SIZE as int,
            HOST_INIT_HEAP_OFFSET as int,
            HOST_INIT_HEAP_SIZE as int,
        ),
        apart(
            HOST_INIT_HEAP_OFFSET as int,
            HOST_INIT_HEAP_SIZE as int,
            CPUID_PAGE as int,
            PAGE_SIZE as int,
        ),
        apart(CPUID_PAGE as int, PAGE_SIZE as int, SECRET_PAGE as int, PAGE_SIZE as int),
        apart(SECRET_PAGE as int, PAGE_SIZE as int, ATTESTATION_REQ_REQ as int, PAGE_SIZE as int),
        apart(
            ATTESTATION_REQ_REQ as int,
            PAGE_SIZE as int,
            ATTESTATION_REQ_RSP as int,
            PAGE_SIZE as int,
        ),
        apart(
            ATTESTATION_REQ_RSP as int,
            PAGE_SIZE as int,
            GHCB_OFFSET as int,
            PAGE_SIZE_2M as int,
        ),
        GUEST_PRIVATE_HEAP_OFFSET < GUEST_HOST_SHARED_HEAP_OFFSET < HOST_INIT_HEAP_OFFSET,
        HOST_INIT_HEAP_OFFSET < CPUID_PAGE < SECRET_PAGE < ATTESTATION_REQ_REQ,
        ATTESTATION_REQ_REQ < ATTESTATION_REQ_RSP < GHCB_OFFSET,
{
}

} // verus!
