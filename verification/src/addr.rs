//! Arithmetic on addresses in pages of 4096 bytes.

use memory_addr::{MemoryAddr, VirtAddr, VirtAddrRange};
use vstd::prelude::*;

verus! {

/// The greatest multiple of 4096 that is not above `addr`.
pub open spec fn page_floor(addr: int) -> int {
    addr - addr % 4096
}

/// The smallest multiple of 4096 that is not below `addr`.
pub open spec fn page_ceil(addr: int) -> int {
    page_floor(addr + 4095)
}

/// `page_floor(addr)` is the greatest multiple of 4096 at or below `addr`,
/// and `page_ceil(addr)` the smallest at or above it. Moving an address by
/// whole pages moves its page by as much.
pub proof fn lemma_page_bounds(addr: int, pages: int)
    ensures
        page_floor(addr) % 4096 == 0,
        addr - 4096 < page_floor(addr) <= addr,
        page_ceil(addr) % 4096 == 0,
        addr <= page_ceil(addr) < addr + 4096,
        page_floor(addr + pages * 4096) == page_floor(addr) + pages * 4096,
        page_ceil(addr + pages * 4096) == page_ceil(addr) + pages * 4096,
{
}

/// Rounds a virtual address down to its page.
///
/// Trusted: calls `MemoryAddr::align_down_4k` of `memory_addr` on a
/// `VirtAddr`, which clears the twelve low bits of the address.
#[verifier::external_body]
pub(crate) fn align_down_4k(addr: usize) -> (aligned: usize)
    ensures
        aligned == page_floor(addr as int),
{
    VirtAddr::from_usize(addr).align_down_4k().as_usize()
}

/// Rounds a length up to whole pages.
///
/// Trusted: calls `MemoryAddr::align_up_4k` of `memory_addr` on a `usize`,
/// which adds 4096 to the length, takes 1 off again, and clears the twelve
/// low bits. The first sum must not overflow, so the length has to leave
/// room for a whole page.
#[verifier::external_body]
pub(crate) fn align_up_4k(len: usize) -> (aligned: usize)
    requires
        len + 4096 <= usize::MAX,
    ensures
        aligned == page_ceil(len as int),
{
    len.align_up_4k()
}

/// The bounds of the range of `size` bytes that begins at `start`.
///
/// Trusted: calls `AddrRange::from_start_size` of `memory_addr` for
/// virtual addresses, which keeps the start and puts the end `size` bytes
/// after it. It panics when the end is beyond the last address.
#[verifier::external_body]
pub(crate) fn range_from_start_size(start: usize, size: usize) -> (bounds: (usize, usize))
    requires
        start + size <= usize::MAX,
    ensures
        bounds.0 == start,
        bounds.1 == start + size,
{
    let range = VirtAddrRange::from_start_size(VirtAddr::from_usize(start), size);
    (range.start.as_usize(), range.end.as_usize())
}

} // verus!
