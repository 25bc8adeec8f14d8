//! Sizes of buffers that depend on the alignment of the machine's caches.

use vstd::prelude::*;
use vstd::arithmetic::power2::is_pow2;
use align_address::Align;
use crossbeam_utils::CachePadded;

verus! {

/// Whether `unit` is a padding unit that a machine's caches may have.
pub open spec fn is_padding_unit(unit: usize) -> bool {
    unit == 16 || unit == 32 || unit == 64 || unit == 128 || unit == 256
}

/// The smallest multiple of `align` that is not below `addr`.
pub open spec fn aligned_up(addr: int, align: int) -> int {
    if addr % align == 0 {
        addr
    } else {
        addr - addr % align + align
    }
}

/// Calls `align_address::Align::align_up` on a `usize`. The claim: for an
/// alignment that is a power of two, and where the result fits, it returns
/// the smallest multiple of the alignment that is not below `addr`. Other
/// alignments, and results that do not fit, make the outside function panic
/// and are left out.
#[verifier::external_body]
fn align_up(addr: usize, align: usize) -> (r: usize)
    requires
        is_pow2(align as int),
        addr + align <= usize::MAX,
    ensures
        r == aligned_up(addr as int, align as int),
{
    addr.align_up(align)
}

/// Asks for the size of `crossbeam_utils::CachePadded<u8>`, which is the
/// padding unit that the outside crate has chosen for the machine. The
/// claim: it is one of the five units that the crate knows.
#[verifier::external_body]
fn cache_padded_size() -> (unit: usize)
    ensures
        is_padding_unit(unit),
{
    core::mem::size_of::<CachePadded<u8>>()
}

/// Rounds `size` up to a multiple of the padding unit `unit`.
pub fn pad_to(size: usize, unit: usize) -> (padded: usize)
    requires
        is_padding_unit(unit),
        size + 256 <= usize::MAX,
    ensures
        padded == aligned_up(size as int, unit as int),
        padded % unit == 0,
        size <= padded < size + unit,
{
    proof {
        reveal_with_fuel(is_pow2, 10);
    }
    align_up(size, unit)
}

/// Rounds `size` up to a multiple of the padding unit of this machine's
/// caches, whichever of the known units that is.
pub fn pad_to_cache_line(size: usize) -> (padded: usize)
    requires
        size + 256 <= usize::MAX,
    ensures
        exists|unit: usize| is_padding_unit(unit) && padded == aligned_up(size as int, unit as int),
{
    let unit: usize = cache_padded_size();
    pad_to(size, unit)
}

/// Every padding unit divides 1536, and 1526 lies less than the smallest of
/// them below it: rounded up to any unit, 1526 gives 1536.
pub proof fn lemma_merged_buffer_size(unit: usize)
    requires
        is_padding_unit(unit),
    ensures
        aligned_up(1526, unit as int) == 1536,
{
}

} // verus!
