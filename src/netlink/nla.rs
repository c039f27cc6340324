//! Netlink attribute (TLV) header constants and alignment.
use vstd::prelude::*;

verus! {

/// Size of an attribute header: a 16-bit length and a 16-bit type.
pub const HDRLEN: usize = 4;

/// Attribute boundary alignment.
pub const ALIGNTO: usize = 4;

/// `len` rounded up to the next multiple of four.
pub open spec fn spec_align(len: int) -> int {
    (len + 3) / 4 * 4
}

/// Rounds `len` up to the attribute alignment.
pub fn align(len: usize) -> (r: usize)
    requires
        len + 3 <= usize::MAX,
    ensures
        r == spec_align(len as int),
        r % 4 == 0,
        len <= r < len + 4,
{
    (len + (ALIGNTO - 1)) / ALIGNTO * ALIGNTO
}

} // verus!
