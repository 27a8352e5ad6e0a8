//! Little-endian integer fields of the packed tables.

use vstd::prelude::*;

verus! {

/// The value of a two-byte little-endian unsigned integer.
pub open spec fn le_u16_value(lo: u8, hi: u8) -> int {
    lo + 256 * hi
}

/// Reads a little-endian `u16` through `zerocopy::byteorder::little_endian::U16`:
/// `U16::from_bytes` keeps the two bytes as they are and `U16::get` returns the
/// native value of those bytes read in little-endian order, that is
/// `lo + 256 * hi`.
#[verifier::external_body]
pub(crate) fn read_le_u16(lo: u8, hi: u8) -> (value: u16)
    ensures
        value == le_u16_value(lo, hi),
{
    zerocopy::byteorder::little_endian::U16::from_bytes([lo, hi]).get()
}

} // verus!
