//! Big-endian 16-bit integers on the wire.

use vstd::prelude::*;

verus! {

/// The 16-bit value whose big-endian encoding is `hi` followed by `lo`.
pub open spec fn be16(hi: u8, lo: u8) -> u16 {
    (hi as int * 256 + lo as int) as u16
}

/// The two bytes that encode `value`, most significant first.
pub open spec fn be16_bytes(value: u16) -> Seq<u8> {
    seq![(value / 256) as u8, (value % 256) as u8]
}

/// Reads the big-endian 16-bit integer that starts `u8_array`.
pub fn u16_from_u8_array(u8_array: &[u8]) -> (value: u16)
    requires
        u8_array@.len() >= 2,
    ensures
        value == be16(u8_array@[0], u8_array@[1]),
{
    let hi: u16 = u8_array[0] as u16;
    let lo: u16 = u8_array[1] as u16;
    assert(hi << 8 == hi * 256) by (bit_vector)
        requires
            hi < 256,
    ;
    (hi << 8) + lo
}

/// Appends the big-endian encoding of `value` to `data`.
pub fn push_u16(data: &mut Vec<u8>, value: u16)
    ensures
        final(data)@ == old(data)@ + be16_bytes(value),
{
    data.push((value / 256) as u8);
    data.push((value % 256) as u8);
    assert(data@ =~= old(data)@ + be16_bytes(value));
}

} // verus!
