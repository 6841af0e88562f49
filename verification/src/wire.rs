use vstd::prelude::*;

verus! {

/// Error returned when a response buffer cannot be decoded: a fixed-size or
/// length-prefixed read would run past the end of the buffer.
#[derive(Debug, PartialEq, Eq, Structural, Clone, Copy)]
pub enum ParseError {
    Truncated,
}

/// The 16-bit value formed by two bytes in big-endian order.
pub open spec fn spec_u16_be(hi: u8, lo: u8) -> u16 {
    (hi * 256 + lo) as u16
}

/// The two bytes of a 16-bit value in big-endian order.
pub open spec fn spec_u16_bytes(x: u16) -> Seq<u8> {
    seq![(x / 256) as u8, (x % 256) as u8]
}

/// The 32-bit value formed by four bytes in big-endian order.
pub open spec fn spec_u32_be(b0: u8, b1: u8, b2: u8, b3: u8) -> u32 {
    (b0 * 0x1000000 + b1 * 0x10000 + b2 * 256 + b3) as u32
}

/// Appends the two big-endian bytes of `x` to `bytes`.
pub fn push_u16_be(bytes: &mut Vec<u8>, x: u16)
    ensures
        final(bytes)@ == old(bytes)@ + spec_u16_bytes(x),
{
    bytes.push((x / 256) as u8);
    bytes.push((x % 256) as u8);
    proof {
        assert(bytes@ =~= old(bytes)@ + spec_u16_bytes(x));
    }
}

/// Reads the big-endian 16-bit value at `pos`.
pub fn get_u16_be(b: &[u8], pos: usize) -> (x: u16)
    requires
        pos + 2 <= b@.len(),
    ensures
        x == spec_u16_be(b@[pos as int], b@[pos as int + 1]),
{
    (b[pos] as u16) * 256 + (b[pos + 1] as u16)
}

/// Reads the big-endian 32-bit value at `pos`.
pub fn get_u32_be(b: &[u8], pos: usize) -> (x: u32)
    requires
        pos + 4 <= b@.len(),
    ensures
        x == spec_u32_be(
            b@[pos as int],
            b@[pos as int + 1],
            b@[pos as int + 2],
            b@[pos as int + 3],
        ),
{
    (b[pos] as u32) * 0x1000000 + (b[pos + 1] as u32) * 0x10000 + (b[pos + 2] as u32) * 256
        + (b[pos + 3] as u32)
}

} // verus!
