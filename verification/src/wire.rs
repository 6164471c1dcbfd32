//! Constants of the wire protocol and the big-endian encoding of its 16-bit
//! fields.

use vstd::prelude::*;

verus! {

/// The first byte of every frame, in both directions.
pub const IR_HEADER: u8 = 0xAA;

/// The order code of the one command the protocol carries: transmit a
/// waveform.
pub const IR_ORDER: u16 = 0x1100;

/// The two bytes of `n`, most significant first.
pub open spec fn be16(n: u16) -> Seq<u8> {
    seq![(n / 256) as u8, (n % 256) as u8]
}

/// The number whose big-endian bytes are `hi`, `lo`.
pub open spec fn be16_value(hi: u8, lo: u8) -> int {
    hi * 256 + lo
}

/// Encodes `n` as two bytes, most significant first.
pub fn u16_to_be(n: u16) -> (bytes: [u8; 2])
    ensures
        bytes@ == be16(n),
{
    let hi: u8 = (n / 256) as u8;
    let lo: u8 = (n % 256) as u8;
    let bytes = [hi, lo];
    bytes
}

/// Decodes two bytes, most significant first.
pub fn u16_from_be(hi: u8, lo: u8) -> (n: u16)
    ensures
        n == be16_value(hi, lo),
{
    let high: u16 = hi as u16;
    let low: u16 = lo as u16;
    high * 256 + low
}

/// Decoding undoes encoding.
pub proof fn be16_decodes(n: u16)
    ensures
        be16(n).len() == 2,
        be16_value(be16(n)[0], be16(n)[1]) == n,
{
}

/// Encoding undoes decoding: two bytes are the encoding of the number they
/// decode to, and of no other.
pub proof fn be16_encodes(hi: u8, lo: u8, n: u16)
    ensures
        be16_value(hi, lo) == n <==> be16(n) == seq![hi, lo],
{
    if be16(n) == seq![hi, lo] {
        assert(be16(n)[0] == hi && be16(n)[1] == lo);
    }
}

} // verus!
