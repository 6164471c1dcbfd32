//! The 8-bit checksum that closes every frame.
//!
//! The checksum is a cyclic redundancy check with generator `0x85`, taken most
//! significant bit first, with a zero start value, no reflection and no final
//! inversion. Its model is [`crc8`]; the executable functions are proved equal
//! to it.

use vstd::prelude::*;

verus! {

/// The generator polynomial, most significant bit first.
pub const CRC8_POLY: u8 = 0x85;

/// One bit step of the register: shift left by one, dropping the top bit, and
/// fold the generator in if the dropped bit was set.
pub open spec fn crc8_shift(crc: u8) -> u8 {
    if crc & 0x80 != 0 {
        (crc << 1) ^ CRC8_POLY
    } else {
        crc << 1
    }
}

/// The register after one more input byte: the byte is folded into the
/// register, which then takes eight bit steps.
pub open spec fn crc8_update(crc: u8, byte: u8) -> u8 {
    crc8_shift(
        crc8_shift(
            crc8_shift(
                crc8_shift(crc8_shift(crc8_shift(crc8_shift(crc8_shift(crc ^ byte))))),
            ),
        ),
    )
}

/// The register after the bytes of `data`, in order, starting from `init`.
pub open spec fn crc8_from(init: u8, data: Seq<u8>) -> u8
    decreases data.len(),
{
    if data.len() == 0 {
        init
    } else {
        crc8_update(crc8_from(init, data.drop_last()), data.last())
    }
}

/// The checksum of `data`.
pub open spec fn crc8(data: Seq<u8>) -> u8 {
    crc8_from(0, data)
}

/// `n` bit steps in a row.
spec fn crc8_shift_n(crc: u8, n: nat) -> u8
    decreases n,
{
    if n == 0 {
        crc
    } else {
        crc8_shift(crc8_shift_n(crc, (n - 1) as nat))
    }
}

proof fn lemma_eight_shifts(crc: u8, byte: u8)
    ensures
        crc8_shift_n(crc ^ byte, 8) == crc8_update(crc, byte),
{
    reveal_with_fuel(crc8_shift_n, 9);
}

/// Folds one byte into the register.
pub fn crc8_calc(crc: u8, byte: &u8) -> (out: u8)
    ensures
        out == crc8_update(crc, *byte),
{
    let start: u8 = crc ^ *byte;
    let mut reg: u8 = start;
    let mut i: u8 = 0;
    while i < 8
        invariant
            i <= 8,
            reg == crc8_shift_n(start, i as nat),
        decreases 8 - i,
    {
        if reg & 0x80 > 0 {
            reg = (reg << 1) ^ CRC8_POLY;
        } else {
            reg = reg << 1;
        }
        i = i + 1;
    }
    proof {
        lemma_eight_shifts(crc, *byte);
    }
    reg
}

/// Computes the checksum of `data`.
pub fn calculate_crc(data: &[u8]) -> (crc: u8)
    ensures
        crc == crc8(data@),
{
    let mut crc: u8 = 0;
    let mut i: usize = 0;
    while i < data.len()
        invariant
            i <= data.len(),
            crc == crc8(data@.take(i as int)),
        decreases data.len() - i,
    {
        proof {
            assert(data@.take(i + 1).drop_last() =~= data@.take(i as int));
        }
        crc = crc8_calc(crc, &data[i]);
        i = i + 1;
    }
    proof {
        assert(data@.take(data.len() as int) =~= data@);
    }
    crc
}

/// The checksum is a function of the bytes alone: sequences that hold the same
/// bytes in the same order have the same checksum.
pub proof fn crc8_deterministic(a: Seq<u8>, b: Seq<u8>)
    requires
        a.len() == b.len(),
        forall|i: int| 0 <= i < a.len() ==> a[i] == b[i],
    ensures
        crc8(a) == crc8(b),
{
    assert(a =~= b);
}

/// The checksum of a concatenation is the checksum of the second part, taken
/// with the checksum of the first part as its start value.
pub proof fn crc8_concat(init: u8, a: Seq<u8>, b: Seq<u8>)
    ensures
        crc8_from(init, a + b) == crc8_from(crc8_from(init, a), b),
    decreases b.len(),
{
    if b.len() == 0 {
        assert(a + b =~= a);
    } else {
        assert((a + b).drop_last() =~= a + b.drop_last());
        crc8_concat(init, a, b.drop_last());
    }
}

/// One byte takes the register from `init` to `crc8_update(init, byte)`.
pub proof fn crc8_from_single(init: u8, byte: u8)
    ensures
        crc8_from(init, seq![byte]) == crc8_update(init, byte),
{
    reveal_with_fuel(crc8_from, 2);
}

/// The checksum is not additive across a split: there are `a` and `b` for
/// which the checksum of `a` followed by `b` differs from the exclusive or of
/// the two checksums. One byte `0x01` twice is such a pair.
pub proof fn crc8_not_additive()
    ensures
        exists|a: Seq<u8>, b: Seq<u8>| #[trigger] crc8(a + b) != crc8(a) ^ crc8(b),
{
    let a = seq![0x01u8];
    crc8_from_single(0, 0x01);
    crc8_from_single(crc8(a), 0x01);
    crc8_concat(0, a, a);
    assert(crc8_update(0, 0x01) == 0x85) by (bit_vector);
    assert(crc8_update(0x85, 0x01) == 0x12) by (bit_vector);
    assert(0x85u8 ^ 0x85u8 == 0) by (bit_vector);
    assert(crc8(a + a) != crc8(a) ^ crc8(a));
}

} // verus!
