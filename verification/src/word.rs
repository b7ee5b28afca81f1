//! Machine words of the traced process and the bytes they hold. Words are
//! read and written by ptrace as little-endian 64-bit values.

use vstd::prelude::*;

verus! {

/// The size in bytes of the words that `PTRACE_PEEKDATA` and
/// `PTRACE_POKEDATA` move.
pub const WORD_SIZE: usize = 8;

/// The bytes of `w` in memory order (little-endian).
pub open spec fn word_bytes(w: u64) -> Seq<u8> {
    seq![
        (w & 0xff) as u8,
        ((w >> 8u64) & 0xff) as u8,
        ((w >> 16u64) & 0xff) as u8,
        ((w >> 24u64) & 0xff) as u8,
        ((w >> 32u64) & 0xff) as u8,
        ((w >> 40u64) & 0xff) as u8,
        ((w >> 48u64) & 0xff) as u8,
        ((w >> 56u64) & 0xff) as u8,
    ]
}

/// The word whose memory image is the eight bytes `b` (little-endian).
pub open spec fn word_value(b: Seq<u8>) -> u64
    recommends
        b.len() == 8,
{
    (b[0] as u64) | ((b[1] as u64) << 8u64) | ((b[2] as u64) << 16u64) | ((b[3] as u64) << 24u64)
        | ((b[4] as u64) << 32u64) | ((b[5] as u64) << 40u64) | ((b[6] as u64) << 48u64) | ((
    b[7] as u64) << 56u64)
}

/// The word that holds `fill` in its first bytes and keeps the remaining
/// bytes of `old`.
pub open spec fn spliced_word(old: u64, fill: Seq<u8>) -> u64
    recommends
        fill.len() <= 8,
{
    word_value(fill + word_bytes(old).skip(fill.len() as int))
}

proof fn lemma_bytes_of_value(b0: u8, b1: u8, b2: u8, b3: u8, b4: u8, b5: u8, b6: u8, b7: u8)
    ensures
        ({
            let w = (b0 as u64) | ((b1 as u64) << 8u64) | ((b2 as u64) << 16u64) | ((b3 as u64)
                << 24u64) | ((b4 as u64) << 32u64) | ((b5 as u64) << 40u64) | ((b6 as u64)
                << 48u64) | ((b7 as u64) << 56u64);
            &&& (w & 0xff) as u8 == b0
            &&& ((w >> 8u64) & 0xff) as u8 == b1
            &&& ((w >> 16u64) & 0xff) as u8 == b2
            &&& ((w >> 24u64) & 0xff) as u8 == b3
            &&& ((w >> 32u64) & 0xff) as u8 == b4
            &&& ((w >> 40u64) & 0xff) as u8 == b5
            &&& ((w >> 48u64) & 0xff) as u8 == b6
            &&& ((w >> 56u64) & 0xff) as u8 == b7
        }),
{
    assert({
        let w = (b0 as u64) | ((b1 as u64) << 8u64) | ((b2 as u64) << 16u64) | ((b3 as u64)
            << 24u64) | ((b4 as u64) << 32u64) | ((b5 as u64) << 40u64) | ((b6 as u64) << 48u64)
            | ((b7 as u64) << 56u64);
        &&& (w & 0xff) as u8 == b0
        &&& ((w >> 8u64) & 0xff) as u8 == b1
        &&& ((w >> 16u64) & 0xff) as u8 == b2
        &&& ((w >> 24u64) & 0xff) as u8 == b3
        &&& ((w >> 32u64) & 0xff) as u8 == b4
        &&& ((w >> 40u64) & 0xff) as u8 == b5
        &&& ((w >> 48u64) & 0xff) as u8 == b6
        &&& ((w >> 56u64) & 0xff) as u8 == b7
    }) by (bit_vector);
}

/// Reading back the bytes of the word made of eight bytes gives those bytes.
pub proof fn lemma_word_bytes_of_value(b: Seq<u8>)
    requires
        b.len() == 8,
    ensures
        word_bytes(word_value(b)) == b,
{
    lemma_bytes_of_value(b[0], b[1], b[2], b[3], b[4], b[5], b[6], b[7]);
    assert(word_bytes(word_value(b)) =~= b);
}

proof fn lemma_value_sum(b0: u8, b1: u8, b2: u8, b3: u8, b4: u8, b5: u8, b6: u8, b7: u8)
    ensures
        ((b0 as u64) | ((b1 as u64) << 8u64) | ((b2 as u64) << 16u64) | ((b3 as u64) << 24u64)
            | ((b4 as u64) << 32u64) | ((b5 as u64) << 40u64) | ((b6 as u64) << 48u64) | ((
        b7 as u64) << 56u64)) as int == b0 + 0x100 * b1 + 0x1_0000 * b2 + 0x100_0000 * b3
            + 0x1_0000_0000 * b4 + 0x100_0000_0000 * b5 + 0x1_0000_0000_0000 * b6
            + 0x100_0000_0000_0000 * b7,
{
    assert(((b0 as u64) | ((b1 as u64) << 8u64) | ((b2 as u64) << 16u64) | ((b3 as u64) << 24u64)
        | ((b4 as u64) << 32u64) | ((b5 as u64) << 40u64) | ((b6 as u64) << 48u64) | ((b7 as u64)
        << 56u64)) == (b0 as u64) + 0x100u64 * (b1 as u64) + 0x1_0000u64 * (b2 as u64)
        + 0x100_0000u64 * (b3 as u64) + 0x1_0000_0000u64 * (b4 as u64) + 0x100_0000_0000u64 * (
    b5 as u64) + 0x1_0000_0000_0000u64 * (b6 as u64) + 0x100_0000_0000_0000u64 * (b7 as u64))
        by (bit_vector);
}

/// Words are little-endian: the word made of the eight bytes `b` is
/// `b[0] + 256 * b[1] + ... + 256^7 * b[7]`.
pub proof fn lemma_word_value_little_endian(b: Seq<u8>)
    requires
        b.len() == 8,
    ensures
        word_value(b) as int == b[0] + 0x100 * b[1] + 0x1_0000 * b[2] + 0x100_0000 * b[3]
            + 0x1_0000_0000 * b[4] + 0x100_0000_0000 * b[5] + 0x1_0000_0000_0000 * b[6]
            + 0x100_0000_0000_0000 * b[7],
{
    lemma_value_sum(b[0], b[1], b[2], b[3], b[4], b[5], b[6], b[7]);
}

/// The word whose little-endian image is `bytes`.
pub fn word_from_bytes(bytes: &[u8]) -> (w: u64)
    requires
        bytes@.len() == 8,
    ensures
        w == word_value(bytes@),
        word_bytes(w) == bytes@,
{
    proof {
        lemma_word_bytes_of_value(bytes@);
    }
    (bytes[0] as u64) | ((bytes[1] as u64) << 8u64) | ((bytes[2] as u64) << 16u64) | ((
    bytes[3] as u64) << 24u64) | ((bytes[4] as u64) << 32u64) | ((bytes[5] as u64) << 40u64) | ((
    bytes[6] as u64) << 48u64) | ((bytes[7] as u64) << 56u64)
}

/// The little-endian image of `w`.
pub fn bytes_of_word(w: u64) -> (bytes: Vec<u8>)
    ensures
        bytes@ == word_bytes(w),
{
    let mut bytes: Vec<u8> = Vec::new();
    bytes.push((w & 0xff) as u8);
    bytes.push(((w >> 8u64) & 0xff) as u8);
    bytes.push(((w >> 16u64) & 0xff) as u8);
    bytes.push(((w >> 24u64) & 0xff) as u8);
    bytes.push(((w >> 32u64) & 0xff) as u8);
    bytes.push(((w >> 40u64) & 0xff) as u8);
    bytes.push(((w >> 48u64) & 0xff) as u8);
    bytes.push(((w >> 56u64) & 0xff) as u8);
    assert(bytes@ =~= word_bytes(w));
    bytes
}

/// Overwrites the first `fill.len()` bytes of `old` with `fill` and keeps
/// the others.
pub fn splice_low_bytes(old: u64, fill: &[u8]) -> (w: u64)
    requires
        fill@.len() <= 8,
    ensures
        w == spliced_word(old, fill@),
        word_bytes(w) == fill@ + word_bytes(old).skip(fill@.len() as int),
{
    let old_bytes = bytes_of_word(old);
    let n = fill.len();
    let mut bytes: Vec<u8> = Vec::new();
    let mut i: usize = 0;
    while i < 8
        invariant
            n == fill@.len(),
            n <= 8,
            i <= 8,
            old_bytes@ == word_bytes(old),
            bytes@ == (fill@ + word_bytes(old).skip(n as int)).take(i as int),
        decreases 8 - i,
    {
        if i < n {
            bytes.push(fill[i]);
        } else {
            bytes.push(old_bytes[i]);
        }
        i = i + 1;
        assert(bytes@ =~= (fill@ + word_bytes(old).skip(n as int)).take(i as int));
    }
    assert(bytes@ =~= fill@ + word_bytes(old).skip(n as int));
    word_from_bytes(bytes.as_slice())
}

} // verus!
