//! The checksum that guards a saved image.

use vstd::prelude::*;

verus! {

/// The checksum one byte further: the byte is added, the sum turned by three
/// bits, and some of its bits flipped.
pub open spec fn stirred(sum: u32, b: u8) -> u32 {
    let t = sum.wrapping_add(b as u32);
    ((t << 3u32) | (t >> 29u32)) ^ 0xA5A55A5Au32
}

/// The checksum of `bytes`, taken from the first one on.
pub open spec fn checksum_of(bytes: Seq<u8>) -> u32
    decreases bytes.len(),
{
    if bytes.len() == 0 {
        0
    } else {
        stirred(checksum_of(bytes.drop_last()), bytes.last())
    }
}

pub fn checksum(bytes: &[u8]) -> (sum: u32)
    ensures
        sum == checksum_of(bytes@),
{
    let mut sum: u32 = 0;
    let mut i: usize = 0;
    while i < bytes.len()
        invariant
            i <= bytes@.len(),
            sum == checksum_of(bytes@.take(i as int)),
        decreases bytes@.len() - i,
    {
        assert(bytes@.take(i + 1).drop_last() =~= bytes@.take(i as int));
        sum = sum.wrapping_add(bytes[i] as u32);
        sum = ((sum << 3) | (sum >> 29)) ^ 0xA5A5_5A5A;
        i = i + 1;
    }
    assert(bytes@.take(i as int) =~= bytes@);
    sum
}

/// Two steps of the checksum that lead to the same sum, and that started from
/// the same sum or took in the same byte, have both in common.
pub proof fn lemma_stirred_injective(s1: u32, b1: u8, s2: u32, b2: u8)
    requires
        stirred(s1, b1) == stirred(s2, b2),
    ensures
        s1 == s2 <==> b1 == b2,
{
    let t1 = s1.wrapping_add(b1 as u32);
    let t2 = s2.wrapping_add(b2 as u32);
    assert(t1 == t2) by (bit_vector)
        requires
            ((t1 << 3u32) | (t1 >> 29u32)) ^ 0xA5A55A5Au32 == ((t2 << 3u32) | (t2 >> 29u32))
                ^ 0xA5A55A5Au32,
    ;
}

/// Images that differ in one byte only have different checksums.
pub proof fn law_checksum_sees_any_single_byte(bytes: Seq<u8>, i: int, b: u8)
    requires
        0 <= i < bytes.len(),
        bytes[i] != b,
    ensures
        checksum_of(bytes.update(i, b)) != checksum_of(bytes),
    decreases bytes.len(),
{
    let changed = bytes.update(i, b);
    if i == bytes.len() - 1 {
        assert(changed.drop_last() =~= bytes.drop_last());
        if checksum_of(changed) == checksum_of(bytes) {
            let s = checksum_of(bytes.drop_last());
            lemma_stirred_injective(s, b, s, bytes.last());
        }
    } else {
        assert(changed.drop_last() =~= bytes.drop_last().update(i, b));
        law_checksum_sees_any_single_byte(bytes.drop_last(), i, b);
        if checksum_of(changed) == checksum_of(bytes) {
            lemma_stirred_injective(
                checksum_of(changed.drop_last()),
                changed.last(),
                checksum_of(bytes.drop_last()),
                bytes.last(),
            );
        }
    }
}

/// One byte more adds the byte to the sum, multiplies it by eight, puts what
/// flows over 32 bits in at the bottom, and flips the bits of `A5A55A5A`.
pub proof fn law_checksum_of_one_byte_more(bytes: Seq<u8>, b: u8)
    ensures
        checksum_of(Seq::<u8>::empty()) == 0,
        ({
            let t = (checksum_of(bytes) + b) % 0x1_0000_0000;
            let turned = (t * 8) % 0x1_0000_0000 + t / 0x2000_0000;
            checksum_of(bytes.push(b)) == (turned as u32) ^ 0xA5A5_5A5A
        }),
{
    assert(bytes.push(b).drop_last() =~= bytes);
    let t: u32 = checksum_of(bytes).wrapping_add(b as u32);
    assert((t << 3u32) | (t >> 29u32) == ((t * 8) % 0x1_0000_0000 + t / 0x2000_0000u32) as u32)
        by (bit_vector);
}

} // verus!
