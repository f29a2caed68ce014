//! Numbers in decimal.

use vstd::prelude::*;

verus! {

/// The decimal digits of `n` in ASCII, the highest first and without leading
/// zeroes.
pub open spec fn decimal(n: nat) -> Seq<u8>
    decreases n,
{
    if n < 10 {
        seq![(48 + n) as u8]
    } else {
        decimal(n / 10).push((48 + n % 10) as u8)
    }
}

/// The number that decimal digits in ASCII stand for.
pub open spec fn value(digits: Seq<u8>) -> nat
    decreases digits.len(),
{
    if digits.len() == 0 {
        0
    } else {
        value(digits.drop_last()) * 10 + (digits.last() - 48) as nat
    }
}

/// A number of `u32` has at most ten digits.
proof fn lemma_decimal_len(n: nat, k: nat)
    requires
        k >= 1,
        n < pow10(k),
    ensures
        1 <= decimal(n).len() <= k,
    decreases k,
{
    reveal_with_fuel(pow10, 2);
    if n >= 10 {
        lemma_decimal_len(n / 10, (k - 1) as nat);
    }
}

spec fn pow10(k: nat) -> nat
    decreases k,
{
    if k == 0 {
        1
    } else {
        10 * pow10((k - 1) as nat)
    }
}

/// Writes the digits of `n` at the end of `buf` and returns them.
pub fn u32_to_ascii(n: u32, buf: &mut [u8; 10]) -> (s: &[u8])
    ensures
        s@ == decimal(n as nat),
        final(buf)@ == old(buf)@.take(10 - decimal(n as nat).len()) + decimal(n as nat),
{
    let ghost digits = decimal(n as nat);
    let ghost before = buf@;
    proof {
        reveal_with_fuel(pow10, 11);
        assert(pow10(10) == 10_000_000_000);
        lemma_decimal_len(n as nat, 10);
    }
    let mut rest: u32 = n;
    let mut i: usize = 9;
    buf[9] = 48 + (rest % 10) as u8;
    while rest >= 10
        invariant
            i <= 9,
            digits.len() <= 10,
            decimal(rest as nat).len() + 9 - i == digits.len(),
            digits == decimal(rest as nat) + buf@.subrange(i + 1, 10),
            buf@[i as int] == 48 + rest % 10,
            forall|j: int| 0 <= j < i ==> buf@[j] == before[j],
        decreases rest,
    {
        let ghost tail = buf@.subrange(i + 1, 10);
        let ghost last = buf@[i as int];
        proof {
            assert(decimal(rest as nat) == decimal((rest / 10) as nat).push(last));
            assert(buf@.subrange(i as int, 10) =~= seq![last] + tail);
        }
        rest = rest / 10;
        i = i - 1;
        buf[i] = 48 + (rest % 10) as u8;
        assert(buf@.subrange(i + 1, 10) =~= seq![last] + tail);
        assert(digits =~= decimal(rest as nat) + buf@.subrange(i + 1, 10));
    }
    assert(buf@.subrange(i as int, 10) =~= digits);
    assert(buf@ =~= before.take(i as int) + digits);
    vstd::slice::slice_subrange(buf.as_slice(), i, 10)
}

/// The digits of a number stand for that number, are all digits, and have no
/// zero in front unless the number is zero.
pub proof fn law_decimal_is_the_number(n: nat)
    ensures
        value(decimal(n)) == n,
        decimal(n).len() >= 1,
        forall|i: int| 0 <= i < decimal(n).len() ==> 48 <= #[trigger] decimal(n)[i] <= 57,
        decimal(n)[0] == 48 ==> n == 0,
    decreases n,
{
    if n < 10 {
        reveal_with_fuel(value, 2);
    } else {
        law_decimal_is_the_number(n / 10);
        assert(decimal(n).drop_last() =~= decimal(n / 10));
    }
}

/// A number of one digit is that digit, and a digit that is written behind a
/// number makes it ten times as large and adds itself.
pub proof fn law_digits_are_written_one_by_one(n: nat, digit: nat)
    requires
        digit < 10,
    ensures
        decimal(digit) == seq![(48 + digit) as u8],
        n > 0 ==> decimal(10 * n + digit) == decimal(n).push((48 + digit) as u8),
{
}

/// `d` is how the number `n` is written: digits, without a zero in front, that
/// come to `n`.
pub open spec fn writes(d: Seq<u8>, n: nat) -> bool {
    &&& d.len() > 0
    &&& forall|i: int| 0 <= i < d.len() ==> 48 <= #[trigger] d[i] <= 57
    &&& d[0] == 48 ==> n == 0 && d.len() == 1
    &&& value(d) == n
}

/// A number is written as itself.
pub proof fn law_decimal_writes(n: nat)
    ensures
        writes(decimal(n), n),
    decreases n,
{
    law_decimal_is_the_number(n);
}

} // verus!
