//! Decimal formatting of an unsigned integer into a caller's buffer, without
//! allocation.
//!
//! The digits come out least significant first and are left in that order:
//! 42 is rendered as `2`, `4`. A reader that wants the usual order reverses
//! the slice it gets.

use vstd::prelude::*;

verus! {

/// The most digits that a `u32` takes.
pub const MAX_DIGITS: usize = 10;

/// The ASCII code of the digit `0`; the other digits follow it in order.
pub const DIGIT_ZERO: u8 = 0x30;

/// The decimal digits of `value` as ASCII, least significant first. Zero
/// has the one digit `0`.
pub open spec fn digits_low_first(value: nat) -> Seq<u8>
    decreases value,
{
    if value < 10 {
        seq![(DIGIT_ZERO + value) as u8]
    } else {
        seq![(DIGIT_ZERO + value % 10) as u8] + digits_low_first(value / 10)
    }
}

/// The number that ASCII digits denote when the least significant comes
/// first.
pub open spec fn number_of(digits: Seq<u8>) -> int
    decreases digits.len(),
{
    if digits.len() == 0 {
        0
    } else {
        (digits[0] - DIGIT_ZERO) + 10 * number_of(digits.drop_first())
    }
}

/// The first `capacity` items of `digits`, or all of them if there are fewer.
pub open spec fn truncated(digits: Seq<u8>, capacity: nat) -> Seq<u8> {
    if digits.len() <= capacity {
        digits
    } else {
        digits.take(capacity as int)
    }
}

/// The digits of a number are ASCII digits, at least one of them, and they
/// denote that number.
pub proof fn lemma_digits_denote(value: nat)
    ensures
        digits_low_first(value).len() >= 1,
        forall|i: int|
            0 <= i < digits_low_first(value).len() ==> DIGIT_ZERO <= #[trigger] digits_low_first(
                value,
            )[i] <= DIGIT_ZERO + 9,
        number_of(digits_low_first(value)) == value,
    decreases value,
{
    let digits = digits_low_first(value);
    assert(digits[0] == DIGIT_ZERO + value % 10);
    if value >= 10 {
        lemma_digits_denote(value / 10);
        assert(digits.drop_first() =~= digits_low_first(value / 10));
    } else {
        assert(digits.drop_first() =~= Seq::<u8>::empty());
        assert(number_of(digits.drop_first()) == 0);
    }
}

/// A number below ten to the power of `count` has no more than `count`
/// digits.
proof fn lemma_digits_count(value: nat, count: nat, bound: nat)
    requires
        count >= 1,
        bound == vstd::arithmetic::power::pow(10, count),
        value < bound,
    ensures
        digits_low_first(value).len() <= count,
    decreases count,
{
    vstd::arithmetic::power::lemma_pow1(10);
    if count > 1 {
        vstd::arithmetic::power::lemma_pow_adds(10, 1, (count - 1) as nat);
        let below = vstd::arithmetic::power::pow(10, (count - 1) as nat);
        assert(bound == 10 * below);
        if value >= 10 {
            lemma_digits_count(value / 10, (count - 1) as nat, below as nat);
        }
    }
}

/// Ten digits are enough for every `u32`.
pub proof fn lemma_digits_fit(value: u32)
    ensures
        digits_low_first(value as nat).len() <= MAX_DIGITS,
{
    assert(vstd::arithmetic::power::pow(10, 10) == 10_000_000_000int) by {
        reveal_with_fuel(vstd::arithmetic::power::pow, 11);
    }
    lemma_digits_count(value as nat, 10, 10_000_000_000nat);
}

/// Renders `num` in decimal into the front of `buffer`, least significant
/// digit first, and returns the part of the buffer that was written. A buffer
/// too short for all the digits gets as many as it holds, from the least
/// significant on; with room for `MAX_DIGITS` nothing is ever cut. The rest of
/// the buffer is left as it was.
pub fn u32_to_str(num: u32, buffer: &mut [u8]) -> (out: &[u8])
    ensures
        out@ == truncated(digits_low_first(num as nat), old(buffer)@.len()),
        final(buffer)@ == out@ + old(buffer)@.skip(out@.len() as int),
        old(buffer)@.len() >= MAX_DIGITS ==> out@ == digits_low_first(num as nat),
        num == 0 && old(buffer)@.len() > 0 ==> out@ == seq![DIGIT_ZERO],
{
    let ghost before = buffer@;
    let ghost digits = digits_low_first(num as nat);
    proof {
        lemma_digits_fit(num);
    }
    if num == 0 && buffer.len() > 0 {
        buffer[0] = DIGIT_ZERO;
        assert(buffer@ =~= digits + before.skip(1));
        return &buffer[0..1];
    }
    let mut rest: u32 = num;
    let mut written: usize = 0;
    while rest > 0 && written < buffer.len()
        invariant
            written <= buffer@.len(),
            buffer@.len() == before.len(),
            forall|kept: int| written <= kept < before.len() ==> buffer@[kept] == before[kept],
            num > 0 || before.len() == 0,
            rest > 0 ==> digits == buffer@.take(written as int) + digits_low_first(rest as nat),
            rest == 0 && num > 0 ==> digits == buffer@.take(written as int),
        decreases rest,
    {
        let ghost filled = buffer@;
        buffer[written] = DIGIT_ZERO + (rest % 10) as u8;
        proof {
            let next = digits_low_first(rest as nat);
            assert(buffer@.take(written + 1) =~= filled.take(written as int) + seq![next[0]]);
            if rest >= 10 {
                assert(filled.take(written as int) + next =~= buffer@.take(written + 1)
                    + digits_low_first((rest / 10) as nat));
            }
        }
        rest = rest / 10;
        written = written + 1;
    }
    proof {
        lemma_digits_denote(rest as nat);
        assert(buffer@ =~= buffer@.take(written as int) + before.skip(written as int));
        if rest > 0 {
            assert(buffer@.take(written as int) =~= digits.take(written as int));
        }
    }
    &buffer[0..written]
}

} // verus!
