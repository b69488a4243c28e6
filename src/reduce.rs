use vstd::arithmetic::div_mod::{lemma_add_mod_noop, lemma_add_mod_noop_right};
use vstd::prelude::*;

verus! {

/// 2^64, the number of `i64` values.
pub open spec fn i64_span() -> int {
    0x1_0000_0000_0000_0000
}

/// `x` reduced into the `i64` range modulo 2^64 (two's-complement wrap-around).
pub open spec fn wrap_i64(x: int) -> int {
    (x - i64::MIN) % i64_span() + i64::MIN
}

/// Exact sum of the elements of `s` that are divisible by two.
pub open spec fn even_sum(s: Seq<i64>) -> int
    decreases s.len(),
{
    if s.len() == 0 {
        0
    } else {
        even_sum(s.drop_last()) + if s.last() % 2 == 0 {
            s.last() as int
        } else {
            0
        }
    }
}

/// Number of bytes of `s` that are not zero.
pub open spec fn nonzero_count(s: Seq<u8>) -> nat
    decreases s.len(),
{
    if s.len() == 0 {
        0
    } else {
        nonzero_count(s.drop_last()) + if s.last() != 0 {
            1nat
        } else {
            0
        }
    }
}

/// Exact sum of the strictly positive elements of `s`.
pub open spec fn positive_sum(s: Seq<i64>) -> int
    decreases s.len(),
{
    if s.len() == 0 {
        0
    } else {
        positive_sum(s.drop_last()) + if s.last() > 0 {
            s.last() as int
        } else {
            0
        }
    }
}

/// Number of strictly positive elements of `s`.
pub open spec fn positive_count(s: Seq<i64>) -> nat
    decreases s.len(),
{
    if s.len() == 0 {
        0
    } else {
        positive_count(s.drop_last()) + if s.last() > 0 {
            1nat
        } else {
            0
        }
    }
}

proof fn lemma_wrap_add(acc: i64, total: int, v: i64)
    requires
        acc as int == wrap_i64(total),
    ensures
        vstd::wrapping::i64_specs::wrapping_add(acc, v) as int == wrap_i64(total + v),
{
    let m = i64_span();
    let h = -(i64::MIN as int);
    lemma_add_mod_noop(total + h, v as int, m);
    lemma_add_mod_noop_right((total + h) % m, v as int, m);
    let y = acc + v + h;
    if y >= m {
        vstd::arithmetic::div_mod::lemma_mod_sub_multiples_vanish(y, m);
        vstd::arithmetic::div_mod::lemma_small_mod((y - m) as nat, m as nat);
    } else if y < 0 {
        vstd::arithmetic::div_mod::lemma_mod_add_multiples_vanish(y, m);
        vstd::arithmetic::div_mod::lemma_small_mod((y + m) as nat, m as nat);
    } else {
        vstd::arithmetic::div_mod::lemma_small_mod(y as nat, m as nat);
    }
}

/// Sum of the elements of `values` that are divisible by two (negative ones
/// included), read in one bounds-checked pass. The sum wraps around in `i64`; it
/// is exact whenever it fits.
pub fn sum_even(values: &[i64]) -> (r: i64)
    ensures
        r as int == wrap_i64(even_sum(values@)),
        i64::MIN <= even_sum(values@) <= i64::MAX ==> r as int == even_sum(values@),
{
    let mut acc: i64 = 0;
    let mut i: usize = 0;
    while i < values.len()
        invariant
            i <= values@.len(),
            acc as int == wrap_i64(even_sum(values@.subrange(0, i as int))),
        decreases values@.len() - i,
    {
        let v = values[i];
        let ghost before = even_sum(values@.subrange(0, i as int));
        assert(values@.subrange(0, i + 1).drop_last() == values@.subrange(0, i as int));
        if v % 2 == 0 {
            proof {
                lemma_wrap_add(acc, before, v);
            }
            acc = acc.wrapping_add(v);
        }
        i = i + 1;
    }
    assert(values@.subrange(0, values@.len() as int) == values@);
    acc
}

/// Number of non-zero bytes of `input`. The buffer is only borrowed and read.
pub fn leak_buffer(input: &[u8]) -> (r: usize)
    ensures
        r == nonzero_count(input@),
{
    let mut count: usize = 0;
    let mut i: usize = 0;
    while i < input.len()
        invariant
            i <= input@.len(),
            count == nonzero_count(input@.subrange(0, i as int)),
            count <= i,
        decreases input@.len() - i,
    {
        assert(input@.subrange(0, i + 1).drop_last() == input@.subrange(0, i as int));
        if input[i] != 0 {
            count = count + 1;
        }
        i = i + 1;
    }
    assert(input@.subrange(0, input@.len() as int) == input@);
    count
}

/// Sum and number of the strictly positive elements of `values`: the exact
/// numerator and denominator of their arithmetic mean. The sum cannot overflow.
pub fn positive_sum_and_count(values: &[i64]) -> (r: (u128, usize))
    ensures
        r.0 as int == positive_sum(values@),
        r.1 as int == positive_count(values@),
{
    let mut sum: u128 = 0;
    let mut count: usize = 0;
    let mut i: usize = 0;
    while i < values.len()
        invariant
            i <= values@.len(),
            sum as int == positive_sum(values@.subrange(0, i as int)),
            count == positive_count(values@.subrange(0, i as int)),
            sum as int <= i as int * (i64::MAX as int),
            count <= i,
        decreases values@.len() - i,
    {
        let v = values[i];
        assert(values@.subrange(0, i + 1).drop_last() == values@.subrange(0, i as int));
        if v > 0 {
            assert(sum as int + v as int <= (i as int + 1) * (i64::MAX as int)
                <= usize::MAX as int * (i64::MAX as int)) by (nonlinear_arith)
                requires
                    sum as int <= i as int * (i64::MAX as int),
                    v <= i64::MAX,
                    i < usize::MAX,
            ;
            sum = sum + v as u128;
            count = count + 1;
        }
        i = i + 1;
    }
    assert(values@.subrange(0, values@.len() as int) == values@);
    (sum, count)
}

} // verus!
