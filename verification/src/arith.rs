//! Integer facts the contracts' accounting relies on: the range of `i128`,
//! Rust's truncating division, and sums over keyed balances.

use vstd::prelude::*;

verus! {

pub open spec fn fits_i128(x: int) -> bool {
    i128::MIN <= x <= i128::MAX
}

pub open spec fn fits_u32(x: int) -> bool {
    0 <= x <= u32::MAX
}

/// Rust's integer division: the quotient truncated toward zero.
pub open spec fn tdiv(x: int, d: int) -> int {
    if x == 0 {
        0
    } else if x > 0 && d > 0 {
        x / d
    } else if x < 0 && d < 0 {
        (x * -1) / (d * -1)
    } else if x < 0 {
        ((x * -1) / d) * -1
    } else {
        (x / (d * -1)) * -1
    }
}

pub open spec fn min_int(a: int, b: int) -> int {
    if a <= b {
        a
    } else {
        b
    }
}

/// `x / d` on `i128`, failing where Rust panics (division by zero, or the
/// one quotient that leaves the range).
pub fn checked_tdiv(x: i128, d: i128) -> (r: Option<i128>)
    ensures
        match r {
            Some(q) => d != 0 && fits_i128(tdiv(x as int, d as int)) && q == tdiv(x as int, d as int),
            None => d == 0 || !fits_i128(tdiv(x as int, d as int)),
        },
{
    x.checked_div(d)
}

pub fn checked_mul(a: i128, b: i128) -> (r: Option<i128>)
    ensures
        match r {
            Some(v) => fits_i128(a * b) && v == a * b,
            None => !fits_i128(a * b),
        },
{
    a.checked_mul(b)
}

pub fn checked_add(a: i128, b: i128) -> (r: Option<i128>)
    ensures
        match r {
            Some(v) => fits_i128(a + b) && v == a + b,
            None => !fits_i128(a + b),
        },
{
    a.checked_add(b)
}

pub fn checked_sub(a: i128, b: i128) -> (r: Option<i128>)
    ensures
        match r {
            Some(v) => fits_i128(a - b) && v == a - b,
            None => !fits_i128(a - b),
        },
{
    a.checked_sub(b)
}

pub fn min_i128(a: i128, b: i128) -> (r: i128)
    ensures
        r == min_int(a as int, b as int),
{
    if a <= b {
        a
    } else {
        b
    }
}

/// Sum of the balances of keyed entries.
pub open spec fn sum_entries(s: Seq<(u64, i128)>) -> int
    decreases s.len(),
{
    if s.len() == 0 {
        0
    } else {
        sum_entries(s.drop_last()) + s.last().1
    }
}

/// Sum of a sequence of integers.
pub open spec fn sum_ints(s: Seq<int>) -> int
    decreases s.len(),
{
    if s.len() == 0 {
        0
    } else {
        sum_ints(s.drop_last()) + s.last()
    }
}

pub proof fn lemma_sum_push(s: Seq<(u64, i128)>, e: (u64, i128))
    ensures
        sum_entries(s.push(e)) == sum_entries(s) + e.1,
{
    assert(s.push(e).drop_last() =~= s);
}

pub proof fn lemma_sum_insert(s: Seq<(u64, i128)>, i: int, e: (u64, i128))
    requires
        0 <= i <= s.len(),
    ensures
        sum_entries(s.insert(i, e)) == sum_entries(s) + e.1,
    decreases s.len(),
{
    let t = s.insert(i, e);
    if i == s.len() {
        assert(t.drop_last() =~= s);
    } else {
        assert(t.drop_last() =~= s.drop_last().insert(i, e));
        assert(t.last() == s.last());
        lemma_sum_insert(s.drop_last(), i, e);
    }
}

pub proof fn lemma_sum_remove(s: Seq<(u64, i128)>, i: int)
    requires
        0 <= i < s.len(),
    ensures
        sum_entries(s.remove(i)) == sum_entries(s) - s[i].1,
{
    assert(s.remove(i).insert(i, s[i]) =~= s);
    lemma_sum_insert(s.remove(i), i, s[i]);
}

pub proof fn lemma_sum_update(s: Seq<(u64, i128)>, i: int, e: (u64, i128))
    requires
        0 <= i < s.len(),
    ensures
        sum_entries(s.update(i, e)) == sum_entries(s) - s[i].1 + e.1,
{
    assert(s.update(i, e) =~= s.remove(i).insert(i, e));
    lemma_sum_remove(s, i);
    lemma_sum_insert(s.remove(i), i, e);
}

pub proof fn lemma_sum_ints_push(s: Seq<int>, x: int)
    ensures
        sum_ints(s.push(x)) == sum_ints(s) + x,
{
    assert(s.push(x).drop_last() =~= s);
}

/// Dividing by a positive number never leaves the range of the dividend.
pub proof fn lemma_tdiv_fits(x: int, d: int)
    requires
        d > 0,
        fits_i128(x),
    ensures
        fits_i128(tdiv(x, d)),
        x >= 0 ==> 0 <= tdiv(x, d) <= x,
        x < 0 ==> x <= tdiv(x, d) <= 0,
{
    if x > 0 {
        assert(x / d <= x) by (nonlinear_arith)
            requires
                x > 0,
                d > 0,
        ;
        assert(x / d >= 0) by (nonlinear_arith)
            requires
                x > 0,
                d > 0,
        ;
    } else if x < 0 {
        let y = x * -1;
        assert(y / d <= y) by (nonlinear_arith)
            requires
                y > 0,
                d > 0,
        ;
        assert(y / d >= 0) by (nonlinear_arith)
            requires
                y > 0,
                d > 0,
        ;
    }
}

/// `a - b` clamped to the range of `i128`.
pub open spec fn saturating_sub_spec(a: int, b: int) -> int {
    if a - b > i128::MAX {
        i128::MAX as int
    } else if a - b < i128::MIN {
        i128::MIN as int
    } else {
        a - b
    }
}

/// `i128::saturating_sub`.
pub fn saturating_sub_i128(a: i128, b: i128) -> (r: i128)
    ensures
        r == saturating_sub_spec(a as int, b as int),
{
    match a.checked_sub(b) {
        Some(v) => v,
        None => if b > 0 {
            i128::MIN
        } else {
            i128::MAX
        },
    }
}

} // verus!
