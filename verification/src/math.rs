//! Integer division that rounds toward zero, and integer square roots.

use vstd::arithmetic::div_mod::lemma_fundamental_div_mod;
use vstd::prelude::*;

verus! {

/// The quotient of `a` by a positive `b`, rounded toward zero.
pub open spec fn div_toward_zero(a: int, b: int) -> int {
    if a >= 0 {
        a / b
    } else {
        -((-a) / b)
    }
}

/// The absolute value of an integer.
pub open spec fn abs_int(a: int) -> int {
    if a >= 0 {
        a
    } else {
        -a
    }
}

/// The quotient of `a` by a positive `b`, rounded toward zero.
pub fn divide_toward_zero(a: i128, b: i128) -> (quotient: i128)
    requires
        b > 0,
    ensures
        quotient == div_toward_zero(a as int, b as int),
{
    proof {
        lemma_div_toward_zero_bounds(a as int, b as int);
    }
    a / b
}

/// A quotient rounded toward zero has the sign of the dividend, and times
/// the divisor it is no farther from zero than the dividend, and less than a
/// divisor short of it.
pub proof fn lemma_div_toward_zero_bounds(a: int, b: int)
    requires
        b > 0,
    ensures
        a >= 0 ==> 0 <= div_toward_zero(a, b) <= a,
        a <= 0 ==> a <= div_toward_zero(a, b) <= 0,
        abs_int(div_toward_zero(a, b)) * b <= abs_int(a),
        abs_int(a) < (abs_int(div_toward_zero(a, b)) + 1) * b,
{
    let m = abs_int(a);
    lemma_fundamental_div_mod(m, b);
    let q = m / b;
    assert(0 <= m % b < b);
    assert(b * q <= m);
    assert(q >= 0) by (nonlinear_arith)
        requires
            b * q + (m % b) == m,
            0 <= m % b < b,
            m >= 0,
            b > 0,
    ;
    assert(q <= m) by (nonlinear_arith)
        requires
            b * q <= m,
            q >= 0,
            b >= 1,
    ;
    assert(abs_int(div_toward_zero(a, b)) == q);
    assert(q * b == b * q) by (nonlinear_arith);
    assert((q + 1) * b == b * q + b) by (nonlinear_arith);
}

/// A quotient rounded toward zero is bounded by `bound` when the dividend is
/// bounded by `bound` times the divisor.
pub proof fn lemma_div_toward_zero_within(a: int, b: int, bound: int)
    requires
        b > 0,
        bound >= 0,
        -(bound * b) <= a <= bound * b,
    ensures
        -bound <= div_toward_zero(a, b) <= bound,
{
    lemma_div_toward_zero_bounds(a, b);
    let q = abs_int(div_toward_zero(a, b));
    assert(q <= bound) by (nonlinear_arith)
        requires
            q * b <= abs_int(a),
            abs_int(a) <= bound * b,
            b > 0,
    ;
}

/// Whether `root` is the integer square root of `n`: the largest integer
/// whose square is not above `n`.
pub open spec fn is_floor_sqrt(n: int, root: int) -> bool {
    &&& root >= 0
    &&& root * root <= n
    &&& n < (root + 1) * (root + 1)
}

/// The integer square root of a number that is not negative.
pub open spec fn floor_sqrt(n: int) -> int {
    choose|root: int| is_floor_sqrt(n, root)
}

/// A number has one integer square root at most.
pub proof fn lemma_floor_sqrt_unique(n: int, a: int, b: int)
    requires
        is_floor_sqrt(n, a),
        is_floor_sqrt(n, b),
    ensures
        a == b,
{
    if a < b {
        assert((a + 1) * (a + 1) <= b * b) by (nonlinear_arith)
            requires
                0 <= a,
                a + 1 <= b,
        ;
    } else if b < a {
        assert((b + 1) * (b + 1) <= a * a) by (nonlinear_arith)
            requires
                0 <= b,
                b + 1 <= a,
        ;
    }
}

/// An integer whose square is not above `n`, while the square of the next is,
/// is the integer square root of `n`.
pub proof fn lemma_floor_sqrt_is(n: int, root: int)
    requires
        is_floor_sqrt(n, root),
    ensures
        floor_sqrt(n) == root,
{
    lemma_floor_sqrt_unique(n, root, floor_sqrt(n));
}

/// The integer square root: the largest integer whose square is not above
/// `n`.
pub fn integer_sqrt(n: u64) -> (root: u64)
    ensures
        is_floor_sqrt(n as int, root as int),
        root == floor_sqrt(n as int),
        root < 0x1_0000_0000,
{
    let mut low: u64 = 0;
    let mut high: u64 = 0x1_0000_0000;
    assert(0x1_0000_0000int * 0x1_0000_0000int == 0x1_0000_0000_0000_0000int) by (nonlinear_arith);
    while high - low > 1
        invariant
            low < high <= 0x1_0000_0000,
            low * low <= n,
            n < high * high,
        decreases high - low,
    {
        let mid: u64 = low + (high - low) / 2;
        assert(mid * mid <= 0xffff_ffff * 0xffff_ffff) by (nonlinear_arith)
            requires
                0 <= mid <= 0xffff_ffff,
        ;
        if mid * mid <= n {
            low = mid;
        } else {
            high = mid;
        }
    }
    proof {
        lemma_floor_sqrt_is(n as int, low as int);
    }
    low
}

/// The smallest integer whose square is not below `n`.
pub open spec fn ceil_sqrt(n: int) -> int {
    if floor_sqrt(n) * floor_sqrt(n) == n {
        floor_sqrt(n)
    } else {
        floor_sqrt(n) + 1
    }
}

/// The smallest integer whose square is not below `n`.
pub fn integer_sqrt_ceil(n: u64) -> (root: u64)
    ensures
        root == ceil_sqrt(n as int),
        root * root >= n,
        root <= 0x1_0000_0000,
{
    let floor = integer_sqrt(n);
    assert(floor * floor <= 0xffff_ffff * 0xffff_ffff) by (nonlinear_arith)
        requires
            0 <= floor <= 0xffff_ffff,
    ;
    if floor * floor == n {
        floor
    } else {
        floor + 1
    }
}

} // verus!
