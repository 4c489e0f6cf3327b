use vstd::prelude::*;

use vstd::arithmetic::div_mod::{
    lemma_fundamental_div_mod, lemma_fundamental_div_mod_converse, lemma_mod_pos_bound,
};
use vstd::arithmetic::mul::lemma_mul_is_commutative;

verus! {

/// Integer division rounding toward zero, which is what `/` computes on
/// Rust's signed integers (for a positive divisor).
pub open spec fn tdiv(a: int, b: int) -> int {
    if a >= 0 {
        a / b
    } else {
        -((-a) / b)
    }
}

/// The remainder left by `tdiv`; it has the sign of the dividend.
pub open spec fn trem(a: int, b: int) -> int {
    a - tdiv(a, b) * b
}

/// The value can be held by an `i64`.
pub open spec fn fits_i64(x: int) -> bool {
    i64::MIN <= x <= i64::MAX
}

/// Euclidean division facts for a nonnegative dividend.
pub proof fn lemma_div_nonneg(a: int, b: int)
    requires
        a >= 0,
        b > 0,
    ensures
        a / b >= 0,
        (a / b) * b <= a,
        a < (a / b) * b + b,
{
    lemma_fundamental_div_mod(a, b);
    lemma_mod_pos_bound(a, b);
    lemma_mul_is_commutative(b, a / b);
    if a / b < 0 {
        assert((a / b) * b <= -b) by (nonlinear_arith)
            requires
                a / b < 0,
                b > 0,
        ;
    }
}

/// Bounds on the quotient and remainder of `tdiv`.
pub proof fn lemma_tdiv(a: int, b: int)
    requires
        b > 0,
    ensures
        a == tdiv(a, b) * b + trem(a, b),
        a >= 0 ==> 0 <= tdiv(a, b) && 0 <= trem(a, b) < b && tdiv(a, b) * b <= a,
        a <= 0 ==> tdiv(a, b) <= 0 && -b < trem(a, b) <= 0 && a <= tdiv(a, b) * b,
        a >= 0 ==> tdiv(a, b) == a / b,
{
    if a >= 0 {
        lemma_div_nonneg(a, b);
    } else {
        lemma_div_nonneg(-a, b);
        let q = (-a) / b;
        assert(tdiv(a, b) == -q);
        assert((-q) * b == -(q * b)) by (nonlinear_arith);
    }
}

/// The quotient of `tdiv` is the unique `q` that leaves a remainder of the
/// dividend's sign smaller than the divisor.
pub proof fn lemma_tdiv_unique(a: int, b: int, q: int, r: int)
    requires
        b > 0,
        a == q * b + r,
        (a >= 0 && 0 <= r < b) || (a <= 0 && -b < r <= 0),
    ensures
        tdiv(a, b) == q,
        trem(a, b) == r,
{
    if a >= 0 && 0 <= r < b {
        lemma_fundamental_div_mod_converse(a, b, q, r);
    } else {
        assert(-a == (-q) * b + (-r)) by (nonlinear_arith)
            requires
                a == q * b + r,
        ;
        lemma_fundamental_div_mod_converse(-a, b, -q, -r);
        if a == 0 {
            assert(q * b == -r);
            if q > 0 {
                assert(q * b >= b) by (nonlinear_arith)
                    requires
                        q > 0,
                        b > 0,
                ;
            }
            if q < 0 {
                assert(q * b <= -b) by (nonlinear_arith)
                    requires
                        q < 0,
                        b > 0,
                ;
            }
            assert(tdiv(a, b) == 0);
        }
    }
}

/// Multiplying a bounded factor by a nonnegative one stays within the
/// correspondingly scaled bound.
pub proof fn lemma_mul_within(x: int, lo: int, hi: int, k: int)
    requires
        lo <= x <= hi,
        k >= 0,
    ensures
        lo * k <= x * k <= hi * k,
{
    assert(lo * k <= x * k <= hi * k) by (nonlinear_arith)
        requires
            lo <= x <= hi,
            k >= 0,
    ;
}

} // verus!
