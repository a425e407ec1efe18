//! Quotients of integers as real numbers, and the facts about them
//! that connect integer arithmetic to the real-valued waveforms.
use vstd::prelude::*;

verus! {

/// The quotient `num / den` as a real number.
pub open spec fn ratio(num: int, den: int) -> real {
    num as real / den as real
}

/// The fractional part of `x`: the distance from the integer just below it.
pub open spec fn frac(x: real) -> real {
    x - x.floor() as real
}

/// One half.
pub open spec fn half() -> real {
    1real / 2real
}

/// One quarter.
pub open spec fn quarter() -> real {
    1real / 4real
}

/// A whole number more leaves the fractional part as it was.
pub proof fn lemma_frac_cycle(x: real)
    ensures
        frac(x + 1real) == frac(x),
{
    assert((x + 1real).floor() == x.floor() + 1);
}

/// A whole number over any positive denominator `den` is `whole * den / den`.
pub proof fn lemma_ratio_whole(whole: int, den: int)
    requires
        den > 0,
    ensures
        ratio(whole * den, den) == whole as real,
{
    assert(ratio(whole * den, den) == whole as real) by (nonlinear_arith)
        requires
            den > 0,
    ;
}

/// Quotients over one denominator add by their numerators.
pub proof fn lemma_ratio_add(a: int, b: int, den: int)
    requires
        den > 0,
    ensures
        ratio(a, den) + ratio(b, den) == ratio(a + b, den),
{
    assert(ratio(a, den) + ratio(b, den) == ratio(a + b, den)) by (nonlinear_arith)
        requires
            den > 0,
    ;
}

/// Multiplying a quotient by a whole number multiplies its numerator.
pub proof fn lemma_ratio_mul(whole: int, num: int, den: int)
    requires
        den > 0,
    ensures
        whole as real * ratio(num, den) == ratio(whole * num, den),
        ratio(num, den) * whole as real == ratio(num * whole, den),
{
    assert(whole as real * ratio(num, den) == ratio(whole * num, den)) by (nonlinear_arith)
        requires
            den > 0,
    ;
    assert(ratio(num, den) * whole as real == ratio(num * whole, den)) by (nonlinear_arith)
        requires
            den > 0,
    ;
}

/// Over a positive denominator, quotients are ordered as their numerators are.
pub proof fn lemma_ratio_order(a: int, b: int, den: int)
    requires
        den > 0,
    ensures
        a < b <==> ratio(a, den) < ratio(b, den),
        a == b <==> ratio(a, den) == ratio(b, den),
{
    assert(a < b ==> ratio(a, den) < ratio(b, den)) by (nonlinear_arith)
        requires
            den > 0,
    ;
    assert(b < a ==> ratio(b, den) < ratio(a, den)) by (nonlinear_arith)
        requires
            den > 0,
    ;
}

/// The floor of a quotient is the Euclidean quotient, and its fractional
/// part is the Euclidean remainder over the same denominator.
pub proof fn lemma_ratio_floor(num: int, den: int)
    requires
        den > 0,
    ensures
        ratio(num, den).floor() == num / den,
        frac(ratio(num, den)) == ratio(num % den, den),
{
    let q = num / den;
    let r = num % den;
    assert(num == q * den + r && 0 <= r < den) by (nonlinear_arith)
        requires
            den > 0,
            q == num / den,
            r == num % den,
    ;
    let x = ratio(num, den);
    let rest = ratio(r, den);
    assert(x == q as real + rest) by {
        lemma_ratio_whole(q, den);
        lemma_ratio_add(q * den, r, den);
    }
    assert(0real <= rest < 1real) by (nonlinear_arith)
        requires
            0 <= r < den,
            rest == r as real / den as real,
    ;
    assert(x.floor() == q);
}

} // verus!
