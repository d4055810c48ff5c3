use vstd::arithmetic::div_mod::{
    lemma_div_is_ordered, lemma_div_multiples_vanish, lemma_fundamental_div_mod,
    lemma_mod_bound,
};
use vstd::arithmetic::mul::{
    lemma_mul_inequality, lemma_mul_is_commutative, lemma_mul_is_distributive_add,
    lemma_mul_nonnegative,
};
use vstd::prelude::*;

verus! {

/// Floor division is superadditive over nonnegative numerators:
/// `a / d + b / d <= (a + b) / d`.
pub proof fn lemma_div_sum_le(a: int, b: int, d: int)
    requires
        0 <= a,
        0 <= b,
        0 < d,
    ensures
        a / d + b / d <= (a + b) / d,
{
    lemma_fundamental_div_mod(a, d);
    lemma_fundamental_div_mod(b, d);
    lemma_mod_bound(a, d);
    lemma_mod_bound(b, d);
    let q = a / d + b / d;
    assert(d * q == d * (a / d) + d * (b / d)) by {
        lemma_mul_is_distributive_add(d, a / d, b / d);
    }
    assert(d * q <= a + b);
    assert((d * q) / d <= (a + b) / d) by {
        lemma_div_is_ordered(d * q, a + b, d);
    }
    assert((d * q) / d == q) by {
        lemma_mul_is_commutative(d, q);
        lemma_div_multiples_vanish(q, d);
    }
}

/// Floor division is monotone in the numerator:
/// `a <= b` implies `a / d <= b / d`.
pub proof fn lemma_div_le(a: int, b: int, d: int)
    requires
        a <= b,
        0 < d,
    ensures
        a / d <= b / d,
{
    lemma_div_is_ordered(a, b, d);
}

/// A numerator bounded by `v` times the denominator divides down to at
/// most `v`: `x <= v * t` implies `x / t <= v`.
pub proof fn lemma_div_bounded_by_factor(x: int, v: int, t: int)
    requires
        0 <= x,
        0 <= v,
        0 < t,
        x <= v * t,
    ensures
        x / t <= v,
{
    lemma_div_is_ordered(x, v * t, t);
    assert((v * t) / t == v) by {
        lemma_mul_is_commutative(v, t);
        lemma_div_multiples_vanish(v, t);
    }
}

/// Multiplying by a positive `w` stays within `m` exactly when the factor
/// is at most `m / w`: for nonnegative `x` and `m`,
/// `x * w <= m` if and only if `x <= m / w`.
pub proof fn lemma_mul_le_iff_div(x: int, w: int, m: int)
    requires
        0 <= x,
        0 <= m,
        0 < w,
    ensures
        x * w <= m <==> x <= m / w,
{
    lemma_fundamental_div_mod(m, w);
    lemma_mod_bound(m, w);
    if x <= m / w {
        assert(x * w <= (m / w) * w) by {
            lemma_mul_inequality(x, m / w, w);
        }
        assert((m / w) * w == w * (m / w)) by {
            lemma_mul_is_commutative(m / w, w);
        }
    }
    if x * w <= m {
        assert((x * w) / w <= m / w) by {
            lemma_div_is_ordered(x * w, m, w);
        }
        assert((x * w) / w == x) by {
            lemma_mul_is_commutative(x, w);
            lemma_div_multiples_vanish(x, w);
        }
    }
}

/// The redemption formula never pays out more than the vault: when the
/// burned claim `l * w` is at most the weighted supply `t`,
/// `(v * l * w) / t <= v`.
pub proof fn lemma_redeem_le_vault(v: int, l: int, w: int, t: int)
    requires
        0 <= v,
        0 <= l,
        0 <= w,
        0 < t,
        l * w <= t,
    ensures
        (v * l * w) / t <= v,
{
    assert(v * l * w == v * (l * w)) by {
        vstd::arithmetic::mul::lemma_mul_is_associative(v, l, w);
    }
    assert(v * (l * w) <= v * t) by {
        lemma_mul_inequality(l * w, t, v);
        lemma_mul_is_commutative(l * w, v);
        lemma_mul_is_commutative(t, v);
    }
    lemma_mul_nonnegative(v, l * w);
    lemma_div_bounded_by_factor(v * (l * w), v, t);
}

} // verus!
