//! Small facts about products of integers. The geometric identities of the
//! rasterizer are assembled from these, one step at a time.
use vstd::arithmetic::div_mod::lemma_fundamental_div_mod;
use vstd::arithmetic::div_mod::lemma_mod_bound;
use vstd::arithmetic::mul::lemma_mul_inequality;
use vstd::arithmetic::mul::lemma_mul_inequality_converse;
use vstd::arithmetic::mul::lemma_mul_is_associative;
use vstd::arithmetic::mul::lemma_mul_is_commutative;
use vstd::arithmetic::mul::lemma_mul_is_distributive_add;
use vstd::arithmetic::mul::lemma_mul_is_distributive_sub;
use vstd::arithmetic::mul::lemma_mul_strict_inequality;
use vstd::arithmetic::mul::lemma_mul_strict_inequality_converse;
use vstd::prelude::*;

verus! {

/// The magnitude of an integer.
pub open spec fn magnitude(a: int) -> int {
    if a < 0 {
        -a
    } else {
        a
    }
}

/// The factors of a product may change places.
pub proof fn lemma_swap(a: int, b: int)
    ensures
        a * b == b * a,
{
    lemma_mul_is_commutative(a, b);
}

/// The factors of a product of three may be grouped and ordered at will.
pub proof fn lemma_regroup(a: int, b: int, c: int)
    ensures
        (a * b) * c == a * (b * c),
        (a * b) * c == (a * c) * b,
        (a * b) * c == (c * b) * a,
        (a * b) * c == (b * a) * c,
        (a * b) * c == (c * a) * b,
        (a * b) * c == (b * c) * a,
        (a * b) * c == c * (a * b),
{
    lemma_mul_is_associative(a, b, c);
    lemma_mul_is_associative(a, c, b);
    lemma_mul_is_associative(c, b, a);
    lemma_mul_is_associative(c, a, b);
    lemma_mul_is_associative(b, c, a);
    lemma_mul_is_commutative(a, b);
    lemma_mul_is_commutative(b, c);
    lemma_mul_is_commutative(a, c);
    lemma_mul_is_commutative(a * b, c);
    lemma_mul_is_commutative(a, b * c);
    lemma_mul_is_commutative(a, c * b);
    lemma_mul_is_commutative(b, a * c);
    lemma_mul_is_commutative(b, c * a);
    lemma_mul_is_commutative(a * c, b);
    lemma_mul_is_commutative(c * b, a);
    lemma_mul_is_commutative(c * a, b);
    lemma_mul_is_commutative(b * c, a);
}

/// A factor spreads over a sum of two.
pub proof fn lemma_spread_two(t: int, x: int, y: int)
    ensures
        t * (x + y) == t * x + t * y,
        (x + y) * t == x * t + y * t,
        t * (x - y) == t * x - t * y,
        (x - y) * t == x * t - y * t,
{
    lemma_mul_is_distributive_add(t, x, y);
    lemma_mul_is_distributive_sub(t, x, y);
    lemma_mul_is_commutative(t, x + y);
    lemma_mul_is_commutative(t, x - y);
    lemma_mul_is_commutative(t, x);
    lemma_mul_is_commutative(t, y);
}

/// A factor spreads over a sum of three.
pub proof fn lemma_spread_three(t: int, x: int, y: int, z: int)
    ensures
        t * (x + y + z) == t * x + t * y + t * z,
        (x + y + z) * t == x * t + y * t + z * t,
{
    lemma_spread_two(t, x + y, z);
    lemma_spread_two(t, x, y);
}

/// The product of two differences, written out.
pub proof fn lemma_product_of_differences(a: int, b: int, c: int, d: int)
    ensures
        (a - b) * (c - d) == a * c - a * d - b * c + b * d,
{
    lemma_spread_two(c - d, a, b);
    lemma_spread_two(a, c, d);
    lemma_spread_two(b, c, d);
}

/// A product with a zero factor is zero.
pub proof fn lemma_zero_factor(a: int)
    ensures
        a * 0 == 0,
        0 * a == 0,
{
}

/// Scaling by a factor that is not negative keeps the order.
pub proof fn lemma_scale_order(a: int, b: int, c: int)
    requires
        a <= b,
        c >= 0,
    ensures
        a * c <= b * c,
        c * a <= c * b,
{
    lemma_mul_inequality(a, b, c);
    lemma_mul_is_commutative(a, c);
    lemma_mul_is_commutative(b, c);
}

/// Scaling by a positive factor keeps the strict order.
pub proof fn lemma_scale_strict_order(a: int, b: int, c: int)
    requires
        a < b,
        c > 0,
    ensures
        a * c < b * c,
        c * a < c * b,
{
    lemma_mul_strict_inequality(a, b, c);
    lemma_mul_is_commutative(a, c);
    lemma_mul_is_commutative(b, c);
}

/// A positive common factor may be dropped from an order.
pub proof fn lemma_cancel_order(a: int, b: int, c: int)
    requires
        c > 0,
        a * c <= b * c,
    ensures
        a <= b,
{
    lemma_mul_inequality_converse(a, b, c);
}

/// A positive common factor may be dropped from a strict order.
pub proof fn lemma_cancel_strict_order(a: int, b: int, c: int)
    requires
        c > 0,
        a * c < b * c,
    ensures
        a < b,
{
    lemma_mul_strict_inequality_converse(a, b, c);
}

/// A positive common factor may be dropped from an equation.
pub proof fn lemma_cancel_equal(a: int, b: int, c: int)
    requires
        c > 0,
        a * c == b * c,
    ensures
        a == b,
{
    lemma_mul_inequality_converse(a, b, c);
    lemma_mul_inequality_converse(b, a, c);
}

/// A negated factor negates the product.
pub proof fn lemma_negate(a: int, b: int)
    ensures
        (-a) * b == -(a * b),
        a * (-b) == -(a * b),
{
    lemma_spread_two(b, a, -a);
    lemma_spread_two(a, b, -b);
    lemma_zero_factor(a);
    lemma_zero_factor(b);
}

/// The product of two integers of magnitude at most `bound` has magnitude
/// at most `bound * bound`.
pub proof fn lemma_bounded_product(a: int, b: int, bound: int)
    requires
        -bound <= a <= bound,
        -bound <= b <= bound,
    ensures
        -(bound * bound) <= a * b <= bound * bound,
{
    lemma_negate(a, b);
    if b >= 0 {
        lemma_scale_order(a, bound, b);
        lemma_scale_order(-bound, a, b);
        lemma_scale_order(b, bound, bound);
        lemma_negate(bound, b);
        lemma_swap(bound, b);
    } else {
        lemma_scale_order(a, bound, -b);
        lemma_scale_order(-bound, a, -b);
        lemma_scale_order(-b, bound, bound);
        lemma_negate(bound, -b);
        lemma_swap(bound, -b);
    }
}

/// A rounded-down quotient, bounded by its numerator:
/// `q * d <= n < (q + 1) * d`.
pub proof fn lemma_quotient_bounds(n: int, d: int)
    requires
        d > 0,
    ensures
        (n / d) * d <= n,
        n < (n / d) * d + d,
{
    lemma_fundamental_div_mod(n, d);
    lemma_mod_bound(n, d);
    lemma_swap(d, n / d);
}

/// A product of a remainder below `bound` and a factor `e` is bounded by
/// `bound` times the magnitude of the factor.
pub proof fn lemma_remainder_product(r: int, bound: int, e: int)
    requires
        0 <= r <= bound,
    ensures
        -(bound * magnitude(e)) <= r * e <= bound * magnitude(e),
{
    let m = magnitude(e);
    lemma_scale_order(e, m, r);
    lemma_scale_order(-m, e, r);
    lemma_scale_order(r, bound, m);
    lemma_spread_two(r, 0, m);
    lemma_zero_factor(r);
}

} // verus!
