//! Rounding as floating-point arithmetic does it, on whole numbers.
//!
//! A floating-point number has a fixed number of significant bits. Each
//! operation gives the exact result rounded to the nearest such number, and
//! of two equally near ones the even one.
use vstd::arithmetic::power2::{
    lemma2_to64, lemma_pow2_adds, lemma_pow2_pos, lemma_pow2_unfold, pow2,
};
use vstd::prelude::*;

verus! {

/// 2^23.
pub const TWO_23: u128 = 0x80_0000;

/// 2^24: below it, all whole numbers have at most 24 bits (single
/// precision).
pub const TWO_24: u128 = 0x100_0000;

/// 2^52.
pub const TWO_52: u128 = 0x10_0000_0000_0000;

/// 2^53: below it, all whole numbers have at most 53 bits (double
/// precision).
pub const TWO_53: u128 = 0x20_0000_0000_0000;

/// The whole number nearest to `n / d`; of two equally near ones, the even
/// one.
pub open spec fn nearest_quotient(n: nat, d: nat) -> nat {
    if 2 * (n % d) > d || (2 * (n % d) == d && (n / d) % 2 == 1) {
        n / d + 1
    } else {
        n / d
    }
}

/// The distance, in the region of `p`, between numbers with as many
/// significant bits as the numbers below `limit` have.
pub open spec fn spacing(p: nat, limit: nat) -> nat
    decreases p,
{
    if p < limit || p == 0 {
        1
    } else {
        2 * spacing(p / 2, limit)
    }
}

/// The number nearest to `p` with as many significant bits as the numbers
/// below `limit` have; of two equally near ones, the even one.
pub open spec fn nearest(p: nat, limit: nat) -> nat {
    nearest_quotient(p, spacing(p, limit)) * spacing(p, limit)
}

/// The smallest power of two that is not below `n`.
pub open spec fn power_from(n: nat) -> nat
    decreases n,
{
    if n <= 1 {
        1
    } else {
        2 * power_from((n + 1) / 2)
    }
}

/// Divides and rounds.
pub fn round_quotient(n: u128, d: u128) -> (q: u128)
    requires
        d > 0,
    ensures
        q == nearest_quotient(n as nat, d as nat),
{
    let below: u128 = n / d;
    let rest: u128 = n % d;
    proof {
        lemma_nearest_quotient(n as nat, d as nat);
    }
    if rest > d - rest || (rest == d - rest && below % 2 == 1) {
        below + 1
    } else {
        below
    }
}

/// Rounding moves a quotient by at most a half.
pub proof fn lemma_nearest_quotient(n: nat, d: nat)
    requires
        d > 0,
    ensures
        2 * (nearest_quotient(n, d) * d) <= 2 * n + d,
        2 * (nearest_quotient(n, d) * d) + d >= 2 * n,
        n % d == 0 ==> nearest_quotient(n, d) == n / d,
        nearest_quotient(n, d) <= n,
        nearest_quotient(n, d) <= n / d + 1,
        n / d <= nearest_quotient(n, d),
        0 <= n % d < d,
        n == (n / d) * d + n % d,
{
    let below = n / d;
    let rest = n % d;
    assert(n == below * d + rest && 0 <= rest < d) by (nonlinear_arith)
        requires
            d > 0,
            below == n / d,
            rest == n % d,
    ;
    assert((below + 1) * d == below * d + d) by (nonlinear_arith);
    assert(below <= below * d) by (nonlinear_arith)
        requires
            d > 0,
            below >= 0,
    ;
    if nearest_quotient(n, d) == below + 1 {
        if d == 1 {
            assert(rest == 0);
        }
        if d >= 2 {
            assert(2 * below <= below * d) by (nonlinear_arith)
                requires
                    d >= 2,
                    below >= 0,
            ;
        }
    }
}

fn find_spacing(p: u128, limit: u128) -> (u: u128)
    requires
        limit >= 2,
    ensures
        u == spacing(p as nat, limit as nat),
        1 <= u,
        u == 1 || u * limit <= 2 * p,
    decreases p,
{
    if p < limit {
        1
    } else {
        let half: u128 = find_spacing(p / 2, limit);
        proof {
            if half == 1 {
                assert(2 * limit <= 2 * p);
            } else {
                assert((2 * half) * limit == 2 * (half * limit)) by (nonlinear_arith);
            }
            assert(2 * half <= half * limit) by (nonlinear_arith)
                requires
                    limit >= 2,
                    half >= 1,
            ;
        }
        2 * half
    }
}

/// Numbers below the limit are all of them there; above it, they are no
/// farther apart than two parts in `limit`.
pub proof fn lemma_spacing(p: nat, limit: nat)
    requires
        limit >= 2,
    ensures
        1 <= spacing(p, limit),
        p < limit ==> spacing(p, limit) == 1,
        spacing(p, limit) == 1 || spacing(p, limit) * limit <= 2 * p,
    decreases p,
{
    if p >= limit {
        lemma_spacing(p / 2, limit);
        let half = spacing(p / 2, limit);
        assert((2 * half) * limit == 2 * (half * limit)) by (nonlinear_arith);
        if half == 1 {
            assert(2 * limit <= 2 * p);
        }
    }
}

/// Rounding moves a number by at most one part in `limit`, and not at all
/// below `limit`.
pub proof fn lemma_nearest(p: nat, limit: nat)
    requires
        limit >= 2,
    ensures
        p < limit ==> nearest(p, limit) == p,
        nearest(p, limit) * limit <= p * limit + p,
        nearest(p, limit) * limit + p >= p * limit,
{
    let u = spacing(p, limit);
    lemma_spacing(p, limit);
    lemma_nearest_quotient(p, u);
    let near = nearest(p, limit);
    if u == 1 {
        assert(p % 1 == 0 && p / 1 == p);
        assert(near == p * 1);
    } else {
        assert(2 * near <= 2 * p + u);
        assert(2 * near + u >= 2 * p);
        assert((2 * near) * limit <= (2 * p + u) * limit) by (nonlinear_arith)
            requires
                2 * near <= 2 * p + u,
                limit >= 0,
        ;
        assert((2 * near + u) * limit >= (2 * p) * limit) by (nonlinear_arith)
            requires
                2 * near + u >= 2 * p,
                limit >= 0,
        ;
        assert((2 * p + u) * limit == 2 * (p * limit) + u * limit) by (nonlinear_arith);
        assert((2 * near + u) * limit == 2 * (near * limit) + u * limit) by (nonlinear_arith);
        assert((2 * p) * limit == 2 * (p * limit)) by (nonlinear_arith);
        assert((2 * near) * limit == 2 * (near * limit)) by (nonlinear_arith);
    }
}

/// A quotient that is no more than a whole number is rounded to no more than
/// that number.
pub proof fn lemma_quotient_at_most(n: nat, d: nat, most: nat)
    requires
        d > 0,
        n <= most * d,
    ensures
        nearest_quotient(n, d) <= most,
{
    lemma_nearest_quotient(n, d);
    let below = n / d;
    let rest = n % d;
    assert(below < most || (below == most && rest == 0)) by (nonlinear_arith)
        requires
            d > 0,
            n == below * d + rest,
            rest >= 0,
            n <= most * d,
    ;
}

/// Of two quotients with one divisor, the larger is rounded to no less.
proof fn lemma_quotients_in_order(n: nat, m: nat, d: nat)
    requires
        d > 0,
        n <= m,
    ensures
        nearest_quotient(n, d) <= nearest_quotient(m, d),
{
    lemma_nearest_quotient(n, d);
    lemma_nearest_quotient(m, d);
    let (q, r) = (n / d, n % d);
    let (s, t) = (m / d, m % d);
    assert(q < s || (q == s && r <= t)) by (nonlinear_arith)
        requires
            d > 0,
            n == q * d + r,
            m == s * d + t,
            0 <= r < d,
            0 <= t < d,
            n <= m,
    ;
}

/// How often a number is halved until it is below `limit`.
pub open spec fn halvings(p: nat, limit: nat) -> nat
    decreases p,
{
    if p < limit || p == 0 {
        0
    } else {
        1 + halvings(p / 2, limit)
    }
}

/// The spacing is a power of two, and says between which powers of two,
/// times `limit`, a number lies.
pub proof fn lemma_spacing_is_power(p: nat, limit: nat)
    requires
        limit >= 2,
    ensures
        spacing(p, limit) == pow2(halvings(p, limit)),
        p < pow2(halvings(p, limit)) * limit,
        halvings(p, limit) > 0 ==> pow2((halvings(p, limit) - 1) as nat) * limit <= p,
    decreases p,
{
    lemma2_to64();
    if p < limit {
        assert(1 * limit == limit);
    } else {
        let e = halvings(p / 2, limit);
        lemma_spacing_is_power(p / 2, limit);
        lemma_pow2_unfold(e + 1);
        let half = pow2(e);
        assert(pow2(e + 1) * limit == 2 * (half * limit)) by (nonlinear_arith)
            requires
                pow2(e + 1) == 2 * half,
        ;
        if e == 0 {
            assert(half * limit == limit);
        } else {
            lemma_pow2_unfold(e);
            let quarter = pow2((e - 1) as nat);
            assert(half * limit == 2 * (quarter * limit)) by (nonlinear_arith)
                requires
                    half == 2 * quarter,
            ;
        }
    }
}

/// A number that is no more than one with few enough significant bits is
/// rounded to no more than that one.
pub proof fn lemma_nearest_at_most(p: nat, limit: nat, q: nat, k: nat)
    requires
        limit >= 2,
        limit % 2 == 0,
        q <= limit,
        p <= q * pow2(k),
    ensures
        nearest(p, limit) <= q * pow2(k),
{
    let e = halvings(p, limit);
    let u = pow2(e);
    let y = q * pow2(k);
    lemma_spacing_is_power(p, limit);
    lemma_pow2_pos(e);
    lemma_pow2_pos(k);
    if e <= k {
        let rest = pow2((k - e) as nat);
        lemma_pow2_adds(e, (k - e) as nat);
        assert(y == (q * rest) * u) by (nonlinear_arith)
            requires
                y == q * pow2(k),
                pow2(k) == u * rest,
        ;
        lemma_quotient_at_most(p, u, q * rest);
        let near = nearest_quotient(p, u);
        assert(near * u <= (q * rest) * u) by (nonlinear_arith)
            requires
                near <= q * rest,
                u > 0,
        ;
    } else {
        let half = pow2((e - 1) as nat);
        lemma_pow2_unfold(e);
        lemma_pow2_adds(k, (e - 1 - k) as nat);
        lemma_pow2_pos((e - 1 - k) as nat);
        assert(pow2(k) <= half) by (nonlinear_arith)
            requires
                half == pow2(k) * pow2((e - 1 - k) as nat),
                pow2((e - 1 - k) as nat) > 0,
                pow2(k) > 0,
        ;
        assert(y <= half * limit) by (nonlinear_arith)
            requires
                y == q * pow2(k),
                q <= limit,
                pow2(k) <= half,
        ;
        assert(p == y);
        assert(p == (limit / 2) * u) by (nonlinear_arith)
            requires
                p == half * limit,
                u == 2 * half,
                limit % 2 == 0,
        ;
        lemma_quotient_at_most(p, u, limit / 2);
        let near = nearest_quotient(p, u);
        assert(near * u <= (limit / 2) * u) by (nonlinear_arith)
            requires
                near <= limit / 2,
                u > 0,
        ;
    }
}

/// A number with few enough significant bits is not changed by rounding.
pub proof fn lemma_nearest_of_few_bits(p: nat, limit: nat, q: nat, k: nat)
    requires
        limit >= 2,
        limit % 2 == 0,
        q <= limit,
        p == q * pow2(k),
    ensures
        nearest(p, limit) == p,
{
    lemma_nearest_at_most(p, limit, q, k);
    let e = halvings(p, limit);
    let u = pow2(e);
    lemma_spacing_is_power(p, limit);
    lemma_pow2_pos(e);
    lemma_pow2_pos(k);
    lemma_nearest_quotient(p, u);
    if e <= k {
        let rest = pow2((k - e) as nat);
        lemma_pow2_adds(e, (k - e) as nat);
        assert(p % u == 0 && (p / u) * u == p) by (nonlinear_arith)
            requires
                p == q * pow2(k),
                pow2(k) == u * rest,
                u > 0,
        {
            assert(p == (q * rest) * u);
            lemma_multiple(q * rest, u);
        }
    } else {
        let half = pow2((e - 1) as nat);
        lemma_pow2_unfold(e);
        lemma_pow2_adds(k, (e - 1 - k) as nat);
        lemma_pow2_pos((e - 1 - k) as nat);
        assert(pow2(k) <= half) by (nonlinear_arith)
            requires
                half == pow2(k) * pow2((e - 1 - k) as nat),
                pow2((e - 1 - k) as nat) > 0,
                pow2(k) > 0,
        ;
        assert(p <= half * limit) by (nonlinear_arith)
            requires
                p == q * pow2(k),
                q <= limit,
                pow2(k) <= half,
        ;
        assert(p == (limit / 2) * u) by (nonlinear_arith)
            requires
                p == half * limit,
                u == 2 * half,
                limit % 2 == 0,
        ;
        lemma_multiple(limit / 2, u);
    }
}

proof fn lemma_multiple(q: nat, u: nat)
    requires
        u > 0,
    ensures
        (q * u) % u == 0,
        (q * u) / u == q,
{
    assert((q * u) % u == 0 && (q * u) / u == q) by (nonlinear_arith)
        requires
            u > 0,
    ;
}

/// A rounded number has few enough significant bits.
pub proof fn lemma_nearest_bits(p: nat, limit: nat) -> (q: nat)
    requires
        limit >= 2,
    ensures
        q <= limit,
        nearest(p, limit) == q * pow2(halvings(p, limit)),
{
    let u = spacing(p, limit);
    lemma_spacing_is_power(p, limit);
    lemma_spacing(p, limit);
    assert(p <= limit * u) by (nonlinear_arith)
        requires
            p < u * limit,
    ;
    lemma_quotient_at_most(p, u, limit);
    nearest_quotient(p, u)
}

/// Rounding keeps the order of numbers.
pub proof fn lemma_nearest_keeps_order(n: nat, m: nat, limit: nat)
    requires
        limit >= 2,
        limit % 2 == 0,
        n <= m,
    ensures
        nearest(n, limit) <= nearest(m, limit),
{
    let e = halvings(n, limit);
    let f = halvings(m, limit);
    lemma_spacing_is_power(n, limit);
    lemma_spacing_is_power(m, limit);
    lemma_pow2_pos(e);
    lemma_pow2_pos(f);
    if e == f {
        let u = pow2(e);
        lemma_quotients_in_order(n, m, u);
        let (a, b) = (nearest_quotient(n, u), nearest_quotient(m, u));
        assert(a * u <= b * u) by (nonlinear_arith)
            requires
                a <= b,
                u > 0,
        ;
    } else if e < f {
        let half = pow2((f - 1) as nat);
        let u = pow2(f);
        lemma_pow2_unfold(f);
        lemma_pow2_adds(e, (f - 1 - e) as nat);
        lemma_pow2_pos((f - 1 - e) as nat);
        assert(pow2(e) * limit <= limit * half) by (nonlinear_arith)
            requires
                half == pow2(e) * pow2((f - 1 - e) as nat),
                pow2((f - 1 - e) as nat) > 0,
                pow2(e) > 0,
                limit > 0,
        ;
        lemma_nearest_at_most(n, limit, limit, (f - 1) as nat);
        let least = limit / 2;
        let near = nearest_quotient(m, u);
        lemma_nearest_quotient(m, u);
        assert(least <= m / u && limit * half <= near * u) by (nonlinear_arith)
            requires
                half * limit <= m,
                u == 2 * half,
                limit == 2 * least,
                u > 0,
                m / u <= near,
        {
            assert(least * u == half * limit);
            assert(least <= m / u);
            assert(least * u <= near * u);
        }
    } else {
        assert(false) by {
            lemma_pow2_adds(f, (e - 1 - f) as nat);
            lemma_pow2_pos((e - 1 - f) as nat);
            assert(pow2(f) * limit <= pow2((e - 1) as nat) * limit) by (nonlinear_arith)
                requires
                    pow2((e - 1) as nat) == pow2(f) * pow2((e - 1 - f) as nat),
                    pow2((e - 1 - f) as nat) > 0,
                    pow2(f) > 0,
                    limit > 0,
            ;
        }
    }
}

/// Rounds to as many significant bits as the numbers below `limit` have.
pub fn round_bits(p: u128, limit: u128) -> (r: u128)
    requires
        limit >= 2,
        p < 0x4000_0000_0000_0000_0000_0000_0000_0000,
    ensures
        r == nearest(p as nat, limit as nat),
{
    let u: u128 = find_spacing(p, limit);
    let q: u128 = round_quotient(p, u);
    proof {
        lemma_nearest_quotient(p as nat, u as nat);
        lemma_spacing(p as nat, limit as nat);
        if u > 1 {
            assert(u <= 2 * p) by (nonlinear_arith)
                requires
                    u * limit <= 2 * p,
                    limit >= 2,
                    u >= 0,
            ;
        }
        assert(2 * (q as nat * u as nat) <= 2 * p + u);
    }
    q * u
}

/// Finds the smallest power of two that is not below `n`.
pub fn find_power_from(n: u128) -> (s: u128)
    requires
        n < 0x4000_0000_0000_0000_0000_0000_0000_0000,
    ensures
        s == power_from(n as nat),
        1 <= s,
        n <= s,
        n >= 1 ==> s < 2 * n,
    decreases n,
{
    proof {
        lemma_power_from(n as nat);
    }
    if n <= 1 {
        1
    } else {
        let half: u128 = find_power_from((n + 1) / 2);
        2 * half
    }
}

/// The power is not below `n`, and its half is.
pub proof fn lemma_power_from(n: nat)
    ensures
        1 <= power_from(n),
        n <= power_from(n),
        n >= 1 ==> power_from(n) < 2 * n,
    decreases n,
{
    if n > 1 {
        lemma_power_from((n + 1) / 2);
    }
}

/// It is a power of two.
pub proof fn lemma_power_from_is_power(n: nat) -> (e: nat)
    ensures
        power_from(n) == pow2(e),
    decreases n,
{
    if n <= 1 {
        lemma2_to64();
        0
    } else {
        let e = lemma_power_from_is_power((n + 1) / 2);
        lemma_pow2_unfold(e + 1);
        e + 1
    }
}

// ---------------------------------------------------------------------
// Laws
// ---------------------------------------------------------------------

/// A quotient is rounded to the nearest whole number, and one halfway between
/// two to the even one.
pub proof fn law_quotients_round_to_nearest(n: u128, d: u128, q: u128)
    requires
        d > 0,
        call_ensures(round_quotient, (n, d), q),
    ensures
        -(d as int) <= 2 * (q * d) - 2 * n <= d,
        2 * (q * d) - 2 * n == d || 2 * n - 2 * (q * d) == d ==> q % 2 == 0,
{
    lemma_nearest_quotient(n as nat, d as nat);
    let below = n as nat / d as nat;
    let rest = n as nat % d as nat;
    assert((below + 1) * d == below * d + d) by (nonlinear_arith);
}

/// Rounding to some significant bits keeps numbers that have no more, moves
/// no number past one of those, and none by more than half the distance
/// between them.
pub proof fn law_rounding_stays_between(
    p: u128,
    limit: u128,
    r: u128,
    below: (nat, nat),
    above: (nat, nat),
)
    requires
        limit >= 2,
        limit % 2 == 0,
        call_ensures(round_bits, (p, limit), r),
        below.0 <= limit && below.0 * pow2(below.1) <= p,
        above.0 <= limit && p <= above.0 * pow2(above.1),
    ensures
        below.0 * pow2(below.1) <= r <= above.0 * pow2(above.1),
        p <= limit ==> r == p,
        p > 0 ==> 2 * (r - p) * limit <= 2 * p && 2 * (p - r) * limit <= 2 * p,
{
    let low = below.0 * pow2(below.1);
    lemma_nearest_of_few_bits(low, limit as nat, below.0, below.1);
    lemma_nearest_keeps_order(low, p as nat, limit as nat);
    lemma_nearest_at_most(p as nat, limit as nat, above.0, above.1);
    lemma_nearest(p as nat, limit as nat);
    lemma2_to64();
    if p <= limit {
        lemma_nearest_of_few_bits(p as nat, limit as nat, p as nat, 0);
    }
    assert(2 * (r - p) * limit == 2 * (r * limit) - 2 * (p * limit) && 2 * (p - r) * limit == 2 * (p
        * limit) - 2 * (r * limit)) by (nonlinear_arith);
}

/// The power of two that is found is not below the number, and its half is.
pub proof fn law_power_is_the_smallest(n: u128, s: u128)
    requires
        call_ensures(find_power_from, (n,), s),
    ensures
        n <= s,
        n > 1 ==> s < 2 * n,
        n <= 1 ==> s == 1,
        exists|e: nat| s == #[trigger] pow2(e),
{
    lemma_power_from(n as nat);
    let e = lemma_power_from_is_power(n as nat);
    assert(s == pow2(e));
}

} // verus!
