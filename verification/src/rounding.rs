//! Binary rounding: integers and quotients cut to a fixed number of leading
//! bits, and the chances of the world drawn with single precision.

use vstd::prelude::*;
use vstd::arithmetic::div_mod::*;
use vstd::arithmetic::mul::*;
use vstd::arithmetic::power2::*;

verus! {

/// A number below this has at most 24 bits: the precision of a 32-bit float.
pub const SINGLE: u128 = 0x100_0000;

/// A number below this has at most 53 bits: the precision of a 64-bit float.
pub const DOUBLE: u128 = 0x20_0000_0000_0000;

/// The numbers of a quotient lie below this.
pub const QUOTIENT_LIMIT: u64 = 0x100_0000_0000;

/// One, counted in units of 2^-64.
pub const ONE_64: u128 = 0x1_0000_0000_0000_0000;

/// The weight of the last bit of `x` that fits below `cap` once `x` is shifted down.
pub open spec fn unit_of(x: nat, cap: nat) -> nat
    decreases x,
{
    if x < cap || x == 0 {
        1
    } else {
        2 * unit_of(x / 2, cap)
    }
}

/// The integer nearest to `n / d`, the even one of two that are equally near.
pub open spec fn nearest(n: nat, d: nat) -> nat {
    if 2 * (n % d) > d || (2 * (n % d) == d && (n / d) % 2 == 1) {
        n / d + 1
    } else {
        n / d
    }
}

/// `x` rounded to the leading bits that fit below `cap`, ties to even.
pub open spec fn rounded(x: nat, cap: nat) -> nat {
    nearest(x, unit_of(x, cap)) * unit_of(x, cap)
}

proof fn lemma_unit_bounds(x: nat, cap: nat)
    requires
        cap >= 2,
    ensures
        unit_of(x, cap) >= 1,
        unit_of(x, cap) == 1 || 2 * unit_of(x, cap) <= 2 * x,
        x == 0 ==> unit_of(x, cap) == 1,
    decreases x,
{
    if !(x < cap || x == 0) {
        lemma_unit_bounds(x / 2, cap);
    }
}

/// Rounding never more than doubles a number.
proof fn lemma_rounded_bounds(x: nat, cap: nat)
    requires
        cap >= 2,
    ensures
        rounded(x, cap) <= 2 * x,
        x < cap ==> rounded(x, cap) == x,
{
    lemma_unit_bounds(x, cap);
    let u = unit_of(x, cap);
    lemma_fundamental_div_mod(x as int, u as int);
    lemma_mod_bound(x as int, u as int);
    let q = x / u;
    assert(u * q <= x);
    assert(q * u == u * q) by (nonlinear_arith);
    assert((q + 1) * u == q * u + u) by (nonlinear_arith);
    if u == 1 {
        assert(x % 1 == 0);
        assert(nearest(x, 1) == x);
    }
}

fn leading_unit(x: u128, cap: u128) -> (u: u128)
    requires
        cap >= 2,
    ensures
        u == unit_of(x as nat, cap as nat),
        1 <= u,
        u == 1 || u <= x,
{
    let mut y: u128 = x;
    let mut u: u128 = 1;
    while y >= cap
        invariant
            cap >= 2,
            u >= 1,
            y as int == x as int / u as int,
            unit_of(x as nat, cap as nat) == u as nat * unit_of(y as nat, cap as nat),
            u == 1 || u <= x,
        decreases y,
    {
        proof {
            assert(u * y <= x) by {
                lemma_fundamental_div_mod(x as int, u as int);
                lemma_mod_bound(x as int, u as int);
            }
            assert(u * y <= x && y >= 2 ==> 2 * u <= x) by (nonlinear_arith)
                requires
                    y >= 2,
                    u >= 1,
            ;
            lemma_div_denominator(x as int, u as int, 2);
            assert(u * 2 == 2 * u);
            let k = unit_of((y / 2) as nat, cap as nat);
            assert(unit_of(y as nat, cap as nat) == 2 * k);
            assert(u as nat * (2 * k) == (2 * u) as nat * k) by (nonlinear_arith);
        }
        y = y / 2;
        u = u * 2;
    }
    proof {
        assert(unit_of(y as nat, cap as nat) == 1);
        assert(u as nat * 1 == u);
    }
    u
}

/// Rounds `x` to the leading bits that fit below `cap`, ties to even.
pub fn round_to(x: u128, cap: u128) -> (r: u128)
    requires
        cap >= 2,
        x < 0x8000_0000_0000_0000_0000_0000_0000_0000,
    ensures
        r == rounded(x as nat, cap as nat),
        r <= 2 * x,
        x < cap ==> r == x,
{
    let u: u128 = leading_unit(x, cap);
    let q: u128 = x / u;
    let m: u128 = x % u;
    proof {
        lemma_rounded_bounds(x as nat, cap as nat);
        assert(q * u <= x) by {
            lemma_fundamental_div_mod(x as int, u as int);
            assert(u * q == q * u) by (nonlinear_arith);
        }
        assert((q + 1) * u == q * u + u) by (nonlinear_arith);
    }
    if m > u - m || (m == u - m && q % 2 == 1) {
        (q + 1) * u
    } else {
        q * u
    }
}

/// A number counted in its unit fills the bits: it lies below `cap`, and at half of it or
/// above where the unit is more than one.
proof fn lemma_unit_fills(x: nat, cap: nat)
    requires
        cap >= 2,
        cap % 2 == 0,
    ensures
        unit_of(x, cap) >= 1,
        x / unit_of(x, cap) < cap,
        unit_of(x, cap) > 1 ==> x / unit_of(x, cap) >= cap / 2,
    decreases x,
{
    if x < cap {
        assert(x / 1 == x);
    } else {
        lemma_unit_fills(x / 2, cap);
        let u = unit_of(x / 2, cap);
        lemma_div_denominator(x as int, 2, u as int);
        assert(x / (2 * u) == (x / 2) / u);
        if u == 1 {
            assert((x / 2) / 1 == x / 2);
        }
    }
}

/// The units of two numbers are the same, or that of the greater is twice the other at least.
proof fn lemma_unit_grows(x: nat, y: nat, cap: nat)
    requires
        cap >= 2,
        x <= y,
    ensures
        unit_of(x, cap) == unit_of(y, cap) || 2 * unit_of(x, cap) <= unit_of(y, cap),
    decreases y,
{
    if x < cap {
        lemma_unit_bounds(y / 2, cap);
    } else {
        lemma_unit_grows(x / 2, y / 2, cap);
    }
}

/// The nearest quotient never falls as the dividend grows.
proof fn lemma_nearest_grows(n: nat, m: nat, d: nat)
    requires
        n <= m,
        d >= 1,
    ensures
        n / d <= nearest(n, d) <= n / d + 1,
        nearest(n, d) <= nearest(m, d),
{
    lemma_div_is_ordered(n as int, m as int, d as int);
    lemma_fundamental_div_mod(n as int, d as int);
    lemma_fundamental_div_mod(m as int, d as int);
    if n / d == m / d {
        assert(n % d <= m % d);
    }
}

/// Rounding keeps the order of numbers.
pub proof fn law_rounding_keeps_order(x: nat, y: nat, cap: nat)
    requires
        cap >= 2,
        cap % 2 == 0,
        x <= y,
    ensures
        rounded(x, cap) <= rounded(y, cap),
{
    let (u, v) = (unit_of(x, cap), unit_of(y, cap));
    lemma_unit_fills(x, cap);
    lemma_unit_fills(y, cap);
    lemma_unit_grows(x, y, cap);
    if u == v {
        lemma_nearest_grows(x, y, u);
        let (a, b) = (nearest(x, u), nearest(y, u));
        assert(a * u <= b * u) by (nonlinear_arith)
            requires
                a <= b,
                u >= 0,
        ;
    } else {
        lemma_nearest_grows(x, x, u);
        lemma_nearest_grows(y, y, v);
        let (a, b) = (nearest(x, u), nearest(y, v));
        assert(a * u <= cap * u) by (nonlinear_arith)
            requires
                a <= cap,
                u >= 0,
        ;
        assert(b * v >= (cap / 2) * v) by (nonlinear_arith)
            requires
                b >= cap / 2,
                v >= 0,
        ;
        assert((cap / 2) * v >= (cap / 2) * (2 * u)) by (nonlinear_arith)
            requires
                v >= 2 * u,
                cap / 2 >= 0,
        ;
        assert((cap / 2) * (2 * u) == cap * u) by (nonlinear_arith)
            requires
                cap == 2 * (cap / 2),
        ;
    }
}

proof fn lemma_unit_divides(b: nat, j: nat, cap: nat)
    requires
        cap >= 2,
        b < cap,
    ensures
        unit_of(b * pow2(j), cap) >= 1,
        (b * pow2(j)) % unit_of(b * pow2(j), cap) == 0,
    decreases j,
{
    let x = b * pow2(j);
    lemma_unit_bounds(x, cap);
    if x >= cap {
        lemma2_to64();
        assert(b * 1 == b);
        let i = (j - 1) as nat;
        lemma_pow2_unfold(j);
        let y = b * pow2(i);
        assert(x == 2 * y) by (nonlinear_arith)
            requires
                x == b * (2 * pow2(i)),
                y == b * pow2(i),
        ;
        lemma_unit_divides(b, i, cap);
        let u = unit_of(y, cap);
        lemma_fundamental_div_mod(y as int, u as int);
        let q = y / u;
        assert(2 * y == q * (2 * u)) by (nonlinear_arith)
            requires
                y == u * q,
        ;
        lemma_mod_multiples_basic(q as int, (2 * u) as int);
    } else {
        assert(x % 1 == 0);
    }
}

/// A number that fits below `cap`, times a power of two, is not changed by rounding.
pub proof fn law_rounding_keeps_short_numbers(b: nat, j: nat, cap: nat)
    requires
        cap >= 2,
        b < cap,
    ensures
        rounded(b * pow2(j), cap) == b * pow2(j),
{
    lemma_unit_divides(b, j, cap);
    let x = b * pow2(j);
    let u = unit_of(x, cap);
    lemma_fundamental_div_mod(x as int, u as int);
    assert(nearest(x, u) == x / u);
    assert((x / u) * u == u * (x / u)) by (nonlinear_arith);
}

/// The xorshift step of the world's random numbers.
pub open spec fn next_random(state: u64) -> u64 {
    let a: u64 = if state == 0 { 1 } else { state };
    let b: u64 = a ^ (a << 13);
    let c: u64 = b ^ (b >> 7);
    c ^ (c << 17)
}

/// Advances the random state and returns the number drawn.
pub fn rand_u64(state: &mut u64) -> (r: u64)
    ensures
        r == next_random(*old(state)),
        *final(state) == r,
{
    let mut x: u64 = *state;
    if x == 0 {
        x = 1;
    }
    x = x ^ (x << 13);
    x = x ^ (x >> 7);
    x = x ^ (x << 17);
    *state = x;
    x
}

/// What `rand_range` gives for the drawn number `x`.
pub open spec fn range_of(x: u64, n: i32) -> i32 {
    (x as int % n as int) as i32
}

/// A random number from 0 up to `n`, `n` excluded. Without a range nothing is
/// drawn and the result is 0.
pub fn rand_range(state: &mut u64, n: i32) -> (r: i32)
    ensures
        n <= 0 ==> r == 0 && *final(state) == *old(state),
        n > 0 ==> *final(state) == next_random(*old(state)) && r == range_of(*final(state), n)
            && 0 <= r < n,
{
    if n <= 0 {
        0
    } else {
        let x: u64 = rand_u64(state);
        (x % n as u64) as i32
    }
}

/// The drawn number as a 32-bit float between 0 and 1, counted in units of 2^-64:
/// rounded first to double and then to single precision.
pub open spec fn fraction_of(x: u64) -> nat {
    rounded(rounded(x as nat, DOUBLE as nat), SINGLE as nat)
}

fn fraction(x: u64) -> (r: u128)
    ensures
        r == fraction_of(x),
        r <= 0x4_0000_0000_0000_0000,
{
    let d: u128 = round_to(x as u128, DOUBLE);
    round_to(d, SINGLE)
}

/// Whether the float `r / 2^64` lies below the 32-bit float nearest to `n / d`:
/// whether `n / d` is past the middle between that float and the next one, or
/// in the middle with the next one even.
pub open spec fn below_quotient(r: nat, n: nat, d: nat) -> bool {
    let u = unit_of(r, SINGLE as nat);
    let middle = (2 * r + u) * d;
    ||| 2 * n * ONE_64 > middle
    ||| 2 * n * ONE_64 == middle && (r / u) % 2 == 1
}

fn is_below_quotient(r: u128, n: u64, d: u64) -> (b: bool)
    requires
        r <= 0x4_0000_0000_0000_0000,
        n < QUOTIENT_LIMIT,
        d < QUOTIENT_LIMIT,
    ensures
        b == below_quotient(r as nat, n as nat, d as nat),
{
    let u: u128 = leading_unit(r, SINGLE);
    assert((2 * r + u) * d <= 0x10_0000_0000_0000_0000 * 0x100_0000_0000) by (nonlinear_arith)
        requires
            r <= 0x4_0000_0000_0000_0000,
            u <= 0x4_0000_0000_0000_0000,
            0 <= d < 0x100_0000_0000,
            u >= 0,
            r >= 0,
    ;
    let middle: u128 = (2 * r + u) * (d as u128);
    let n2: u128 = 2 * (n as u128) * ONE_64;
    n2 > middle || (n2 == middle && (r / u) % 2 == 1)
}

/// Draws a number and tells whether it falls below the chance `n / d`, the chance
/// taken in single precision.
pub fn chance_quotient(state: &mut u64, n: u64, d: u64) -> (b: bool)
    requires
        n < QUOTIENT_LIMIT,
        d < QUOTIENT_LIMIT,
    ensures
        *final(state) == next_random(*old(state)),
        b == below_quotient(fraction_of(*final(state)), n as nat, d as nat),
{
    let x: u64 = rand_u64(state);
    is_below_quotient(fraction(x), n, d)
}

/// A whole number as a 32-bit float holds it.
pub open spec fn single(x: int) -> int {
    if x >= 0 {
        rounded(x as nat, SINGLE as nat) as int
    } else {
        -rounded((-x) as nat, SINGLE as nat)
    }
}

/// The number nearest to `x` that a 32-bit float holds.
pub fn to_single(x: i64) -> (r: i64)
    requires
        -0x10_0000_0000 <= x <= 0x10_0000_0000,
    ensures
        r == single(x as int),
        -0x1000000 < x < 0x1000000 ==> r == x,
        x >= 0 ==> 0 <= r <= 2 * x,
        x < 0 ==> 2 * x <= r <= 0,
{
    if x >= 0 {
        round_to(x as u128, SINGLE) as i64
    } else {
        let m: u128 = round_to((-x) as u128, SINGLE);
        -(m as i64)
    }
}

/// Whether the float `r / 2^64` lies below the float `n / d`, whatever the signs: a
/// negative quotient lies below everything, one by zero above everything where there
/// is something to divide.
pub open spec fn below_ratio(r: nat, n: int, d: int) -> bool {
    if d == 0 {
        n > 0
    } else if n > 0 && d > 0 {
        below_quotient(r, n as nat, d as nat)
    } else if n < 0 && d < 0 {
        below_quotient(r, (-n) as nat, (-d) as nat)
    } else {
        false
    }
}

/// Draws a number and tells whether it falls below the chance `n / d`, the chance
/// taken in single precision.
pub fn chance_ratio(state: &mut u64, n: i64, d: i64) -> (b: bool)
    requires
        -QUOTIENT_LIMIT < n < QUOTIENT_LIMIT,
        -QUOTIENT_LIMIT < d < QUOTIENT_LIMIT,
    ensures
        *final(state) == next_random(*old(state)),
        b == below_ratio(fraction_of(*final(state)), n as int, d as int),
{
    let x: u64 = rand_u64(state);
    if d == 0 {
        n > 0
    } else if n > 0 && d > 0 {
        is_below_quotient(fraction(x), n as u64, d as u64)
    } else if n < 0 && d < 0 {
        is_below_quotient(fraction(x), (-n) as u64, (-d) as u64)
    } else {
        false
    }
}

/// Draws a number and tells whether it falls below `t / 2^64`.
pub fn chance_below(state: &mut u64, t: u128) -> (b: bool)
    ensures
        *final(state) == next_random(*old(state)),
        b == (fraction_of(*final(state)) < t),
{
    let x: u64 = rand_u64(state);
    fraction(x) < t
}

} // verus!
