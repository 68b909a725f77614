//! Exact integer model of the IEEE-754 binary64 operations that the badge
//! geometry and the human-readable sizes go through: rounding a quantity to
//! 53 significant bits (ties to even) and the correctly rounded quotient of
//! two integers.  Quantities are kept as integers in a fixed binary unit, so
//! every step is exact integer arithmetic.
use vstd::prelude::*;

verus! {

/// 2 to the power `e`.
pub open spec fn p2(e: nat) -> nat
    decreases e,
{
    if e == 0 {
        1
    } else {
        2 * p2((e - 1) as nat)
    }
}

/// Position of the most significant set bit of `x` (0 for `x < 2`).
pub open spec fn msb(x: nat) -> nat
    decreases x,
{
    if x < 2 {
        0
    } else {
        1 + msb(x / 2)
    }
}

/// `a / b` rounded to the nearest integer, ties to the even one.
pub open spec fn round_half_even(a: nat, b: nat) -> nat {
    let q = a / b;
    let r = a % b;
    if 2 * r > b || (2 * r == b && q % 2 == 1) {
        q + 1
    } else {
        q
    }
}

/// `x` rounded to 53 significant bits, ties to even: the binary64 value
/// nearest to `x` (in whatever unit `x` is counted, as long as that unit is
/// no larger than the spacing of binary64 values around `x`).
pub open spec fn round53(x: nat) -> nat {
    if msb(x) <= 52 {
        x
    } else {
        let k = (msb(x) - 52) as nat;
        round_half_even(x, p2(k)) * p2(k)
    }
}

/// The binary64 quotient of `p / q` for `p >= q >= 1`, as a pair `(m, s)`:
/// the value is `m / 2^s` when `s >= 0` and `m * 2^(-s)` otherwise.
pub open spec fn quotient(p: nat, q: nat) -> (nat, int)
    recommends
        p >= q >= 1,
{
    let e = msb(p / q);
    if e <= 52 {
        let s = (52 - e) as nat;
        (round_half_even(p * p2(s), q), s as int)
    } else {
        let k = (e - 52) as nat;
        (round_half_even(p, q * p2(k)), -(k as int))
    }
}

pub proof fn lemma_p2_pos(e: nat)
    ensures
        p2(e) >= 1,
    decreases e,
{
    if e > 0 {
        lemma_p2_pos((e - 1) as nat);
    }
}

pub proof fn lemma_p2_add(a: nat, b: nat)
    ensures
        p2(a + b) == p2(a) * p2(b),
    decreases a,
{
    if a > 0 {
        lemma_p2_add((a - 1) as nat, b);
        assert(p2(a + b) == 2 * p2((a + b - 1) as nat));
        assert(p2(a) == 2 * p2((a - 1) as nat));
        assert(((a - 1) as nat + b) as nat == (a + b - 1) as nat);
        let x = p2((a - 1) as nat);
        let y = p2(b);
        assert(p2((a + b - 1) as nat) == x * y);
        assert(2 * (x * y) == (2 * x) * y) by (nonlinear_arith);
        assert(p2(a + b) == p2(a) * p2(b));
    } else {
        assert(p2(0) == 1);
        assert(p2(a + b) == p2(b));
        assert(1 * p2(b) == p2(b));
    }
}

pub proof fn lemma_p2_mono(a: nat, b: nat)
    requires
        a <= b,
    ensures
        p2(a) <= p2(b),
    decreases b,
{
    if a < b {
        lemma_p2_mono(a, (b - 1) as nat);
        lemma_p2_pos((b - 1) as nat);
    }
}

/// `p2(msb(x)) <= x < p2(msb(x) + 1)` for `x >= 1`.
pub proof fn lemma_msb_bounds(x: nat)
    requires
        x >= 1,
    ensures
        p2(msb(x)) <= x < p2(msb(x) + 1),
    decreases x,
{
    if x >= 2 {
        lemma_msb_bounds(x / 2);
    }
}

/// The bit position is determined by the binade.
pub proof fn lemma_msb_unique(x: nat, m: nat)
    requires
        p2(m) <= x < p2(m + 1),
    ensures
        msb(x) == m,
    decreases m,
{
    lemma_p2_pos(m);
    if m == 0 {
    } else {
        assert(p2((m - 1) as nat) <= x / 2 < p2(m));
        lemma_msb_unique(x / 2, (m - 1) as nat);
    }
}

pub proof fn lemma_rhe_bounds(a: nat, b: nat)
    requires
        b >= 1,
    ensures
        a / b <= round_half_even(a, b) <= a / b + 1,
        round_half_even(a, b) * b <= a + b,
{
    assert((a / b) * b <= a) by (nonlinear_arith)
        requires
            b >= 1,
    {
        vstd::arithmetic::div_mod::lemma_fundamental_div_mod(a as int, b as int);
    }
    assert((a / b + 1) * b == (a / b) * b + b) by (nonlinear_arith);
    if round_half_even(a, b) == a / b + 1 {
    } else {
        assert(round_half_even(a, b) * b <= a) by (nonlinear_arith)
            requires
                round_half_even(a, b) == a / b,
                (a / b) * b <= a,
        ;
    }
}

/// `2^e` for `e < 128`.
pub fn pow2(e: u32) -> (r: u128)
    requires
        e < 128,
    ensures
        r == p2(e as nat),
{
    let mut r: u128 = 1;
    let mut i: u32 = 0;
    while i < e
        invariant
            i <= e < 128,
            r == p2(i as nat),
        decreases e - i,
    {
        assert(p2(i as nat) < p2(127)) by {
            lemma_p2_strict(i as nat, 127);
        }
        assert(p2(127) == 0x8000_0000_0000_0000_0000_0000_0000_0000) by {
            lemma_p2_127();
        }
        r = r * 2;
        i = i + 1;
    }
    r
}

proof fn lemma_p2_strict(a: nat, b: nat)
    requires
        a < b,
    ensures
        p2(a) < p2(b),
    decreases b,
{
    lemma_p2_pos(a);
    if a + 1 < b {
        lemma_p2_strict(a, (b - 1) as nat);
    }
}

proof fn lemma_p2_127()
    ensures
        p2(127) == 0x8000_0000_0000_0000_0000_0000_0000_0000,
{
    lemma_p2_values();
}

/// Concrete powers of two used by the callers.
pub proof fn lemma_p2_values()
    ensures
        p2(1) == 2,
        p2(2) == 4,
        p2(3) == 8,
        p2(4) == 16,
        p2(8) == 0x100,
        p2(16) == 0x1_0000,
        p2(32) == 0x1_0000_0000,
        p2(51) == 0x8_0000_0000_0000,
        p2(52) == 0x10_0000_0000_0000,
        p2(53) == 0x20_0000_0000_0000,
        p2(55) == 0x80_0000_0000_0000,
        p2(56) == 0x100_0000_0000_0000,
        p2(64) == 0x1_0000_0000_0000_0000,
        p2(110) == 0x4000_0000_0000_0000_0000_0000_0000,
        p2(127) == 0x8000_0000_0000_0000_0000_0000_0000_0000,
{
    reveal_with_fuel(p2, 5);
    lemma_p2_add(4, 4);
    assert(p2(8) == 16 * 16);
    lemma_p2_add(8, 8);
    assert(p2(16) == 256 * 256);
    lemma_p2_add(16, 16);
    assert(p2(32) == 65536 * 65536);
    lemma_p2_add(32, 16);
    assert(p2(48) == 4294967296 * 65536);
    lemma_p2_add(48, 3);
    assert(p2(51) == 281474976710656 * 8);
    lemma_p2_add(51, 1);
    assert(p2(52) == 2251799813685248 * 2);
    lemma_p2_add(52, 1);
    assert(p2(53) == 4503599627370496 * 2);
    lemma_p2_add(53, 2);
    assert(p2(55) == 9007199254740992 * 4);
    lemma_p2_add(55, 1);
    assert(p2(56) == 36028797018963968 * 2);
    lemma_p2_add(32, 32);
    assert(p2(64) == 4294967296 * 4294967296);
    lemma_p2_add(64, 32);
    assert(p2(96) == 18446744073709551616 * 4294967296);
    lemma_p2_add(96, 8);
    assert(p2(104) == 79228162514264337593543950336 * 256);
    lemma_p2_add(104, 4);
    assert(p2(108) == 20282409603651670423947251286016 * 16);
    lemma_p2_add(108, 2);
    assert(p2(110) == 324518553658426726783156020576256 * 4);
    lemma_p2_add(110, 16);
    assert(p2(126) == 1298074214633706907132624082305024 * 65536);
    lemma_p2_add(126, 1);
    assert(p2(127) == 85070591730234615865843651857942052864 * 2);
}


/// Most significant set bit of `x >= 1`.
pub fn msb_of(x: u128) -> (r: u32)
    requires
        x >= 1,
    ensures
        r == msb(x as nat),
        r < 128,
{
    proof {
        lemma_msb_bounds(x as nat);
        lemma_p2_values();
        if msb(x as nat) >= 128 {
            lemma_p2_mono(128, msb(x as nat));
            assert(p2(128) == 2 * p2(127));
        }
    }
    let mut y = x;
    let mut r: u32 = 0;
    while y >= 2
        invariant
            y >= 1,
            msb(x as nat) == r + msb(y as nat),
            msb(x as nat) < 128,
        decreases y,
    {
        y = y / 2;
        r = r + 1;
    }
    r
}

/// `a / b` rounded half to even.
pub fn round_half_even_of(a: u128, b: u128) -> (r: u128)
    requires
        b >= 1,
    ensures
        r == round_half_even(a as nat, b as nat),
{
    let q = a / b;
    let rem = a % b;
    if rem > b - rem || (rem == b - rem && q % 2 == 1) {
        assert(b >= 2);
        assert(q <= a / 2) by (nonlinear_arith)
            requires
                b >= 2,
                q == a / b,
        ;
        q + 1
    } else {
        q
    }
}

/// `x` rounded to 53 significant bits (see `round53`).
pub fn round53_of(x: u128) -> (r: u128)
    requires
        x < 0x8000_0000_0000_0000_0000_0000_0000_0000,
    ensures
        r == round53(x as nat),
        r <= 2 * x,
{
    if x < 2 {
        return x;
    }
    let m = msb_of(x);
    if m <= 52 {
        return x;
    }
    let k = m - 52;
    let b = pow2(k);
    proof {
        lemma_p2_pos(k as nat);
    }
    let q = round_half_even_of(x, b);
    proof {
        lemma_rhe_bounds(x as nat, b as nat);
        lemma_msb_bounds(x as nat);
        lemma_p2_mono(k as nat, m as nat);
    }
    q * b
}


proof fn lemma_below_next_power(p: nat, q: nat, e: nat)
    requires
        q >= 1,
        p / q < p2(e + 1),
    ensures
        p < p2(e + 1) * q,
{
    vstd::arithmetic::div_mod::lemma_fundamental_div_mod(p as int, q as int);
    let d = p / q;
    let r = p % q;
    assert(p < (d + 1) * q) by (nonlinear_arith)
        requires
            p == q * d + r,
            r < q,
    ;
    assert((p / q + 1) * q <= p2(e + 1) * q) by (nonlinear_arith)
        requires
            p / q + 1 <= p2(e + 1),
            q >= 1,
    ;
}

/// The binary64 quotient `p / q` (see `quotient`).
pub fn quotient_of(p: u128, q: u128) -> (r: (u64, i32))
    requires
        1 <= q <= p,
        p < 0x100_0000_0000_0000_0000,
        q < 0x1_0000_0000_0000_0000,
    ensures
        (r.0 as nat, r.1 as int) == quotient(p as nat, q as nat),
        r.0 <= 0x20_0000_0000_0000,
        -20 <= r.1 <= 52,
        p < 0x4_0000_0000_0000_0000 && q >= 1000 ==> r.1 >= -4,
{
    let d = p / q;
    assert(d >= 1) by (nonlinear_arith)
        requires
            1 <= q <= p,
            d == p / q,
    ;
    let e = msb_of(d);
    proof {
        if p < 0x4_0000_0000_0000_0000 && q >= 1000 {
            assert(d <= p / 1000) by (nonlinear_arith)
                requires
                    q >= 1000,
                    d == p / q,
            ;
            lemma_msb_bounds(d as nat);
            lemma_p2_values();
            lemma_p2_add(56, 1);
            assert(d < 0x200_0000_0000_0000);
            if e >= 57 {
                lemma_p2_mono(57, e as nat);
            }
        }
        lemma_msb_bounds(d as nat);
        lemma_below_next_power(p as nat, q as nat, e as nat);
        lemma_p2_values();
        assert(d < 0x100_0000_0000_0000_0000);
        if e >= 72 {
            lemma_p2_mono(72, e as nat);
            lemma_p2_add(64, 8);
        }
    }
    if e <= 52 {
        let s = 52 - e;
        let b = pow2(s);
        proof {
            lemma_p2_add(e as nat + 1, s as nat);
            assert((e + 1 + s) as nat == 53);
            assert(p * p2(s as nat) < p2(53) * q) by (nonlinear_arith)
                requires
                    p < p2(e as nat + 1) * q,
                    p2(53) == p2(e as nat + 1) * p2(s as nat),
                    p2(s as nat) >= 1,
            ;
            lemma_p2_pos(s as nat);
        }
        let num = p * b;
        let m = round_half_even_of(num, q);
        proof {
            lemma_rhe_bounds(num as nat, q as nat);
            assert(num / q < p2(53)) by (nonlinear_arith)
                requires
                    num < p2(53) * q,
                    q >= 1,
            ;
        }
        (m as u64, s as i32)
    } else {
        let k = e - 52;
        let b = pow2(k);
        proof {
            lemma_p2_pos(k as nat);
            lemma_p2_mono(k as nat, 20);
            assert(p2(20) == 0x10_0000) by {
                lemma_p2_add(16, 4);
            }
            lemma_p2_add(53, k as nat);
            assert((53 + k) as nat == (e + 1) as nat);
        }
        assert(q * b < 0x1_0000_0000_0000_0000 * 0x10_0001 && q * b >= 1) by (nonlinear_arith)
            requires
                1 <= q < 0x1_0000_0000_0000_0000,
                1 <= b <= 0x10_0000,
        ;
        let den = q * b;
        let m = round_half_even_of(p, den);
        proof {
            lemma_rhe_bounds(p as nat, den as nat);
            assert(p < p2(53) * den) by (nonlinear_arith)
                requires
                    p < p2(e as nat + 1) * q,
                    p2(e as nat + 1) == p2(53) * p2(k as nat),
                    den == q * p2(k as nat),
            ;
            assert(p / den < p2(53)) by (nonlinear_arith)
                requires
                    p < p2(53) * den,
                    den >= 1,
            ;
        }
        (m as u64, -(k as i32))
    }
}


/// Rounding to 53 bits never takes a quantity below a bound under `2^53`.
pub proof fn lemma_round53_at_least(x: nat, c: nat)
    requires
        c <= x,
        c <= p2(53),
    ensures
        c <= round53(x),
{
    if msb(x) > 52 {
        let k = (msb(x) - 52) as nat;
        lemma_msb_bounds(x);
        lemma_p2_add(52, k);
        lemma_p2_add(53, k);
        lemma_p2_pos(k);
        lemma_rhe_bounds(x, p2(k));
        assert((52 + k) as nat == msb(x));
        assert(x / p2(k) >= p2(52)) by (nonlinear_arith)
            requires
                x >= p2(52) * p2(k),
                p2(k) >= 1,
        {
            vstd::arithmetic::div_mod::lemma_div_is_ordered((p2(52) * p2(k)) as int, x as int, p2(k) as int);
            vstd::arithmetic::div_mod::lemma_div_by_multiple(p2(52) as int, p2(k) as int);
        }
        assert(round_half_even(x, p2(k)) * p2(k) >= p2(52) * p2(k)) by (nonlinear_arith)
            requires
                round_half_even(x, p2(k)) >= p2(52),
                p2(k) >= 1,
        ;
        lemma_p2_values();
        assert(p2(53) == 2 * p2(52));
        assert(p2(52) * p2(k) >= p2(52)) by (nonlinear_arith)
            requires
                p2(k) >= 1,
        ;
        lemma_p2_mono(53, msb(x));
    }
}


/// Rounding at most doubles a quantity.
pub proof fn lemma_round53_le_double(x: nat)
    ensures
        round53(x) <= 2 * x,
{
    if msb(x) > 52 {
        let k = (msb(x) - 52) as nat;
        lemma_p2_pos(k);
        lemma_rhe_bounds(x, p2(k));
        lemma_msb_bounds(x);
        lemma_p2_mono(k, msb(x));
    }
}

/// Shifting left moves the top bit by the shift.
pub proof fn lemma_msb_shift(q: nat, k: nat)
    requires
        q >= 1,
    ensures
        msb(q * p2(k)) == msb(q) + k,
{
    lemma_msb_bounds(q);
    lemma_p2_pos(k);
    lemma_p2_add(msb(q), k);
    lemma_p2_add(msb(q) + 1, k);
    assert(p2(msb(q)) * p2(k) <= q * p2(k)) by (nonlinear_arith)
        requires
            p2(msb(q)) <= q,
    ;
    assert(q * p2(k) < p2(msb(q) + 1) * p2(k)) by (nonlinear_arith)
        requires
            q < p2(msb(q) + 1),
            p2(k) >= 1,
    ;
    assert((msb(q) + 1 + k) as nat == (msb(q) + k + 1) as nat);
    lemma_msb_unique(q * p2(k), msb(q) + k);
}

proof fn lemma_rhe_exact(a: nat, b: nat)
    requires
        b >= 1,
    ensures
        round_half_even(a * b, b) == a,
        (a * b) % b == 0,
{
    vstd::arithmetic::div_mod::lemma_div_by_multiple(a as int, b as int);
    vstd::arithmetic::div_mod::lemma_mod_multiples_basic(a as int, b as int);
}

/// A rounded quantity is a multiple of its own spacing.
pub proof fn lemma_round53_spacing(x: nat)
    requires
        msb(x) > 52,
    ensures
        ({
            let r = round53(x);
            let k = (msb(x) - 52) as nat;
            &&& r % p2(k) == 0
            &&& p2(52) <= r / p2(k) <= p2(53)
            &&& (msb(r) == msb(x) || (msb(r) == msb(x) + 1 && r / p2(k) == p2(53)))
        }),
{
    let k = (msb(x) - 52) as nat;
    let q = round_half_even(x, p2(k));
    lemma_p2_pos(k);
    lemma_msb_bounds(x);
    lemma_rhe_bounds(x, p2(k));
    lemma_p2_add(52, k);
    lemma_p2_add(53, k);
    assert((52 + k) as nat == msb(x));
    assert(x / p2(k) >= p2(52)) by {
        vstd::arithmetic::div_mod::lemma_div_is_ordered((p2(52) * p2(k)) as int, x as int, p2(k) as int);
        vstd::arithmetic::div_mod::lemma_div_by_multiple(p2(52) as int, p2(k) as int);
    }
    assert(x / p2(k) < p2(53)) by {
        assert(x < p2(53) * p2(k));
        lemma_div_below(x as int, p2(k) as int, p2(53) as int);
    }
    lemma_rhe_exact(q, p2(k));
    lemma_p2_values();
    lemma_msb_shift(q, k);
    if q < p2(53) {
        lemma_msb_unique(q, 52);
    } else {
        lemma_msb_unique(q, 53);
    }
}

/// Rounding twice is rounding once.
pub proof fn lemma_round53_idem(x: nat)
    ensures
        round53(round53(x)) == round53(x),
{
    if msb(x) > 52 {
        let k = (msb(x) - 52) as nat;
        let r = round53(x);
        let q = round_half_even(x, p2(k));
        lemma_round53_spacing(x);
        lemma_p2_pos(k);
        lemma_rhe_exact(q, p2(k));
        if msb(r) == msb(x) {
        } else {
            let k1 = (k + 1) as nat;
            assert(q == p2(53));
            lemma_p2_values();
            assert(p2(k1) == 2 * p2(k));
            assert(r == p2(52) * p2(k1)) by (nonlinear_arith)
                requires
                    r == q * p2(k),
                    q == 2 * p2(52),
                    p2(k1) == 2 * p2(k),
            ;
            lemma_p2_pos(k1);
            lemma_rhe_exact(p2(52), p2(k1));
            assert((msb(r) - 52) as nat == k1);
        }
    }
}

/// Adding a small amount to a large rounded quantity that is already at or
/// above the size where the amount is below half its spacing, leaves it
/// unchanged; below that size the sum stays under the bound.  So a running
/// binary64 sum of amounts up to `2^c` never exceeds `2^b` once `b >= c + 56`.
pub proof fn lemma_sum_stays_bounded(s: nat, a: nat, b: nat, c: nat)
    requires
        round53(s) == s,
        s <= p2(b),
        a <= p2(c),
        b >= c + 56,
    ensures
        round53(s + a) <= p2(b),
        round53(round53(s + a)) == round53(s + a),
{
    lemma_round53_idem(s + a);
    let y = s + a;
    lemma_p2_pos(c);
    lemma_p2_add((b - 1) as nat, 1);
    assert(p2(b) == 2 * p2((b - 1) as nat)) by {
        assert(((b - 1) as nat + 1) as nat == b);
        lemma_p2_values();
    }
    if y <= p2((b - 1) as nat) {
        lemma_round53_le_double(y);
    } else {
        // s is large: at least 2^(b-2)
        lemma_p2_mono(c, (b - 2) as nat);
        lemma_p2_add((b - 2) as nat, 1);
        assert(((b - 2) as nat + 1) as nat == (b - 1) as nat);
        lemma_p2_values();
        assert(s >= p2((b - 2) as nat));
        lemma_msb_bounds(s);
        if msb(s) < b - 2 {
            lemma_p2_mono(msb(s) + 1, (b - 2) as nat);
        }
        assert(msb(s) >= b - 2);
        if msb(s) > b {
            lemma_p2_mono(b, msb(s));
        }
        let k = (msb(s) - 52) as nat;
        lemma_round53_spacing(s);
        assert(round53(s) == s);
        // s = t * 2^k with 2^52 <= t < 2^53 (t = 2^53 would put msb(s) one higher)
        let t = s / p2(k);
        lemma_p2_pos(k);
        vstd::arithmetic::div_mod::lemma_fundamental_div_mod(s as int, p2(k) as int);
        assert(s == t * p2(k));
        // the amount is below half the spacing
        lemma_p2_mono(c + 1, (k - 1) as nat);
        lemma_p2_add(c, 1);
        assert(p2((k - 1) as nat) * 2 == p2(k)) by {
            lemma_p2_add((k - 1) as nat, 1);
            assert(((k - 1) as nat + 1) as nat == k);
        }
        assert(2 * a < p2(k));
        if msb(s) == b {
            // s == 2^b exactly
            lemma_p2_add(52, k);
            assert((52 + k) as nat == b);
            assert(s == p2(b));
            assert(t == p2(52)) by {
                lemma_rhe_exact(p2(52), p2(k));
            }
        } else {
            assert(t < p2(53)) by {
                lemma_msb_bounds(s);
                lemma_p2_add(53, k);
                assert((53 + k) as nat == msb(s) + 1);
                lemma_div_below(s as int, p2(k) as int, p2(53) as int);
            }
        }
        // y = t * 2^k + a with a < 2^(k-1), and y stays in the binade of s
        assert(y < p2(msb(s) + 1)) by {
            lemma_p2_add(53, k);
            assert((53 + k) as nat == msb(s) + 1);
            if msb(s) == b {
                assert(y <= p2(b) + p2(c));
                lemma_p2_strict(c, b);
                lemma_p2_add(b, 1);
                lemma_p2_values();
            } else {
                assert(t + 1 <= p2(53));
                assert((t + 1) * p2(k) <= p2(53) * p2(k)) by (nonlinear_arith)
                    requires
                        t + 1 <= p2(53),
                ;
                assert((t + 1) * p2(k) == t * p2(k) + p2(k)) by (nonlinear_arith);
            }
        }
        lemma_msb_bounds(s);
        lemma_msb_unique(y, msb(s));
        vstd::arithmetic::div_mod::lemma_fundamental_div_mod(y as int, p2(k) as int);
        assert(y / p2(k) == t && y % p2(k) == a) by {
            vstd::arithmetic::div_mod::lemma_fundamental_div_mod_converse(y as int, p2(k) as int, t as int, a as int);
        }
        assert(round_half_even(y, p2(k)) == t);
        assert(round53(y) == t * p2(k));
    }
}


proof fn lemma_div_below(x: int, d: int, c: int)
    requires
        d >= 1,
        0 <= x < c * d,
    ensures
        x / d < c,
{
    vstd::arithmetic::div_mod::lemma_fundamental_div_mod(x, d);
    let q = x / d;
    let r = x % d;
    assert(q < c) by (nonlinear_arith)
        requires
            x == d * q + r,
            0 <= r,
            x < c * d,
            d >= 1,
    ;
}

} // verus!
