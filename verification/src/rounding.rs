//! Fractions as double precision holds them: the nearest number with 53 binary
//! digits. Written with whole numbers, so that what is computed can be stated.
use vstd::arithmetic::div_mod::{lemma_fundamental_div_mod, lemma_fundamental_div_mod_converse};
use vstd::arithmetic::power2::{
    lemma2_to64, lemma2_to64_rest, lemma_pow2_adds, lemma_pow2_pos, lemma_pow2_strictly_increases,
    lemma_pow2_unfold, pow2,
};
use vstd::prelude::*;

use crate::natural::Natural;

verus! {

/// The part of an integer above zero.
pub open spec fn above(e: int) -> nat {
    if e > 0 {
        e as nat
    } else {
        0
    }
}

/// The binary exponent of `p / q`: the `e` for which `2^e <= p / q < 2^(e + 1)`.
pub open spec fn exponent(p: nat, q: nat) -> int
    decreases
            (if p < q {
                1nat
            } else {
                0nat
            }),
            (if p < q {
                q - p
            } else {
                p - q
            }),
{
    if p == 0 || q == 0 {
        0
    } else if p >= 2 * q {
        exponent(p, 2 * q) + 1
    } else if p < q {
        exponent(2 * p, q) - 1
    } else {
        0
    }
}

/// `n / d` rounded to the nearest whole number, a tie to the even one.
pub open spec fn half_even(n: nat, d: nat) -> nat {
    if 2 * (n % d) < d || (2 * (n % d) == d && (n / d) % 2 == 0) {
        n / d
    } else {
        n / d + 1
    }
}

/// The 53 leading binary digits of `p / q`, rounded.
pub open spec fn significand(p: nat, q: nat) -> nat {
    half_even(
        p * pow2(above(-exponent(p, q))) * pow2(52),
        q * pow2(above(exponent(p, q))),
    )
}

/// `p / q` in double precision, as a fraction. The exponent is not bounded:
/// what lies beyond the range of double precision is far from any whole number
/// of bytes that could be told apart.
pub open spec fn nearest(p: nat, q: nat) -> (nat, nat) {
    if p == 0 {
        (0, 1)
    } else {
        let e = exponent(p, q);
        (significand(p, q) * pow2(above(e - 52)), pow2(above(52 - e)))
    }
}

/// `p / q` times `factor` in double precision, rounded down to a whole number.
pub open spec fn scaled(p: nat, q: nat, factor: nat) -> nat {
    let a = nearest(p, q);
    let b = nearest(a.0 * factor, a.1);
    b.0 / b.1
}

/// What [`exponent`] finds.
proof fn lemma_exponent(p: nat, q: nat)
    requires
        p > 0,
        q > 0,
    ensures
        q * pow2(above(exponent(p, q))) <= p * pow2(above(-exponent(p, q))),
        p * pow2(above(-exponent(p, q))) < 2 * q * pow2(above(exponent(p, q))),
        p >= 2 * q ==> exponent(p, q) > 0,
        p < q ==> exponent(p, q) < 0,
    decreases
            (if p < q {
                1nat
            } else {
                0nat
            }),
            (if p < q {
                q - p
            } else {
                p - q
            }),
{
    lemma2_to64();
    lemma2_to64_rest();
    if p >= 2 * q {
        lemma_exponent(p, 2 * q);
        let e = exponent(p, 2 * q);
        assert(e >= 0) by {
            if e < 0 {
                lemma_pow2_strictly_increases(0, above(-e));
                assert(p * pow2(above(-e)) >= 2 * p) by (nonlinear_arith)
                    requires
                        pow2(above(-e)) >= 2,
                ;
            }
        }
        lemma_pow2_unfold((e + 1) as nat);
        let w = pow2(e as nat);
        assert(q * (2 * w) == (2 * q) * w) by (nonlinear_arith);
        assert(2 * q * (2 * w) == 2 * (2 * q) * w) by (nonlinear_arith);
        assert(above(-(e + 1)) == 0 && above(-e) == 0);
        assert(p * 1 == p);
    } else if p < q {
        lemma_exponent(2 * p, q);
        let e = exponent(2 * p, q);
        assert(e <= 0) by {
            if e > 0 {
                lemma_pow2_strictly_increases(0, above(e));
                assert(q * pow2(above(e)) >= 2 * q) by (nonlinear_arith)
                    requires
                        pow2(above(e)) >= 2,
                ;
            }
        }
        lemma_pow2_unfold((1 - e) as nat);
        let w = pow2((-e) as nat);
        assert(p * (2 * w) == (2 * p) * w) by (nonlinear_arith);
        assert(above(e - 1) == 0 && above(e) == 0);
        assert(q * 1 == q && 2 * q * 1 == 2 * q);
    } else {
        assert(q * 1 == q && p * 1 == p && 2 * q * 1 == 2 * q);
    }
}

/// How large a rounded significand is.
proof fn lemma_significand(p: nat, q: nat)
    requires
        p > 0,
        q > 0,
    ensures
        pow2(52) <= significand(p, q) <= pow2(53),
{
    lemma_exponent(p, q);
    let a = p * pow2(above(-exponent(p, q)));
    let b = q * pow2(above(exponent(p, q)));
    lemma_pow2_pos(above(exponent(p, q)));
    assert(b > 0) by (nonlinear_arith)
        requires
            q > 0,
            pow2(above(exponent(p, q))) > 0,
            b == q * pow2(above(exponent(p, q))),
    ;
    let n = a * pow2(52);
    lemma_pow2_pos(52);
    lemma_fundamental_div_mod(n as int, b as int);
    lemma_pow2_unfold(53);
    let d = n / b;
    let r = n % b;
    let w = pow2(52);
    assert(2 * q * pow2(above(exponent(p, q))) == 2 * b) by (nonlinear_arith)
        requires
            b == q * pow2(above(exponent(p, q))),
    ;
    assert(d >= w) by (nonlinear_arith)
        requires
            a >= b,
            a * w == b * d + r,
            r < b,
            b > 0,
    ;
    assert(d < 2 * w) by (nonlinear_arith)
        requires
            a < 2 * b,
            a * w == b * d + r,
            r >= 0,
            b > 0,
            w > 0,
    ;
}

/// A fraction of at least 2^200 is beyond 128 bits in double precision.
proof fn lemma_huge(p: nat, q: nat)
    requires
        p > 0,
        q > 0,
        exponent(p, q) > 200,
    ensures
        nearest(p, q).1 == 1,
        nearest(p, q).0 >= pow2(201),
{
    let e = exponent(p, q);
    lemma2_to64();
    lemma2_to64_rest();
    lemma_significand(p, q);
    lemma_pow2_adds(52, (e - 52) as nat);
    if e > 201 {
        lemma_pow2_strictly_increases(201, e as nat);
    }
    let m = significand(p, q);
    let w = pow2((e - 52) as nat);
    assert(m * w >= pow2(52) * w) by (nonlinear_arith)
        requires
            m >= pow2(52),
    ;
}

/// A fraction below 2^-200 vanishes in double precision when it is rounded
/// down, even times a factor of up to 2^60.
proof fn lemma_tiny(p: nat, q: nat)
    requires
        p > 0,
        q > 0,
        exponent(p, q) < -139,
    ensures
        nearest(p, q).0 / nearest(p, q).1 == 0,
{
    let e = exponent(p, q);
    lemma2_to64();
    lemma2_to64_rest();
    lemma_significand(p, q);
    lemma_pow2_strictly_increases(53, (52 - e) as nat);
    assert(significand(p, q) * 1 == significand(p, q));
    vstd::arithmetic::div_mod::lemma_basic_div(
        significand(p, q) as int,
        pow2((52 - e) as nat) as int,
    );
}

/// The exponent of a large number over one is large.
proof fn lemma_exponent_of_large(p: nat)
    requires
        p >= pow2(201),
    ensures
        exponent(p, 1) > 200,
{
    let e = exponent(p, 1);
    lemma_pow2_pos(201);
    lemma_exponent(p, 1);
    if e <= 200 {
        lemma_pow2_strictly_increases(above(e), 201);
        lemma_pow2_unfold(above(e) + 1);
        if e < 0 {
            lemma_pow2_pos(above(-e));
            assert(p * pow2(above(-e)) >= p) by (nonlinear_arith)
                requires
                    pow2(above(-e)) >= 1,
            ;
            lemma2_to64();
            lemma2_to64_rest();
            lemma_pow2_strictly_increases(1, 201);
        } else {
            lemma2_to64();
            lemma2_to64_rest();
            assert(p * pow2(0) == p);
            if e + 1 < 201 {
                lemma_pow2_strictly_increases((e + 1) as nat, 201);
            }
        }
    }
}

/// What vanishes in double precision still vanishes after scaling.
proof fn lemma_tiny_scaled(p: nat, q: nat, factor: nat)
    requires
        p > 0,
        q > 0,
        0 < factor <= pow2(60),
        exponent(p, q) < -200,
    ensures
        scaled(p, q, factor) == 0,
{
    let e = exponent(p, q);
    let m = significand(p, q);
    lemma2_to64();
    lemma2_to64_rest();
    lemma_significand(p, q);
    assert(m * 1 == m);
    let b = pow2((52 - e) as nat);
    lemma_pow2_pos((52 - e) as nat);
    let a = m * factor;
    lemma_pow2_adds(53, 60);
    assert(0 < a <= pow2(113)) by (nonlinear_arith)
        requires
            a == m * factor,
            0 < m <= pow2(53),
            0 < factor <= pow2(60),
            pow2(53) * pow2(60) == pow2(113),
    ;
    lemma_exponent(a, b);
    let f = exponent(a, b);
    if f >= -139 {
        lemma_pow2_pos(above(f));
        assert(b * pow2(above(f)) >= b) by (nonlinear_arith)
            requires
                pow2(above(f)) >= 1,
        ;
        let g = above(-f);
        assert(g <= 139);
        if g < 139 {
            lemma_pow2_strictly_increases(g, 139);
        }
        lemma_pow2_adds(113, 139);
        assert(a * pow2(g) <= pow2(252)) by (nonlinear_arith)
            requires
                0 < a <= pow2(113),
                pow2(g) <= pow2(139),
                pow2(113) * pow2(139) == pow2(252),
        ;
        lemma_pow2_strictly_increases(252, (52 - e) as nat);
        assert(false);
    }
    lemma_tiny(a, b);
}

/// What a fraction is in double precision.
enum Double {
    /// At least 2^201.
    Huge,
    /// Below 2^-200.
    Tiny,
    /// `significand * 2^(exponent - 52)`.
    Held(u64, i32),
}

fn to_double(p: &Natural, q: &Natural) -> (r: Double)
    requires
        p@ > 0,
        q@ > 0,
    ensures
        match r {
            Double::Huge => exponent(p@, q@) > 200,
            Double::Tiny => exponent(p@, q@) < -200,
            Double::Held(m, e) => m == significand(p@, q@) && e == exponent(p@, q@) && -200 <= e
                <= 200 && pow2(52) <= m <= pow2(53),
        },
{
    proof {
        lemma2_to64();
        lemma2_to64_rest();
        lemma_significand(p@, q@);
    }
    let mut a = p.times_plus(1, 0);
    let mut b = q.times_plus(1, 0);
    let mut e: i32 = 0;
    while e < 200 && !a.less(&b.times_plus(2, 0))
        invariant
            0 <= e <= 200,
            p@ > 0,
            q@ > 0,
            a@ == p@,
            b@ == q@ * pow2(e as nat),
            b@ > 0,
            exponent(p@, q@) == e + exponent(a@, b@),
            e > 0 ==> b@ <= a@,
        decreases 200 - e,
    {
        proof {
            lemma_pow2_unfold((e + 1) as nat);
            let w = pow2(e as nat);
            assert(q@ * (2 * w) == (q@ * w) * 2) by (nonlinear_arith);
        }
        b = b.times_plus(2, 0);
        e += 1;
    }
    if !a.less(&b.times_plus(2, 0)) {
        proof {
            lemma_exponent(a@, b@);
        }
        return Double::Huge;
    }
    while e > -200 && a.less(&b)
        invariant
            -200 <= e <= 200,
            p@ > 0,
            q@ > 0,
            a@ == p@ * pow2(above(-e)),
            b@ == q@ * pow2(above(e as int)),
            a@ > 0,
            b@ > 0,
            a@ < 2 * b@,
            exponent(p@, q@) == e + exponent(a@, b@),
            e > 0 ==> b@ <= a@,
        decreases 200 + e,
    {
        proof {
            lemma_pow2_unfold((1 - e) as nat);
            let w = pow2((-e) as nat);
            assert(p@ * (2 * w) == (p@ * w) * 2) by (nonlinear_arith);
        }
        a = a.times_plus(2, 0);
        e -= 1;
    }
    if a.less(&b) {
        proof {
            lemma_exponent(a@, b@);
        }
        return Double::Tiny;
    }
    let ghost top = a@;
    let mut m: u64 = 0;
    let mut r = a;
    for i in 0..53
        invariant
            m < pow2(i as nat),
            b@ > 0,
            r@ < 2 * b@,
            top * pow2(i as nat) == 2 * (m * b@) + r@,
            i == 53 ==> r@ % 2 == 0,
    {
        proof {
            lemma2_to64();
            lemma2_to64_rest();
            lemma_pow2_unfold((i + 1) as nat);
            lemma_pow2_strictly_increases(i as nat, 53);
        }
        let ghost r0 = r@;
        let ghost m0 = m;
        if r.less(&b) {
            m = 2 * m;
        } else {
            r = r.minus(&b);
            m = 2 * m + 1;
        }
        proof {
            let w = pow2(i as nat);
            let bb = b@;
            assert((2 * m0) * bb == 2 * (m0 * bb)) by (nonlinear_arith);
            assert((2 * m0 + 1) * bb == 2 * (m0 * bb) + bb) by (nonlinear_arith);
            assert(top * (2 * w) == 2 * (top * w)) by (nonlinear_arith);
        }
        r = r.times_plus(2, 0);
    }
    proof {
        let n = top * pow2(52);
        lemma_pow2_unfold(53);
        let w = pow2(52);
        let bb = b@;
        assert(top * (2 * w) == 2 * (top * w)) by (nonlinear_arith);
        let rest = r@ / 2;
        assert(n == m * bb + rest);
        lemma_fundamental_div_mod_converse(n as int, bb as int, m as int, rest as int);
    }
    if r.less(&b) || (!b.less(&r) && m % 2 == 0) {
        Double::Held(m, e)
    } else {
        Double::Held(m + 1, e)
    }
}

/// `n` times 2^e.
pub fn shifted(n: &Natural, e: u32) -> (r: Natural)
    ensures
        r@ == n@ * pow2(e as nat),
{
    let mut r = n.times_plus(1, 0);
    proof {
        lemma2_to64();
        lemma2_to64_rest();
    }
    for i in 0..e
        invariant
            r@ == n@ * pow2(i as nat),
    {
        proof {
            lemma_pow2_unfold((i + 1) as nat);
            let w = pow2(i as nat);
            assert(n@ * (2 * w) == (n@ * w) * 2) by (nonlinear_arith);
        }
        r = r.times_plus(2, 0);
    }
    r
}

/// The whole part of a double, at most `u128::MAX`.
fn whole(m: u64, e: i32) -> (r: u128)
    requires
        pow2(52) <= m <= pow2(53),
        -200 <= e <= 200,
    ensures
        r as int == {
            let w = (m * pow2(above(e - 52))) as nat / pow2(above(52 - e));
            if w <= u128::MAX {
                w as int
            } else {
                u128::MAX as int
            }
        },
{
    proof {
        lemma2_to64();
        lemma2_to64_rest();
    }
    if e >= 52 {
        let mut r: u128 = m as u128;
        let n: i32 = e - 52;
        for i in 0..n
            invariant
                n == e - 52,
                52 <= e <= 200,
                m >= 1,
                r as int == (if m * pow2(i as nat) <= u128::MAX {
                    m * pow2(i as nat)
                } else {
                    u128::MAX as int
                }),
        {
            proof {
                lemma_pow2_unfold((i + 1) as nat);
                let w = pow2(i as nat);
                assert(m * (2 * w) == 2 * (m * w)) by (nonlinear_arith);
            }
            r = if r > u128::MAX / 2 {
                u128::MAX
            } else {
                2 * r
            };
        }
        proof {
            vstd::arithmetic::div_mod::lemma_div_basics(m * pow2(n as nat));
        }
        r
    } else {
        let mut r: u128 = m as u128;
        let n: i32 = 52 - e;
        proof {
            vstd::arithmetic::div_mod::lemma_div_basics(m as int);
        }
        for i in 0..n
            invariant
                n == 52 - e,
                -200 <= e < 52,
                r as nat == (m as nat) / pow2(i as nat),
        {
            proof {
                lemma_pow2_unfold((i + 1) as nat);
                lemma_pow2_pos(i as nat);
                let w = pow2(i as nat);
                vstd::arithmetic::div_mod::lemma_div_denominator(m as int, w as int, 2);
                assert(w * 2 == 2 * w);
            }
            r = r / 2;
        }
        assert(m * 1 == m);
        r
    }
}

/// `p / q` times `base^power` in double precision, rounded down to a whole
/// number of at most `u128::MAX`.
pub fn scale(p: &Natural, q: &Natural, base: u32, power: u32) -> (r: u128)
    requires
        q@ > 0,
        0 < base,
        vstd::arithmetic::power::pow(base as int, power as nat) <= pow2(60),
    ensures
        r as int == {
            let n = scaled(p@, q@, vstd::arithmetic::power::pow(base as int, power as nat) as nat);
            if n <= u128::MAX {
                n as int
            } else {
                u128::MAX as int
            }
        },
{
    let ghost factor = vstd::arithmetic::power::pow(base as int, power as nat) as nat;
    proof {
        lemma2_to64();
        lemma2_to64_rest();
        lemma_pow2_adds(64, 64);
        lemma_pow2_strictly_increases(128, 201);
        vstd::arithmetic::power::lemma_pow_positive(base as int, power as nat);
    }
    if p.is_zero() {
        assert(0 * factor == 0);
        return 0;
    }
    match to_double(p, q) {
        Double::Huge => {
            proof {
                lemma_huge(p@, q@);
                let a = nearest(p@, q@).0;
                assert(a * factor >= a) by (nonlinear_arith)
                    requires
                        factor >= 1,
                ;
                lemma_exponent_of_large(a * factor);
                lemma_huge(a * factor, 1);
                let b = nearest(a * factor, 1).0;
                vstd::arithmetic::div_mod::lemma_div_basics(b as int);
            }
            u128::MAX
        },
        Double::Tiny => {
            proof {
                lemma_tiny_scaled(p@, q@, factor);
            }
            0
        },
        Double::Held(m, e) => {
            let up: u32 = if e > 52 {
                (e - 52) as u32
            } else {
                0
            };
            let down: u32 = if e < 52 {
                (52 - e) as u32
            } else {
                0
            };
            let mut a = shifted(&Natural::from_u64(m), up);
            let ghost a0 = a@;
            assert(a0 * vstd::arithmetic::power::pow(base as int, 0) == a0) by {
                vstd::arithmetic::power::lemma_pow0(base as int);
            }
            for i in 0..power
                invariant
                    0 < base,
                    a@ == a0 * vstd::arithmetic::power::pow(base as int, i as nat),
            {
                proof {
                    vstd::arithmetic::power::lemma_pow_positive(base as int, i as nat);
                    let w = vstd::arithmetic::power::pow(base as int, i as nat);
                    reveal(vstd::arithmetic::power::pow);
                    assert(vstd::arithmetic::power::pow(base as int, (i + 1) as nat) == base * w);
                    assert(a0 * (base * w) == (a0 * w) * base) by (nonlinear_arith);
                }
                a = a.times_plus(base, 0);
            }
            let b = shifted(&Natural::from_u64(1), down);
            proof {
                lemma_pow2_pos(up as nat);
                lemma_pow2_pos(down as nat);
                assert(a0 > 0) by (nonlinear_arith)
                    requires
                        m > 0,
                        pow2(up as nat) > 0,
                        a0 == m * pow2(up as nat),
                ;
                let fa = a@;
                assert(fa > 0) by (nonlinear_arith)
                    requires
                        a0 > 0,
                        factor > 0,
                        fa == a0 * factor,
                ;
            }
            match to_double(&a, &b) {
                Double::Huge => {
                    proof {
                        lemma_huge(a@, b@);
                        let c = nearest(a@, b@).0;
                        vstd::arithmetic::div_mod::lemma_div_basics(c as int);
                    }
                    u128::MAX
                },
                Double::Tiny => {
                    proof {
                        lemma_tiny(a@, b@);
                    }
                    0
                },
                Double::Held(n, f) => whole(n, f),
            }
        },
    }
}

// ------------------------------------------------------------------ what holds of rounding

/// The exponent of a whole number of up to 53 binary digits.
proof fn lemma_whole_exponent(p: nat, q: nat, n: nat)
    requires
        q > 0,
        0 < n <= pow2(53),
        p == n * q,
    ensures
        0 < p,
        0 <= exponent(p, q) <= 53,
        pow2(exponent(p, q) as nat) <= n,
{
    lemma2_to64();
    assert(p >= q) by (nonlinear_arith)
        requires
            n >= 1,
            p == n * q,
    ;
    lemma_exponent(p, q);
    let e = exponent(p, q);
    assert(e >= 0) by {
        if e < 0 {
            lemma_pow2_strictly_increases(0, above(-e));
            assert(p * pow2(above(-e)) >= 2 * p) by (nonlinear_arith)
                requires
                    pow2(above(-e)) >= 2,
            ;
            assert(2 * q * 1 == 2 * q);
        }
    }
    let w = pow2(e as nat);
    assert(p * 1 == p);
    assert(w <= n) by (nonlinear_arith)
        requires
            q * w <= n * q,
            q > 0,
    ;
    if e > 53 {
        lemma_pow2_strictly_increases(53, e as nat);
    }
}

/// A whole number of up to 53 binary digits is held as it is.
proof fn lemma_exact(p: nat, q: nat, n: nat)
    requires
        q > 0,
        p == n * q,
        n <= pow2(53),
    ensures
        nearest(p, q).0 == n * nearest(p, q).1,
        nearest(p, q).1 > 0,
{
    lemma2_to64();
    if n == 0 {
        assert(0 * q == 0);
    } else {
        lemma_whole_exponent(p, q, n);
        let e = exponent(p, q);
        let w = pow2(e as nat);
        let half = pow2(52);
        let d = q * w;
        lemma_pow2_pos(e as nat);
        assert(d > 0) by (nonlinear_arith)
            requires
                q > 0,
                w > 0,
                d == q * w,
        ;
        assert(above(-e) == 0 && above(e) == e);
        assert(p * 1 == p);
        lemma_pow2_pos(above(52 - e));
        if e <= 52 {
            let k = pow2((52 - e) as nat);
            lemma_pow2_adds(e as nat, (52 - e) as nat);
            let m = n * k;
            assert(p * half == m * d) by (nonlinear_arith)
                requires
                    p == n * q,
                    m == n * k,
                    d == q * w,
                    w * k == half,
            ;
            lemma_fundamental_div_mod_converse((p * half) as int, d as int, m as int, 0);
            assert(significand(p, q) == m);
            assert(above(e - 52) == 0 && above(52 - e) == 52 - e);
            assert(m * 1 == m);
        } else {
            lemma_pow2_adds(52, 1);
            assert(p * half == half * d) by (nonlinear_arith)
                requires
                    p == n * q,
                    n == w,
                    d == q * w,
            ;
            lemma_fundamental_div_mod_converse((p * half) as int, d as int, half as int, 0);
            assert(significand(p, q) == half);
            assert(above(e - 52) == 1 && above(52 - e) == 0);
            assert(n * 1 == n);
        }
    }
}

/// A whole number whose product stays within 53 binary digits is scaled
/// exactly.
pub proof fn small_whole_numbers_scale_exactly(n: nat, factor: nat)
    requires
        0 < factor,
        n * factor <= pow2(53),
    ensures
        scaled(n, 1, factor) == n * factor,
{
    assert(n <= n * factor) by (nonlinear_arith)
        requires
            factor >= 1,
    ;
    assert(n * 1 == n);
    lemma_exact(n, 1, n);
    let a = nearest(n, 1);
    let m = n * factor;
    assert(a.0 * factor == m * a.1) by (nonlinear_arith)
        requires
            a.0 == n * a.1,
            m == n * factor,
    ;
    lemma_exact(a.0 * factor, a.1, m);
    let b = nearest(a.0 * factor, a.1);
    assert(b.0 == m * b.1 + 0);
    lemma_fundamental_div_mod_converse(b.0 as int, b.1 as int, m as int, 0);
}

/// Rounding is to the nearest, and to the even one of two that are as near.
pub proof fn rounding_is_to_the_nearest_even(n: nat, d: nat)
    requires
        d > 0,
    ensures
        2 * (half_even(n, d) * d - n) <= d,
        2 * (n - half_even(n, d) * d) <= d,
        2 * (half_even(n, d) * d - n) == d || 2 * (n - half_even(n, d) * d) == d ==> half_even(n, d)
            % 2 == 0,
{
    lemma_fundamental_div_mod(n as int, d as int);
    let q = n / d;
    let r = n % d;
    assert(q * d == d * q) by (nonlinear_arith);
    assert((q + 1) * d == q * d + d) by (nonlinear_arith);
}

/// The exponent of a quotient is where it lies between two powers of two.
pub proof fn exponents_bracket_the_quotient(p: nat, q: nat)
    requires
        p > 0,
        q > 0,
    ensures
        q * pow2(above(exponent(p, q))) <= p * pow2(above(-exponent(p, q))),
        p * pow2(above(-exponent(p, q))) < 2 * q * pow2(above(exponent(p, q))),
{
    lemma_exponent(p, q);
}

/// A significand is what a quotient, shifted so that its leading bit is the
/// fifty-third, is rounded to.
pub proof fn significands_are_the_nearest(p: nat, q: nat)
    requires
        p > 0,
        q > 0,
    ensures
        ({
            let e = exponent(p, q);
            let n = p * pow2(above(-e)) * pow2(52);
            let d = q * pow2(above(e));
            &&& significand(p, q) == half_even(n, d)
            &&& 2 * (significand(p, q) * d - n) <= d
            &&& 2 * (n - significand(p, q) * d) <= d
            &&& nearest(p, q).0 == significand(p, q) * pow2(above(e - 52))
            &&& nearest(p, q).1 == pow2(above(52 - e))
        }),
        nearest(0, q) == (0nat, 1nat),
{
    let e = exponent(p, q);
    lemma_pow2_pos(above(e));
    let d = q * pow2(above(e));
    assert(d > 0) by (nonlinear_arith)
        requires
            q > 0,
            pow2(above(e)) > 0,
            d == q * pow2(above(e)),
    ;
    rounding_is_to_the_nearest_even(p * pow2(above(-e)) * pow2(52), d);
}

/// Scaling rounds twice, as doubles do: the quotient, and its product with the
/// factor; what is left of a whole number is cut off.
pub proof fn scaling_rounds_twice(p: nat, q: nat, factor: nat)
    ensures
        ({
            let quotient = nearest(p, q);
            let product = nearest(quotient.0 * factor, quotient.1);
            scaled(p, q, factor) == product.0 / product.1
        }),
{
}

} // verus!
