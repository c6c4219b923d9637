//! The arithmetic model behind `Value`: a number is not-a-number, one of
//! the two infinities, or a rational kept in lowest terms with a positive
//! denominator.  The mathematical meaning of every operation is a spec
//! function over unbounded integers; the executable operations compute in
//! wide intermediates, reduce by the greatest common divisor, and report a
//! result that does not fit the stored word size as an allocation failure.

use vstd::prelude::*;
use vstd::arithmetic::div_mod::{lemma_fundamental_div_mod, lemma_fundamental_div_mod_converse};
use vstd::arithmetic::power2::{
    lemma2_to64, lemma2_to64_rest, lemma_pow2_adds, lemma_pow2_strictly_increases, pow2,
};

verus! {

/// The stored form of a number: a reduced rational or one of the special
/// values.
#[derive(Debug, Clone, Copy, PartialEq, Eq, Structural)]
pub enum ValRepr {
    Rat { num: i64, den: i64 },
    Nan,
    Infty,
    NegInfty,
}

/// The mathematical reading of a stored number, over unbounded integers.
pub enum RatV {
    Num { n: int, d: int },
    Nan,
    Inf,
    NegInf,
}

impl ValRepr {
    /// A stored rational has a positive denominator, and its numerator
    /// leaves room for negation.
    pub open spec fn wf(self) -> bool {
        match self {
            ValRepr::Rat { num, den } => den >= 1 && num > i64::MIN,
            _ => true,
        }
    }

    /// The mathematical value this word pattern denotes.
    pub open spec fn v(self) -> RatV {
        match self {
            ValRepr::Rat { num, den } => RatV::Num { n: num as int, d: den as int },
            ValRepr::Nan => RatV::Nan,
            ValRepr::Infty => RatV::Inf,
            ValRepr::NegInfty => RatV::NegInf,
        }
    }
}

pub open spec fn abs_i(x: int) -> int {
    if x >= 0 {
        x
    } else {
        -x
    }
}

/// Greatest common divisor by Euclid's recursion.
pub open spec fn gcd_nat(a: nat, b: nat) -> nat
    decreases b,
{
    if b == 0 {
        a
    } else {
        gcd_nat(b, a % b)
    }
}

/// `d` divides `x`.
pub open spec fn divides(d: int, x: int) -> bool {
    exists|k: int| x == #[trigger] (d * k)
}

pub proof fn lemma_gcd_pos(a: nat, b: nat)
    ensures
        a > 0 || b > 0 ==> gcd_nat(a, b) > 0,
        a == 0 && b == 0 ==> gcd_nat(a, b) == 0,
    decreases b,
{
    if b == 0 {
    } else {
        lemma_gcd_pos(b, a % b);
    }
}

pub proof fn lemma_gcd_divides(a: nat, b: nat)
    ensures
        divides(gcd_nat(a, b) as int, a as int),
        divides(gcd_nat(a, b) as int, b as int),
    decreases b,
{
    let g = gcd_nat(a, b) as int;
    if b == 0 {
        assert(a as int == g * 1);
        assert(b as int == g * 0);
    } else {
        lemma_gcd_divides(b, a % b);
        let k1 = choose|k: int| b as int == #[trigger] (g * k);
        let k2 = choose|k: int| (a % b) as int == #[trigger] (g * k);
        lemma_fundamental_div_mod(a as int, b as int);
        let q = a as int / b as int;
        assert(a as int == (g * k1) * q + g * k2);
        assert((g * k1) * q + g * k2 == g * (k1 * q + k2)) by (nonlinear_arith);
        assert(a as int == g * (k1 * q + k2));
    }
}

/// Exact division: if `g` divides `x`, the quotient is the witness.
proof fn lemma_div_exact(x: int, g: int, k: int)
    requires
        g >= 1,
        x >= 0,
        x == g * k,
    ensures
        x / g == k,
{
    assert(k >= 0) by (nonlinear_arith)
        requires
            g >= 1,
            g * k >= 0,
    ;
    vstd::arithmetic::div_mod::lemma_div_by_multiple(k, g);
    assert(g * k == k * g) by (nonlinear_arith);
}

/// A fraction with positive denominator, reduced to lowest terms.
pub open spec fn norm_pos(n: int, d: int) -> RatV
    recommends
        d >= 1,
{
    let m = abs_i(n);
    let g = gcd_nat(m as nat, d as nat) as int;
    if n >= 0 {
        RatV::Num { n: m / g, d: d / g }
    } else {
        RatV::Num { n: -(m / g), d: d / g }
    }
}

/// The reduced rational a raw fraction denotes; a zero denominator reads
/// as not-a-number.
pub open spec fn norm_frac(n: int, d: int) -> RatV {
    if d == 0 {
        RatV::Nan
    } else if d < 0 {
        norm_pos(-n, -d)
    } else {
        norm_pos(n, d)
    }
}

/// The reduced result fits the stored word size.
pub open spec fn fits(r: RatV) -> bool {
    match r {
        RatV::Num { n, d } => -(i64::MAX as int) <= n <= i64::MAX as int && 1 <= d <= i64::MAX
            as int,
        _ => true,
    }
}

pub open spec fn rv_neg(a: RatV) -> RatV {
    match a {
        RatV::Num { n, d } => RatV::Num { n: -n, d },
        RatV::Nan => RatV::Nan,
        RatV::Inf => RatV::NegInf,
        RatV::NegInf => RatV::Inf,
    }
}

pub open spec fn rv_add(a: RatV, b: RatV) -> RatV {
    match (a, b) {
        (RatV::Nan, _) => RatV::Nan,
        (_, RatV::Nan) => RatV::Nan,
        (RatV::Inf, RatV::NegInf) => RatV::Nan,
        (RatV::NegInf, RatV::Inf) => RatV::Nan,
        (RatV::Inf, _) => RatV::Inf,
        (_, RatV::Inf) => RatV::Inf,
        (RatV::NegInf, _) => RatV::NegInf,
        (_, RatV::NegInf) => RatV::NegInf,
        (RatV::Num { n: n1, d: d1 }, RatV::Num { n: n2, d: d2 }) => norm_frac(
            n1 * d2 + n2 * d1,
            d1 * d2,
        ),
    }
}

pub open spec fn rv_sub(a: RatV, b: RatV) -> RatV {
    rv_add(a, rv_neg(b))
}

pub open spec fn rv_sign(a: RatV) -> int {
    match a {
        RatV::Num { n, d } => if n > 0 {
            1
        } else if n < 0 {
            -1
        } else {
            0
        },
        RatV::Inf => 1,
        RatV::NegInf => -1,
        RatV::Nan => 0,
    }
}

pub open spec fn rv_mul(a: RatV, b: RatV) -> RatV {
    match (a, b) {
        (RatV::Nan, _) => RatV::Nan,
        (_, RatV::Nan) => RatV::Nan,
        (RatV::Num { n: n1, d: d1 }, RatV::Num { n: n2, d: d2 }) => norm_frac(n1 * n2, d1 * d2),
        _ => {
            // at least one infinity: the sign rule, with zero giving Nan
            let s = rv_sign(a) * rv_sign(b);
            if s > 0 {
                RatV::Inf
            } else if s < 0 {
                RatV::NegInf
            } else {
                RatV::Nan
            }
        },
    }
}

pub open spec fn rv_div(a: RatV, b: RatV) -> RatV {
    match (a, b) {
        (RatV::Nan, _) => RatV::Nan,
        (_, RatV::Nan) => RatV::Nan,
        (RatV::Num { n: n1, d: d1 }, RatV::Num { n: n2, d: d2 }) => norm_frac(n1 * d2, d1 * n2),
        (RatV::Num { n, d }, _) => RatV::Num { n: 0, d: 1 },  // finite over infinite
        (RatV::Inf, RatV::Num { n, d }) => if n > 0 {
            RatV::Inf
        } else if n < 0 {
            RatV::NegInf
        } else {
            RatV::Nan
        },
        (RatV::NegInf, RatV::Num { n, d }) => if n > 0 {
            RatV::NegInf
        } else if n < 0 {
            RatV::Inf
        } else {
            RatV::Nan
        },
        _ => RatV::Nan,  // infinite over infinite
    }
}

/// Strict order; meaningful only when neither side is Nan.
pub open spec fn rv_lt(a: RatV, b: RatV) -> bool {
    match (a, b) {
        (RatV::Num { n: n1, d: d1 }, RatV::Num { n: n2, d: d2 }) => n1 * d2 < n2 * d1,
        (RatV::Nan, _) => false,
        (_, RatV::Nan) => false,
        (RatV::NegInf, RatV::NegInf) => false,
        (RatV::NegInf, _) => true,
        (_, RatV::Inf) => !(a is Inf),
        _ => false,
    }
}

pub open spec fn rv_eq(a: RatV, b: RatV) -> bool {
    match (a, b) {
        (RatV::Num { n: n1, d: d1 }, RatV::Num { n: n2, d: d2 }) => n1 * d2 == n2 * d1,
        (RatV::Inf, RatV::Inf) => true,
        (RatV::NegInf, RatV::NegInf) => true,
        _ => false,
    }
}

/// Euclid's algorithm on machine words.
pub(crate) fn gcd_u128(a: u128, b: u128) -> (r: u128)
    ensures
        r == gcd_nat(a as nat, b as nat),
{
    let mut x = a;
    let mut y = b;
    while y != 0
        invariant
            gcd_nat(x as nat, y as nat) == gcd_nat(a as nat, b as nat),
        decreases y,
    {
        let t = x % y;
        x = y;
        y = t;
    }
    x
}

/// Build the stored form of the fraction `(-1)^neg * m / d`, reduced to
/// lowest terms; `None` when the reduced numerator or denominator does not
/// fit the stored word size.
pub(crate) fn norm_from_parts(neg: bool, m: u128, d: u128) -> (r: Option<ValRepr>)
    requires
        1 <= d,
        m < 0x8000_0000_0000_0000_0000_0000_0000_0000u128,
        d < 0x8000_0000_0000_0000_0000_0000_0000_0000u128,
    ensures
        ({
            let n_int: int = if neg {
                -(m as int)
            } else {
                m as int
            };
            &&& (r is Some <==> fits(norm_frac(n_int, d as int)))
            &&& match r {
                Some(v) => v.wf() && v.v() == norm_frac(n_int, d as int),
                None => true,
            }
        }),
{
    let ghost n_int: int = if neg {
        -(m as int)
    } else {
        m as int
    };
    if m == 0 {
        proof {
            lemma_gcd_pos(0, d as nat);
            lemma_gcd_divides(0, d as nat);
            let g = gcd_nat(0, d as nat) as int;
            let k = choose|k: int| d as int == #[trigger] (g * k);
            lemma_div_exact(d as int, g, k);
            lemma_div_exact(0, g, 0);
            // d == g * k and 0 == g * 0; since gcd(0, d) == d, the reduced
            // fraction is 0 / 1
            assert(gcd_nat(0, d as nat) == d as nat) by {
                reveal_with_fuel(gcd_nat, 2);
            };
            lemma_div_exact(d as int, d as int, 1);
        }
        return Some(ValRepr::Rat { num: 0, den: 1 });
    }
    let g = gcd_u128(m, d);
    proof {
        lemma_gcd_pos(m as nat, d as nat);
        lemma_gcd_divides(m as nat, d as nat);
        let gi = gcd_nat(m as nat, d as nat) as int;
        let km = choose|k: int| m as int == #[trigger] (gi * k);
        let kd = choose|k: int| d as int == #[trigger] (gi * k);
        lemma_div_exact(m as int, gi, km);
        lemma_div_exact(d as int, gi, kd);
        assert(km >= 1) by (nonlinear_arith)
            requires
                m as int == gi * km,
                m as int >= 1,
                gi >= 1,
        ;
        assert(kd >= 1) by (nonlinear_arith)
            requires
                d as int == gi * kd,
                d as int >= 1,
                gi >= 1,
        ;
    }
    let mr = m / g;
    let dr = d / g;
    if mr > i64::MAX as u128 || dr > i64::MAX as u128 {
        return None;
    }
    let num: i64 = if neg {
        -(mr as i64)
    } else {
        mr as i64
    };
    Some(ValRepr::Rat { num, den: dr as i64 })
}

/// Strict order with Nan excluded on both sides.
pub open spec fn rv_le(a: RatV, b: RatV) -> bool {
    rv_lt(a, b) || rv_eq(a, b)
}

/// Widening product of two machine words, total over the full range.
pub(crate) fn wide_mul_full(x: i64, y: i64) -> (r: i128)
    ensures
        r == x as int * y as int,
{
    proof {
        assert(-0x8000_0000_0000_0000_0000_0000_0000_0000 <= (x as int) * (y as int)
            <= 0x4000_0000_0000_0000_0000_0000_0000_0000) by (nonlinear_arith)
            requires
                -0x8000_0000_0000_0000 <= x as int <= 0x7fff_ffff_ffff_ffff,
                -0x8000_0000_0000_0000 <= y as int <= 0x7fff_ffff_ffff_ffff,
        ;
    }
    (x as i128) * (y as i128)
}

/// Widening product of two stored words.
pub(crate) fn wide_mul(x: i64, y: i64) -> (r: i128)
    requires
        x > i64::MIN,
        y > i64::MIN,
    ensures
        r == x as int * y as int,
        -0x4000_0000_0000_0000_0000_0000_0000_0000i128 < r
            < 0x4000_0000_0000_0000_0000_0000_0000_0000i128,
{
    proof {
        assert(-0x4000_0000_0000_0000_0000_0000_0000_0000 < (x as int) * (y as int)
            < 0x4000_0000_0000_0000_0000_0000_0000_0000) by (nonlinear_arith)
            requires
                -0x7fff_ffff_ffff_ffff <= x as int <= 0x7fff_ffff_ffff_ffff,
                -0x7fff_ffff_ffff_ffff <= y as int <= 0x7fff_ffff_ffff_ffff,
        ;
    }
    (x as i128) * (y as i128)
}

/// Split a wide signed word into sign and magnitude.
pub(crate) fn sign_mag(n: i128) -> (r: (bool, u128))
    requires
        n > i128::MIN,
    ensures
        r.1 == abs_i(n as int),
        r.0 == (n < 0),
{
    if n >= 0 {
        (false, n as u128)
    } else {
        (true, (-n) as u128)
    }
}

/// Negation: exact on every well-formed stored value.
pub(crate) fn repr_neg(a: ValRepr) -> (r: ValRepr)
    requires
        a.wf(),
    ensures
        r.wf(),
        r.v() == rv_neg(a.v()),
{
    match a {
        ValRepr::Rat { num, den } => ValRepr::Rat { num: -num, den },
        ValRepr::Nan => ValRepr::Nan,
        ValRepr::Infty => ValRepr::NegInfty,
        ValRepr::NegInfty => ValRepr::Infty,
    }
}

pub open spec fn rv_abs(a: RatV) -> RatV {
    match a {
        RatV::Num { n, d } => RatV::Num { n: abs_i(n), d },
        RatV::Nan => RatV::Nan,
        _ => RatV::Inf,
    }
}

/// Absolute value: exact on every well-formed stored value.
pub(crate) fn repr_abs(a: ValRepr) -> (r: ValRepr)
    requires
        a.wf(),
    ensures
        r.wf(),
        r.v() == rv_abs(a.v()),
{
    match a {
        ValRepr::Rat { num, den } => ValRepr::Rat {
            num: if num < 0 {
                -num
            } else {
                num
            },
            den,
        },
        ValRepr::Nan => ValRepr::Nan,
        _ => ValRepr::Infty,
    }
}

/// Addition; `None` when the reduced result does not fit.
pub(crate) fn repr_add(a: ValRepr, b: ValRepr) -> (r: Option<ValRepr>)
    requires
        a.wf(),
        b.wf(),
    ensures
        r is Some <==> fits(rv_add(a.v(), b.v())),
        match r {
            Some(v) => v.wf() && v.v() == rv_add(a.v(), b.v()),
            None => true,
        },
{
    match (a, b) {
        (ValRepr::Rat { num: n1, den: d1 }, ValRepr::Rat { num: n2, den: d2 }) => {
            let p1 = wide_mul(n1, d2);
            let p2 = wide_mul(n2, d1);
            let n = p1 + p2;
            let d = wide_mul(d1, d2);
            proof {
                assert(d >= 1) by (nonlinear_arith)
                    requires
                        d == (d1 as int) * (d2 as int),
                        d1 >= 1,
                        d2 >= 1,
                ;
            }
            let (neg, m) = sign_mag(n);
            norm_from_parts(neg, m, d as u128)
        },
        (ValRepr::Nan, _) => Some(ValRepr::Nan),
        (_, ValRepr::Nan) => Some(ValRepr::Nan),
        (ValRepr::Infty, ValRepr::NegInfty) => Some(ValRepr::Nan),
        (ValRepr::NegInfty, ValRepr::Infty) => Some(ValRepr::Nan),
        (ValRepr::Infty, _) => Some(ValRepr::Infty),
        (_, ValRepr::Infty) => Some(ValRepr::Infty),
        (ValRepr::NegInfty, _) => Some(ValRepr::NegInfty),
        (_, ValRepr::NegInfty) => Some(ValRepr::NegInfty),
    }
}

/// Subtraction, as addition of the negation.
pub(crate) fn repr_sub(a: ValRepr, b: ValRepr) -> (r: Option<ValRepr>)
    requires
        a.wf(),
        b.wf(),
    ensures
        r is Some <==> fits(rv_sub(a.v(), b.v())),
        match r {
            Some(v) => v.wf() && v.v() == rv_sub(a.v(), b.v()),
            None => true,
        },
{
    let nb = repr_neg(b);
    repr_add(a, nb)
}

/// Multiplication; `None` when the reduced result does not fit.
pub(crate) fn repr_mul(a: ValRepr, b: ValRepr) -> (r: Option<ValRepr>)
    requires
        a.wf(),
        b.wf(),
    ensures
        r is Some <==> fits(rv_mul(a.v(), b.v())),
        match r {
            Some(v) => v.wf() && v.v() == rv_mul(a.v(), b.v()),
            None => true,
        },
{
    match (a, b) {
        (ValRepr::Rat { num: n1, den: d1 }, ValRepr::Rat { num: n2, den: d2 }) => {
            let n = wide_mul(n1, n2);
            let d = wide_mul(d1, d2);
            proof {
                assert(d >= 1) by (nonlinear_arith)
                    requires
                        d == (d1 as int) * (d2 as int),
                        d1 >= 1,
                        d2 >= 1,
                ;
            }
            let (neg, m) = sign_mag(n);
            norm_from_parts(neg, m, d as u128)
        },
        (ValRepr::Nan, _) => Some(ValRepr::Nan),
        (_, ValRepr::Nan) => Some(ValRepr::Nan),
        (x, y) => {
            // at least one infinity
            let sx = repr_sign(x);
            let sy = repr_sign(y);
            proof {
                let s = rv_sign(x.v()) * rv_sign(y.v());
                assert((s > 0 <==> (sx as int) != 0 && sx == sy) && (s < 0 <==> (sx as int) != 0
                    && (sy as int) != 0 && sx != sy)) by (nonlinear_arith)
                    requires
                        -1 <= sx as int <= 1,
                        -1 <= sy as int <= 1,
                        s == (sx as int) * (sy as int),
                ;
            }
            if sx != 0 && sx == sy {
                Some(ValRepr::Infty)
            } else if sx != 0 && sy != 0 {
                Some(ValRepr::NegInfty)
            } else {
                Some(ValRepr::Nan)
            }
        },
    }
}

/// The sign of a stored value: negative, zero or positive.
pub(crate) fn repr_sign(a: ValRepr) -> (r: i64)
    requires
        a.wf(),
    ensures
        r == rv_sign(a.v()),
        -1 <= r <= 1,
{
    match a {
        ValRepr::Rat { num, den } => {
            if num > 0 {
                1
            } else if num < 0 {
                -1
            } else {
                0
            }
        },
        ValRepr::Infty => 1,
        ValRepr::NegInfty => -1,
        ValRepr::Nan => 0,
    }
}

/// Division; a zero divisor yields not-a-number; `None` when the reduced
/// result does not fit.
pub(crate) fn repr_div(a: ValRepr, b: ValRepr) -> (r: Option<ValRepr>)
    requires
        a.wf(),
        b.wf(),
    ensures
        r is Some <==> fits(rv_div(a.v(), b.v())),
        match r {
            Some(v) => v.wf() && v.v() == rv_div(a.v(), b.v()),
            None => true,
        },
{
    match (a, b) {
        (ValRepr::Rat { num: n1, den: d1 }, ValRepr::Rat { num: n2, den: d2 }) => {
            let n = wide_mul(n1, d2);
            let d = wide_mul(d1, n2);
            if d == 0 {
                proof {
                    assert((d1 as int) * (n2 as int) == 0 ==> n2 as int == 0) by (nonlinear_arith)
                        requires
                            d1 >= 1,
                    ;
                }
                return Some(ValRepr::Nan);
            }
            let (neg_n, m) = sign_mag(n);
            let (neg_d, dd) = sign_mag(d);
            let neg = neg_n != neg_d;
            let r = norm_from_parts(neg, m, dd);
            proof {
                let ghost ni = (n1 as int) * (d2 as int);
                let ghost di = (d1 as int) * (n2 as int);
                let ghost n_int: int = if neg {
                    -(m as int)
                } else {
                    m as int
                };
                if di < 0 {
                    assert(norm_frac(ni, di) == norm_pos(-ni, -di));
                    assert(norm_frac(n_int, dd as int) == norm_pos(n_int, dd as int));
                    assert(n_int == -ni);
                } else {
                    assert(n_int == ni);
                }
            }
            r
        },
        (ValRepr::Nan, _) => Some(ValRepr::Nan),
        (_, ValRepr::Nan) => Some(ValRepr::Nan),
        (ValRepr::Rat { num, den }, _) => Some(ValRepr::Rat { num: 0, den: 1 }),
        (x, ValRepr::Rat { num, den }) => {
            let x_pos = matches!(x, ValRepr::Infty);
            if num > 0 {
                Some(if x_pos {
                    ValRepr::Infty
                } else {
                    ValRepr::NegInfty
                })
            } else if num < 0 {
                Some(if x_pos {
                    ValRepr::NegInfty
                } else {
                    ValRepr::Infty
                })
            } else {
                Some(ValRepr::Nan)
            }
        },
        _ => Some(ValRepr::Nan),
    }
}

/// Strict comparison by cross-multiplication.
pub(crate) fn repr_lt(a: ValRepr, b: ValRepr) -> (r: bool)
    requires
        a.wf(),
        b.wf(),
    ensures
        r == rv_lt(a.v(), b.v()),
{
    match (a, b) {
        (ValRepr::Rat { num: n1, den: d1 }, ValRepr::Rat { num: n2, den: d2 }) => {
            let p1 = wide_mul(n1, d2);
            let p2 = wide_mul(n2, d1);
            p1 < p2
        },
        (ValRepr::Nan, _) => false,
        (_, ValRepr::Nan) => false,
        (ValRepr::NegInfty, ValRepr::NegInfty) => false,
        (ValRepr::NegInfty, _) => true,
        (x, ValRepr::Infty) => !matches!(x, ValRepr::Infty),
        _ => false,
    }
}

/// Equality by cross-multiplication; not-a-number equals nothing.
pub(crate) fn repr_eq(a: ValRepr, b: ValRepr) -> (r: bool)
    requires
        a.wf(),
        b.wf(),
    ensures
        r == rv_eq(a.v(), b.v()),
{
    match (a, b) {
        (ValRepr::Rat { num: n1, den: d1 }, ValRepr::Rat { num: n2, den: d2 }) => {
            let p1 = wide_mul(n1, d2);
            let p2 = wide_mul(n2, d1);
            p1 == p2
        },
        (ValRepr::Infty, ValRepr::Infty) => true,
        (ValRepr::NegInfty, ValRepr::NegInfty) => true,
        _ => false,
    }
}

pub open spec fn rv_is_int(a: RatV) -> bool {
    match a {
        RatV::Num { n, d } => d == 1,
        _ => false,
    }
}

pub open spec fn rv_floor(a: RatV) -> RatV {
    match a {
        RatV::Num { n, d } => RatV::Num { n: n / d, d: 1 },
        _ => a,
    }
}

pub open spec fn rv_ceil(a: RatV) -> RatV {
    match a {
        RatV::Num { n, d } => RatV::Num { n: -((-n) / d), d: 1 },
        _ => a,
    }
}

pub open spec fn rv_trunc(a: RatV) -> RatV {
    match a {
        RatV::Num { n, d } => if n >= 0 {
            RatV::Num { n: n / d, d: 1 }
        } else {
            RatV::Num { n: -(abs_i(n) / d), d: 1 }
        },
        _ => a,
    }
}

pub open spec fn rv_inv(a: RatV) -> RatV {
    match a {
        RatV::Num { n, d } => if n == 0 {
            RatV::Nan
        } else if n > 0 {
            RatV::Num { n: d, d: n }
        } else {
            RatV::Num { n: -d, d: -n }
        },
        RatV::Nan => RatV::Nan,
        _ => RatV::Num { n: 0, d: 1 },
    }
}

/// Division of a negative number rounds away from the quotient of the
/// magnitudes: `n / d == -((-n + d - 1) / d)` for `n < 0 <= 1 <= d`.
proof fn lemma_neg_div(n: int, d: int)
    requires
        d >= 1,
        n < 0,
    ensures
        n / d == -(((-n) + d - 1) / d),
{
    lemma_fundamental_div_mod(n, d);
    let q = n / d;
    let r = n % d;
    assert((-n) + d - 1 == (-q) * d + (d - r - 1)) by (nonlinear_arith)
        requires
            n == d * q + r,
    ;
    lemma_fundamental_div_mod_converse((-n) + d - 1, d, -q, d - r - 1);
}

/// Floor of a stored value; exact.
pub(crate) fn repr_floor(a: ValRepr) -> (r: ValRepr)
    requires
        a.wf(),
    ensures
        r.wf(),
        r.v() == rv_floor(a.v()),
{
    match a {
        ValRepr::Rat { num, den } => {
            if num >= 0 {
                let q = (num as u128) / (den as u128);
                ValRepr::Rat { num: q as i64, den: 1 }
            } else {
                let m = (-num) as u128;
                let q = (m + den as u128 - 1) / (den as u128);
                proof {
                    lemma_neg_div(num as int, den as int);
                    assert((m as int + den as int - 1) / (den as int) <= m as int)
                        by (nonlinear_arith)
                        requires
                            m as int >= 1,
                            den as int >= 1,
                    ;
                }
                ValRepr::Rat { num: -(q as i64), den: 1 }
            }
        },
        _ => a,
    }
}

/// Ceiling of a stored value; exact.
pub(crate) fn repr_ceil(a: ValRepr) -> (r: ValRepr)
    requires
        a.wf(),
    ensures
        r.wf(),
        r.v() == rv_ceil(a.v()),
{
    match a {
        ValRepr::Rat { num, den } => {
            if num <= 0 {
                let m = (-num) as u128;
                let q = m / (den as u128);
                ValRepr::Rat { num: -(q as i64), den: 1 }
            } else {
                let q = (num as u128 + den as u128 - 1) / (den as u128);
                proof {
                    lemma_neg_div(-(num as int), den as int);
                    assert((num as int + den as int - 1) / (den as int) <= num as int)
                        by (nonlinear_arith)
                        requires
                            num as int >= 1,
                            den as int >= 1,
                    ;
                }
                ValRepr::Rat { num: q as i64, den: 1 }
            }
        },
        _ => a,
    }
}

/// Truncation toward zero of a stored value; exact.
pub(crate) fn repr_trunc(a: ValRepr) -> (r: ValRepr)
    requires
        a.wf(),
    ensures
        r.wf(),
        r.v() == rv_trunc(a.v()),
{
    match a {
        ValRepr::Rat { num, den } => {
            if num >= 0 {
                let q = (num as u128) / (den as u128);
                ValRepr::Rat { num: q as i64, den: 1 }
            } else {
                let m = (-num) as u128;
                let q = m / (den as u128);
                ValRepr::Rat { num: -(q as i64), den: 1 }
            }
        },
        _ => a,
    }
}

/// Reciprocal of a stored value; zero inverts to not-a-number, the
/// infinities to zero.
pub(crate) fn repr_inv(a: ValRepr) -> (r: ValRepr)
    requires
        a.wf(),
    ensures
        r.wf(),
        r.v() == rv_inv(a.v()),
{
    match a {
        ValRepr::Rat { num, den } => {
            if num == 0 {
                ValRepr::Nan
            } else if num > 0 {
                ValRepr::Rat { num: den, den: num }
            } else {
                ValRepr::Rat { num: -den, den: -num }
            }
        },
        ValRepr::Nan => ValRepr::Nan,
        _ => ValRepr::Rat { num: 0, den: 1 },
    }
}

/// Remainder of two integers, nonnegative and taken modulo the magnitude
/// of the divisor.
pub open spec fn rv_mod(a: RatV, b: RatV) -> RatV {
    match (a, b) {
        (RatV::Num { n: n1, d: d1 }, RatV::Num { n: n2, d: d2 }) => RatV::Num {
            n: n1 % abs_i(n2),
            d: 1,
        },
        _ => RatV::Nan,
    }
}

/// Remainder of two stored integers; exact, nonnegative.
pub(crate) fn repr_mod(a: ValRepr, b: ValRepr) -> (r: ValRepr)
    requires
        a.wf(),
        b.wf(),
        rv_is_int(a.v()),
        rv_is_int(b.v()),
        rv_sign(b.v()) != 0,
    ensures
        r.wf(),
        r.v() == rv_mod(a.v(), b.v()),
{
    let (n1, n2) = match (a, b) {
        (ValRepr::Rat { num: x, den: _ }, ValRepr::Rat { num: y, den: _ }) => (x, y),
        _ => (0i64, 1i64),
    };
    let m2: u128 = if n2 >= 0 {
        n2 as u128
    } else {
        (-n2) as u128
    };
    if n1 >= 0 {
        let t = (n1 as u128) % m2;
        ValRepr::Rat { num: t as i64, den: 1 }
    } else {
        let m1 = (-n1) as u128;
        let t = m1 % m2;
        proof {
            lemma_fundamental_div_mod(m1 as int, m2 as int);
            let qq = m1 as int / m2 as int;
            if t == 0 {
                assert(n1 as int == (-qq) * (m2 as int) + 0) by (nonlinear_arith)
                    requires
                        m1 as int == (m2 as int) * qq + t,
                        t == 0,
                        n1 as int == -(m1 as int),
                ;
                lemma_fundamental_div_mod_converse(n1 as int, m2 as int, -qq, 0);
            } else {
                assert(n1 as int == (-qq - 1) * (m2 as int) + (m2 as int - t)) by (nonlinear_arith)
                    requires
                        m1 as int == (m2 as int) * qq + t,
                        n1 as int == -(m1 as int),
                ;
                lemma_fundamental_div_mod_converse(n1 as int, m2 as int, -qq - 1, m2 as int - t);
            }
        }
        if t == 0 {
            ValRepr::Rat { num: 0, den: 1 }
        } else {
            ValRepr::Rat { num: (m2 - t) as i64, den: 1 }
        }
    }
}

/// Greatest common divisor of two integers, by magnitude.
pub open spec fn rv_gcd(a: RatV, b: RatV) -> RatV {
    match (a, b) {
        (RatV::Num { n: n1, d: d1 }, RatV::Num { n: n2, d: d2 }) => RatV::Num {
            n: gcd_nat(abs_i(n1) as nat, abs_i(n2) as nat) as int,
            d: 1,
        },
        _ => RatV::Nan,
    }
}

/// A positive divisor is no larger than what it divides.
proof fn lemma_divides_le(g: int, x: int)
    requires
        g >= 1,
        x >= 1,
        divides(g, x),
    ensures
        g <= x,
{
    let k = choose|k: int| x == #[trigger] (g * k);
    assert(g <= x) by (nonlinear_arith)
        requires
            x == g * k,
            g >= 1,
            x >= 1,
    ;
}

/// Greatest common divisor of two stored integers; exact.
pub(crate) fn repr_gcd(a: ValRepr, b: ValRepr) -> (r: ValRepr)
    requires
        a.wf(),
        b.wf(),
        rv_is_int(a.v()),
        rv_is_int(b.v()),
    ensures
        r.wf(),
        r.v() == rv_gcd(a.v(), b.v()),
{
    let (n1, n2) = match (a, b) {
        (ValRepr::Rat { num: x, den: _ }, ValRepr::Rat { num: y, den: _ }) => (x, y),
        _ => (0i64, 0i64),
    };
    let m1: u128 = if n1 >= 0 {
        n1 as u128
    } else {
        (-n1) as u128
    };
    let m2: u128 = if n2 >= 0 {
        n2 as u128
    } else {
        (-n2) as u128
    };
    let g = gcd_u128(m1, m2);
    proof {
        lemma_gcd_pos(m1 as nat, m2 as nat);
        lemma_gcd_divides(m1 as nat, m2 as nat);
        if m1 == 0 && m2 == 0 {
        } else if m1 >= 1 {
            lemma_divides_le(g as int, m1 as int);
        } else {
            lemma_divides_le(g as int, m2 as int);
        }
    }
    ValRepr::Rat { num: g as i64, den: 1 }
}

/// Two to the power of an integer: a positive power is an integer, a
/// negative one a unit fraction.
pub open spec fn rv_exp2(a: RatV) -> RatV {
    match a {
        RatV::Num { n, d } => if n >= 0 {
            RatV::Num { n: pow2(n as nat) as int, d: 1 }
        } else {
            RatV::Num { n: 1, d: pow2((-n) as nat) as int }
        },
        _ => RatV::Nan,
    }
}

/// Two to the power of a stored integer; `None` when the power does not
/// fit the stored word size.
pub(crate) fn repr_exp2(a: ValRepr) -> (r: Option<ValRepr>)
    requires
        a.wf(),
        rv_is_int(a.v()),
    ensures
        r is Some <==> fits(rv_exp2(a.v())),
        match r {
            Some(v) => v.wf() && v.v() == rv_exp2(a.v()),
            None => true,
        },
{
    let e = match a {
        ValRepr::Rat { num: x, den: _ } => x,
        _ => 0i64,
    };
    let mag: u64 = if e >= 0 {
        e as u64
    } else {
        (-e) as u64
    };
    if mag > 62 {
        proof {
            lemma2_to64_rest();
            if mag > 63 {
                lemma_pow2_strictly_increases(63, mag as nat);
            }
        }
        return None;
    }
    proof {
        lemma2_to64();
        lemma2_to64_rest();
    }
    let mut p: u64 = 1;
    let mut i: u64 = 0;
    while i < mag
        invariant
            i <= mag,
            mag <= 62,
            p == pow2(i as nat),
            pow2(62) == 0x4000000000000000,
            pow2(0) == 1,
            pow2(1) == 2,
        decreases mag - i,
    {
        proof {
            lemma_pow2_adds(i as nat, 1);
            if i + 1 < 62 {
                lemma_pow2_strictly_increases((i + 1) as nat, 62);
            }
        }
        p = p * 2;
        i = i + 1;
    }
    proof {
        if mag < 62 {
            lemma_pow2_strictly_increases(mag as nat, 62);
        }
    }
    if e >= 0 {
        Some(ValRepr::Rat { num: p as i64, den: 1 })
    } else {
        Some(ValRepr::Rat { num: 1, den: p as i64 })
    }
}

/// The coefficient pair of the extended Euclid recursion.
pub open spec fn exgcd_spec(a: nat, b: nat) -> (int, int)
    decreases b,
{
    if b == 0 {
        (1, 0)
    } else {
        let (x1, y1) = exgcd_spec(b, a % b);
        (y1, x1 - (a as int / b as int) * y1)
    }
}

/// Extended Euclid on magnitudes: the gcd together with the exact
/// coefficient pair of `exgcd_spec`, which witnesses the gcd as an integer
/// combination of the inputs, with coefficients bounded by the inputs.
pub(crate) fn exgcd_mag(a: u64, b: u64) -> (r: (u64, i64, i64))
    requires
        a <= 0x7fff_ffff_ffff_ffff,
        b <= 0x7fff_ffff_ffff_ffff,
    ensures
        r.0 == gcd_nat(a as nat, b as nat),
        r.0 <= 0x7fff_ffff_ffff_ffffu64,
        (r.1 as int, r.2 as int) == exgcd_spec(a as nat, b as nat),
        r.0 as int == a as int * r.1 + b as int * r.2,
        abs_i(r.1 as int) <= if b == 0 {
            1int
        } else {
            b as int
        },
        abs_i(r.2 as int) <= if a == 0 {
            1int
        } else {
            a as int
        },
        b == 0 ==> r.1 == 1 && r.2 == 0,
    decreases b,
{
    if b == 0 {
        (a, 1, 0)
    } else {
        let q = a / b;
        let rr = a % b;
        let (g, x1, y1) = exgcd_mag(b, rr);
        proof {
            lemma_fundamental_div_mod(a as int, b as int);
            if rr == 0 {
                // the inner call returned the base pair exactly
                assert(x1 == 1 && y1 == 0);
            } else {
                assert(abs_i((x1 as int) - (q as int) * (y1 as int)) <= a as int)
                    by (nonlinear_arith)
                    requires
                        abs_i(x1 as int) <= rr as int,
                        abs_i(y1 as int) <= b as int,
                        a as int == (b as int) * (q as int) + rr as int,
                        1 <= rr as int,
                        1 <= b as int,
                        0 <= q as int,
                ;
            }
            assert((g as int) == (a as int) * (y1 as int) + (b as int) * ((x1 as int) - (q as int)
                * (y1 as int))) by (nonlinear_arith)
                requires
                    g as int == (b as int) * (x1 as int) + (rr as int) * (y1 as int),
                    a as int == (b as int) * (q as int) + rr as int,
            ;
        }
        let prod: i128 = wide_mul(q as i64, y1);
        let y128: i128 = (x1 as i128) - prod;
        let y: i64 = y128 as i64;
        (g, y1, y)
    }
}

/// A raw fraction whose parts fit the stored words reduces to a fraction
/// that fits them too.
pub proof fn lemma_norm_fits(n: int, d: int)
    requires
        1 <= d <= i64::MAX as int,
        -(i64::MAX as int) <= n <= i64::MAX as int,
    ensures
        fits(norm_frac(n, d)),
{
    let m = abs_i(n);
    let g = gcd_nat(m as nat, d as nat) as int;
    lemma_gcd_pos(m as nat, d as nat);
    lemma_gcd_divides(m as nat, d as nat);
    let kd = choose|k: int| d == #[trigger] (g * k);
    lemma_div_exact(d, g, kd);
    assert(kd >= 1) by (nonlinear_arith)
        requires
            d == g * kd,
            d >= 1,
            g >= 1,
    ;
    vstd::arithmetic::div_mod::lemma_div_nonincreasing(m, g);
    vstd::arithmetic::div_mod::lemma_div_pos_is_pos(m, g);
}

} // verus!
