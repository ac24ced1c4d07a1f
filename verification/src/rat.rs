//! Exact rational arithmetic for the viewport transform.
//!
//! Screen and data coordinates are rationals `num / den` with `den > 0`. The
//! mathematical value of a `Rat` is the pair `(num, den)` of unbounded
//! integers; two pairs denote the same rational when they cross-multiply
//! equally (`qeq`). All operations state their exact result at that level.

use vstd::prelude::*;
use vstd::arithmetic::div_mod::{lemma_div_multiples_vanish, lemma_fundamental_div_mod};
use vstd::math::abs;

verus! {

/// The rational `a.0 / a.1` is well formed when its denominator is positive.
pub open spec fn qwf(a: (int, int)) -> bool {
    a.1 > 0
}

/// `a` and `b` denote the same rational number.
pub open spec fn qeq(a: (int, int), b: (int, int)) -> bool {
    a.0 * b.1 == b.0 * a.1
}

/// The integer `n` as a rational pair.
pub open spec fn qint(n: int) -> (int, int) {
    (n, 1)
}

/// Sum of two rational pairs.
pub open spec fn qadd(a: (int, int), b: (int, int)) -> (int, int) {
    (a.0 * b.1 + b.0 * a.1, a.1 * b.1)
}

/// Difference of two rational pairs.
pub open spec fn qsub(a: (int, int), b: (int, int)) -> (int, int) {
    (a.0 * b.1 - b.0 * a.1, a.1 * b.1)
}

/// Product of two rational pairs.
pub open spec fn qmul(a: (int, int), b: (int, int)) -> (int, int) {
    (a.0 * b.0, a.1 * b.1)
}

/// Quotient of two rational pairs, sign-normalized so that a well-formed
/// divisor with nonzero numerator yields a well-formed result.
pub open spec fn qdiv(a: (int, int), b: (int, int)) -> (int, int) {
    if b.0 >= 0 {
        (a.0 * b.1, a.1 * b.0)
    } else {
        (-(a.0 * b.1), -(a.1 * b.0))
    }
}

/// The pair can be carried by a `Rat`: numerator strictly inside `i64` range
/// (so it can also be negated), denominator positive and in `i64` range.
pub open spec fn qfits(a: (int, int)) -> bool {
    &&& i64::MIN < a.0 <= i64::MAX
    &&& 0 < a.1 <= i64::MAX
}

/// Greatest common divisor, by Euclid's rule.
pub open spec fn gcd_nat(a: nat, b: nat) -> nat
    decreases b,
{
    if b == 0 {
        a
    } else {
        gcd_nat(b, a % b)
    }
}

/// The pair scaled down by the greatest common divisor of its parts: the
/// canonical representative of the rational it denotes.
pub open spec fn qreduce(a: (int, int)) -> (int, int) {
    let g = gcd_nat(abs(a.0), a.1 as nat) as int;
    if g <= 0 {
        a
    } else {
        (a.0 / g, a.1 / g)
    }
}

/// The gcd divides both of its arguments and is positive when `b` is.
pub proof fn lemma_gcd_divides(a: nat, b: nat)
    ensures
        exists|k: nat| a == #[trigger] (k * gcd_nat(a, b)),
        exists|k: nat| b == #[trigger] (k * gcd_nat(a, b)),
        b > 0 ==> gcd_nat(a, b) >= 1,
    decreases b,
{
    let g = gcd_nat(a, b);
    if b == 0 {
        assert(a == 1 * g);
        assert(b == 0 * g);
    } else {
        lemma_gcd_divides(b, a % b);
        assert(g == gcd_nat(b, a % b));
        let kb = choose|k: nat| b == #[trigger] (k * gcd_nat(b, a % b));
        let kr = choose|k: nat| (a % b) == #[trigger] (k * gcd_nat(b, a % b));
        lemma_fundamental_div_mod(a as int, b as int);
        let q = a as int / b as int;
        assert(q >= 0) by (nonlinear_arith)
            requires
                a as int == b * q + a % b,
                b > 0,
                a >= 0,
                0 <= a % b < b,
        ;
        assert(a as int == ((kb * q + kr) as int) * g) by (nonlinear_arith)
            requires
                a as int == b * q + (a % b),
                b == kb * g,
                a % b == kr * g,
        ;
        assert(a == ((kb * q + kr) as nat) * g);
        if a % b == 0 {
            assert(gcd_nat(b, 0) == b);
        }
    }
}

/// Dropping a common factor from both parts of a pair keeps the rational it
/// denotes; `rat_reduced` does so by the greatest common divisor.
pub fn rat_reduced(a: Rat) -> (r: Rat)
    requires
        a.wf(),
        a.num > i64::MIN,
    ensures
        r.wf(),
        r@ == qreduce(a@),
        qeq(r@, a@),
        r.den <= a.den,
        (r.num == 0) == (a.num == 0),
{
    let neg = a.num < 0;
    let n_abs: i64 = if neg {
        -a.num
    } else {
        a.num
    };
    let g: u64 = gcd_u64(n_abs as u64, a.den as u64);
    proof {
        lemma_gcd_divides(n_abs as nat, a.den as nat);
    }
    let ghost gn = gcd_nat(n_abs as nat, a.den as nat);
    let ghost kn = choose|k: nat| n_abs as nat == #[trigger] (k * gn);
    let ghost kd = choose|k: nat| a.den as nat == #[trigger] (k * gn);
    proof {
        lemma_div_multiples_vanish(kn as int, gn as int);
        lemma_div_multiples_vanish(kd as int, gn as int);
        assert(gn * kn == kn * gn && gn * kd == kd * gn) by (nonlinear_arith);
        assert(kn <= kn * gn && kd <= kd * gn && kd >= 1) by (nonlinear_arith)
            requires
                gn >= 1,
                kd * gn > 0,
        ;
    }
    let q_abs: u64 = n_abs as u64 / g;
    let den_r: u64 = a.den as u64 / g;
    let num_r: i64 = if neg {
        -(q_abs as i64)
    } else {
        q_abs as i64
    };
    proof {
        if neg {
            lemma_div_multiples_vanish(-(kn as int), gn as int);
            assert(gn as int * -(kn as int) == -(kn as int * gn as int)) by (nonlinear_arith);
        }
        assert(num_r as int * (kd * gn) == (a.num as int) * kd) by (nonlinear_arith)
            requires
                (neg ==> num_r as int == -(kn as int) && a.num as int == -(kn as int * gn as int))
                    && (!neg ==> num_r as int == kn as int && a.num as int == kn as int
                    * gn as int),
        ;
        assert(kn * gn == 0 ==> kn == 0) by (nonlinear_arith)
            requires
                gn >= 1,
        ;
        assert(kn == 0 ==> kn * gn == 0) by (nonlinear_arith);
    }
    Rat { num: num_r, den: den_r as i64 }
}

/// Euclid's algorithm.
fn gcd_u64(a0: u64, b0: u64) -> (g: u64)
    ensures
        g as nat == gcd_nat(a0 as nat, b0 as nat),
{
    let mut a = a0;
    let mut b = b0;
    while b != 0
        invariant
            gcd_nat(a as nat, b as nat) == gcd_nat(a0 as nat, b0 as nat),
        decreases b,
    {
        let t = a % b;
        a = b;
        b = t;
    }
    a
}

/// A product of an `i64` with a positive `i64` stays well inside `i128`.
proof fn lemma_prod_signed_pos(x: int, y: int)
    by (nonlinear_arith)
    requires
        i64::MIN <= x <= i64::MAX,
        0 < y <= i64::MAX,
    ensures
        -0x3fff_ffff_ffff_ffff_8000_0000_0000_0000 <= x * y
            <= 0x3fff_ffff_ffff_ffff_8000_0000_0000_0000,
{
}

/// A product of two `i64` values stays inside `i128`.
proof fn lemma_prod_signed_signed(x: int, y: int)
    by (nonlinear_arith)
    requires
        i64::MIN <= x <= i64::MAX,
        i64::MIN <= y <= i64::MAX,
    ensures
        -0x4000_0000_0000_0000_0000_0000_0000_0000 <= x * y
            <= 0x4000_0000_0000_0000_0000_0000_0000_0000,
{
}

/// A product of positive integers is positive.
pub proof fn lemma_pos_prod(x: int, y: int)
    by (nonlinear_arith)
    requires
        x > 0,
        y > 0,
    ensures
        x * y > 0,
{
}

/// Denoting the same rational is transitive, through a pair whose
/// denominator is nonzero.
pub proof fn lemma_qeq_trans(a: (int, int), b: (int, int), c: (int, int))
    by (nonlinear_arith)
    requires
        qeq(a, b),
        qeq(b, c),
        b.1 != 0,
    ensures
        qeq(a, c),
{
}

/// An exact rational number `num / den` with `den > 0`.
#[derive(Clone, Copy, Debug, PartialEq, Eq, Structural)]
pub struct Rat {
    pub num: i64,
    pub den: i64,
}

impl View for Rat {
    type V = (int, int);

    open spec fn view(&self) -> (int, int) {
        (self.num as int, self.den as int)
    }
}

impl Rat {
    /// The denominator is positive.
    pub open spec fn wf(self) -> bool {
        self.den > 0
    }
}

/// The integer `n` as a rational.
pub fn rat_of_int(n: i64) -> (r: Rat)
    ensures
        r.wf(),
        r@ == qint(n as int),
{
    Rat { num: n, den: 1 }
}

/// Exact rational sum.
pub fn rat_add(a: Rat, b: Rat) -> (r: Rat)
    requires
        a.wf(),
        b.wf(),
        qfits(qadd(a@, b@)),
    ensures
        r.wf(),
        r@ == qadd(a@, b@),
{
    proof {
        lemma_prod_signed_pos(a.num as int, b.den as int);
        lemma_prod_signed_pos(b.num as int, a.den as int);
        lemma_prod_signed_pos(a.den as int, b.den as int);
    }
    let n: i128 = a.num as i128 * b.den as i128 + b.num as i128 * a.den as i128;
    let d: i128 = a.den as i128 * b.den as i128;
    Rat { num: n as i64, den: d as i64 }
}

/// Exact rational difference.
pub fn rat_sub(a: Rat, b: Rat) -> (r: Rat)
    requires
        a.wf(),
        b.wf(),
        qfits(qsub(a@, b@)),
    ensures
        r.wf(),
        r@ == qsub(a@, b@),
{
    proof {
        lemma_prod_signed_pos(a.num as int, b.den as int);
        lemma_prod_signed_pos(b.num as int, a.den as int);
        lemma_prod_signed_pos(a.den as int, b.den as int);
    }
    let n: i128 = a.num as i128 * b.den as i128 - b.num as i128 * a.den as i128;
    let d: i128 = a.den as i128 * b.den as i128;
    Rat { num: n as i64, den: d as i64 }
}

/// Exact rational product.
pub fn rat_mul(a: Rat, b: Rat) -> (r: Rat)
    requires
        a.wf(),
        b.wf(),
        qfits(qmul(a@, b@)),
    ensures
        r.wf(),
        r@ == qmul(a@, b@),
{
    proof {
        lemma_prod_signed_signed(a.num as int, b.num as int);
        lemma_prod_signed_pos(a.den as int, b.den as int);
    }
    let n: i128 = a.num as i128 * b.num as i128;
    let d: i128 = a.den as i128 * b.den as i128;
    Rat { num: n as i64, den: d as i64 }
}

/// Exact rational quotient; the divisor must be a nonzero rational.
pub fn rat_div(a: Rat, b: Rat) -> (r: Rat)
    requires
        a.wf(),
        b.wf(),
        b.num != 0,
        qfits(qdiv(a@, b@)),
    ensures
        r.wf(),
        r@ == qdiv(a@, b@),
{
    proof {
        lemma_prod_signed_pos(a.num as int, b.den as int);
        lemma_prod_signed_signed(a.den as int, b.num as int);
    }
    let n: i128 = a.num as i128 * b.den as i128;
    let d: i128 = a.den as i128 * b.num as i128;
    if b.num > 0 {
        Rat { num: n as i64, den: d as i64 }
    } else {
        Rat { num: (-n) as i64, den: (-d) as i64 }
    }
}

/// Decides whether two rationals denote the same number.
pub fn rat_eqv(a: Rat, b: Rat) -> (r: bool)
    requires
        a.wf(),
        b.wf(),
    ensures
        r == qeq(a@, b@),
{
    proof {
        lemma_prod_signed_pos(a.num as int, b.den as int);
        lemma_prod_signed_pos(b.num as int, a.den as int);
    }
    a.num as i128 * b.den as i128 == b.num as i128 * a.den as i128
}

} // verus!
