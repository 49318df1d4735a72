//! Exact rational numbers over `i128` components.
//!
//! A [`Rat`] is a fraction `num / den` with `den > 0`. Fractions are compared
//! by cross-multiplication, so two `Rat`s with different components may denote
//! the same number. The spec-level model is [`Q`], a pair of unbounded
//! integers, with the arithmetic defined exactly; the executable operations
//! are proved to compute the same fractions.

use vstd::prelude::*;

verus! {

/// Spec-level rational: an unbounded numerator/denominator pair.
pub ghost struct Q {
    pub n: int,
    pub d: int,
}

/// A fraction is well formed when its denominator is positive.
pub open spec fn q_wf(a: Q) -> bool {
    a.d > 0
}

/// Equality of fractions by cross-multiplication.
pub open spec fn q_eq(a: Q, b: Q) -> bool {
    a.n * b.d == b.n * a.d
}

/// `a <= b` for fractions with positive denominators.
pub open spec fn q_le(a: Q, b: Q) -> bool {
    a.n * b.d <= b.n * a.d
}

/// `a < b` for fractions with positive denominators.
pub open spec fn q_lt(a: Q, b: Q) -> bool {
    a.n * b.d < b.n * a.d
}

pub open spec fn q_add(a: Q, b: Q) -> Q {
    Q { n: a.n * b.d + b.n * a.d, d: a.d * b.d }
}

pub open spec fn q_sub(a: Q, b: Q) -> Q {
    Q { n: a.n * b.d - b.n * a.d, d: a.d * b.d }
}

pub open spec fn q_mul(a: Q, b: Q) -> Q {
    Q { n: a.n * b.n, d: a.d * b.d }
}

/// Division; meaningful when `b.n != 0`. The resulting denominator is
/// negative when `b` is negative, which cross-multiplication handles.
pub open spec fn q_div(a: Q, b: Q) -> Q {
    Q { n: a.n * b.d, d: a.d * b.n }
}

pub open spec fn q_neg(a: Q) -> Q {
    Q { n: -a.n, d: a.d }
}

/// The fraction denoting the integer `i`.
pub open spec fn q_int(i: int) -> Q {
    Q { n: i, d: 1 }
}

/// The greatest common divisor, by Euclid's recursion.
pub open spec fn gcd(a: nat, b: nat) -> nat
    decreases b,
{
    if b == 0 {
        a
    } else {
        gcd(b, a % b)
    }
}

/// The absolute value of an integer.
pub open spec fn abs_int(x: int) -> int {
    if x < 0 {
        -x
    } else {
        x
    }
}

/// `gcd(a, b)` is positive and divides both arguments (unless both are zero).
pub proof fn lemma_gcd_divides(a: nat, b: nat)
    ensures
        a > 0 || b > 0 ==> gcd(a, b) > 0,
        a > 0 || b > 0 ==> (a as int) % (gcd(a, b) as int) == 0,
        a > 0 || b > 0 ==> (b as int) % (gcd(a, b) as int) == 0,
    decreases b,
{
    if b == 0 {
        if a > 0 {
            vstd::arithmetic::div_mod::lemma_mod_self_0(a as int);
            vstd::arithmetic::div_mod::lemma_small_mod(0, a);
        }
    } else {
        lemma_gcd_divides(b, a % b);
        let g = gcd(b, a % b) as int;
        let r = (a % b) as int;
        vstd::arithmetic::div_mod::lemma_fundamental_div_mod(a as int, b as int);
        vstd::arithmetic::div_mod::lemma_fundamental_div_mod(b as int, g);
        vstd::arithmetic::div_mod::lemma_fundamental_div_mod(r, g);
        let q = a as int / b as int;
        let kb = b as int / g;
        let kr = r / g;
        assert(a as int == (q * kb + kr) * g) by (nonlinear_arith)
            requires
                a as int == b as int * q + r,
                b as int == g * kb,
                r == g * kr,
        ;
        vstd::arithmetic::div_mod::lemma_mod_multiples_basic(q * kb + kr, g);
    }
}

/// The normal form of a fraction: positive denominator, reduced by the gcd.
pub open spec fn q_norm(x: Q) -> Q
    recommends
        x.d != 0,
{
    let n = if x.d < 0 {
        -x.n
    } else {
        x.n
    };
    let d = if x.d < 0 {
        -x.d
    } else {
        x.d
    };
    let g = gcd(abs_int(n) as nat, d as nat) as int;
    Q { n: n / g, d: d / g }
}

/// Normalizing keeps the fraction equal, the denominator positive, and the
/// components no larger in magnitude.
pub proof fn lemma_q_norm(x: Q)
    requires
        x.d > 0,
    ensures
        q_norm(x).d > 0,
        q_eq(q_norm(x), x),
        abs_int(q_norm(x).n) <= abs_int(x.n),
        q_norm(x).d <= x.d,
{
    let na = abs_int(x.n) as nat;
    lemma_gcd_divides(na, x.d as nat);
    let g = gcd(na, x.d as nat) as int;
    vstd::arithmetic::div_mod::lemma_fundamental_div_mod(x.n, g);
    vstd::arithmetic::div_mod::lemma_fundamental_div_mod(x.d, g);
    if x.n >= 0 {
        assert(x.n % g == 0);
    } else {
        // abs(n) % g == 0 implies n % g == 0 for exact division
        assert((-x.n) % g == 0);
        vstd::arithmetic::div_mod::lemma_fundamental_div_mod(-x.n, g);
        let k = (-x.n) / g;
        assert(-x.n == g * k);
        assert(x.n == g * (-k)) by (nonlinear_arith)
            requires
                -x.n == g * k,
        ;
        vstd::arithmetic::div_mod::lemma_div_multiples_vanish(-k, g);
        assert(x.n / g == -k);
    }
    let kn = x.n / g;
    let kd = x.d / g;
    assert(x.n == g * kn && x.d == g * kd);
    assert(kn * x.d == x.n * kd) by (nonlinear_arith)
        requires
            x.n == g * kn,
            x.d == g * kd,
    ;
    assert(kd > 0) by (nonlinear_arith)
        requires
            x.d == g * kd,
            x.d > 0,
            g > 0,
    ;
    vstd::arithmetic::div_mod::lemma_div_nonincreasing(x.d, g);
    if x.n >= 0 {
        vstd::arithmetic::div_mod::lemma_div_nonincreasing(x.n, g);
        vstd::arithmetic::div_mod::lemma_div_pos_is_pos(x.n, g);
    } else {
        vstd::arithmetic::div_mod::lemma_div_nonincreasing(-x.n, g);
        vstd::arithmetic::div_mod::lemma_div_pos_is_pos(-x.n, g);
    }
}

/// An exact rational number.
#[derive(Clone, Copy, Debug, PartialEq, Eq, Structural)]
pub struct Rat {
    pub num: i128,
    pub den: i128,
}

impl View for Rat {
    type V = Q;

    open spec fn view(&self) -> Q {
        Q { n: self.num as int, d: self.den as int }
    }
}

/// Well-formed executable rational: positive denominator.
pub open spec fn rat_wf(r: Rat) -> bool {
    r.den > 0
}

/// Largest magnitude allowed for the components of a stored `Rat`.
///
/// Kept low enough that every product formed by the checked operations
/// fits comfortably in an `i128`.
pub const COMPONENT_MAX: i128 = 0x4000_0000_0000_0000;

/// A fraction whose components fit within [`COMPONENT_MAX`].
pub open spec fn q_small(x: Q) -> bool {
    &&& -COMPONENT_MAX <= x.n <= COMPONENT_MAX
    &&& 0 < x.d <= COMPONENT_MAX
}

/// An executable rational whose components fit within [`COMPONENT_MAX`].
pub open spec fn rat_small(r: Rat) -> bool {
    q_small(r@)
}

/// Euclid's algorithm.
fn gcd_exec(a0: u128, b0: u128) -> (g: u128)
    requires
        b0 > 0,
    ensures
        g as nat == gcd(a0 as nat, b0 as nat),
        g > 0,
{
    let mut x = a0;
    let mut y = b0;
    while y != 0
        invariant
            gcd(x as nat, y as nat) == gcd(a0 as nat, b0 as nat),
            x > 0 || y > 0,
        decreases y,
    {
        let t = x % y;
        proof {
            assert(gcd(x as nat, y as nat) == gcd(y as nat, t as nat));
        }
        x = y;
        y = t;
    }
    proof {
        lemma_gcd_divides(a0 as nat, b0 as nat);
    }
    x
}

/// Reduce `n / d` to normal form.
fn reduce(n: i128, d: i128) -> (r: Rat)
    requires
        d > 0,
        n > i128::MIN,
    ensures
        r@ == q_norm(Q { n: n as int, d: d as int }),
        q_eq(r@, Q { n: n as int, d: d as int }),
        rat_wf(r),
        abs_int(r.num as int) <= abs_int(n as int),
        r.den <= d,
{
    let na: u128 = if n < 0 {
        (-n) as u128
    } else {
        n as u128
    };
    let g = gcd_exec(na, d as u128);
    proof {
        lemma_q_norm(Q { n: n as int, d: d as int });
        lemma_gcd_divides(na as nat, d as nat);
        vstd::arithmetic::div_mod::lemma_div_nonincreasing(na as int, g as int);
        vstd::arithmetic::div_mod::lemma_div_nonincreasing(d as int, g as int);
        vstd::arithmetic::div_mod::lemma_div_pos_is_pos(na as int, g as int);
        if n < 0 {
            vstd::arithmetic::div_mod::lemma_fundamental_div_mod(-(n as int), g as int);
            let k = -(n as int) / g as int;
            assert(n as int == g as int * (-k)) by (nonlinear_arith)
                requires
                    -(n as int) == g as int * k,
            ;
            vstd::arithmetic::div_mod::lemma_div_multiples_vanish(-k, g as int);
        }
    }
    let q = na / g;
    let dd = (d as u128) / g;
    let num = if n < 0 {
        -(q as i128)
    } else {
        q as i128
    };
    Rat { num, den: dd as i128 }
}

/// Reduce `n / d` and accept it only if the normal form is small enough
/// to store.
fn make(n: i128, d: i128) -> (r: Option<Rat>)
    requires
        d > 0,
        n > i128::MIN,
    ensures
        r matches Some(v) ==> {
            &&& v@ == q_norm(Q { n: n as int, d: d as int })
            &&& q_eq(v@, Q { n: n as int, d: d as int })
            &&& rat_wf(v)
            &&& rat_small(v)
        },
        r is None <==> !q_small(q_norm(Q { n: n as int, d: d as int })),
{
    let v = reduce(n, d);
    if -COMPONENT_MAX <= v.num && v.num <= COMPONENT_MAX && v.den <= COMPONENT_MAX {
        Some(v)
    } else {
        None
    }
}

impl Rat {
    /// Construct `n / d`.
    pub fn new(n: i64, d: i64) -> (r: Rat)
        requires
            d > 0,
        ensures
            r.num == n as int && r.den == d as int,
            rat_wf(r),
    {
        Rat { num: n as i128, den: d as i128 }
    }

    /// The rational denoting the integer `i`.
    pub fn from_int(i: i64) -> (r: Rat)
        ensures
            r@ == q_int(i as int),
            rat_wf(r),
    {
        Rat { num: i as i128, den: 1 }
    }

    /// Zero.
    pub fn zero() -> (r: Rat)
        ensures
            r@ == q_int(0),
            rat_wf(r),
    {
        Rat { num: 0, den: 1 }
    }

    /// One.
    pub fn one() -> (r: Rat)
        ensures
            r@ == q_int(1),
            rat_wf(r),
    {
        Rat { num: 1, den: 1 }
    }

    /// Exact sum, reduced; `None` when the reduced result is too large to
    /// store.
    pub fn checked_add(self, b: Rat) -> (r: Option<Rat>)
        requires
            rat_small(self),
            rat_small(b),
        ensures
            r matches Some(v) ==> {
                &&& q_eq(v@, q_add(self@, b@))
                &&& v@ == q_norm(q_add(self@, b@))
                &&& rat_small(v)
            },
            r is None <==> !q_small(q_norm(q_add(self@, b@))),
    {
        proof {
            lemma_ops_fit(self@, b@);
        }
        make(self.num * b.den + b.num * self.den, self.den * b.den)
    }

    /// Exact difference, reduced; `None` when the reduced result is too
    /// large to store.
    pub fn checked_sub(self, b: Rat) -> (r: Option<Rat>)
        requires
            rat_small(self),
            rat_small(b),
        ensures
            r matches Some(v) ==> {
                &&& q_eq(v@, q_sub(self@, b@))
                &&& v@ == q_norm(q_sub(self@, b@))
                &&& rat_small(v)
            },
            r is None <==> !q_small(q_norm(q_sub(self@, b@))),
    {
        proof {
            lemma_ops_fit(self@, b@);
        }
        make(self.num * b.den - b.num * self.den, self.den * b.den)
    }

    /// Exact product, reduced; `None` when the reduced result is too large
    /// to store.
    pub fn checked_mul(self, b: Rat) -> (r: Option<Rat>)
        requires
            rat_small(self),
            rat_small(b),
        ensures
            r matches Some(v) ==> {
                &&& q_eq(v@, q_mul(self@, b@))
                &&& v@ == q_norm(q_mul(self@, b@))
                &&& rat_small(v)
            },
            r is None <==> !q_small(q_norm(q_mul(self@, b@))),
    {
        proof {
            lemma_ops_fit(self@, b@);
        }
        make(self.num * b.num, self.den * b.den)
    }

    /// Exact quotient, reduced; `None` when the reduced result is too large
    /// to store. The divisor must not be zero.
    pub fn checked_div(self, b: Rat) -> (r: Option<Rat>)
        requires
            rat_small(self),
            rat_small(b),
            b.num != 0,
        ensures
            r matches Some(v) ==> {
                &&& q_eq(v@, q_div(self@, b@))
                &&& v@ == q_norm(q_div(self@, b@))
                &&& rat_small(v)
            },
            r is None <==> !q_small(q_norm(q_div(self@, b@))),
    {
        proof {
            lemma_ops_fit(self@, b@);
        }
        let n = self.num * b.den;
        let d = self.den * b.num;
        if d < 0 {
            let res = make(-n, -d);
            proof {
                if let Some(v) = res {
                    lemma_q_eq_negated(Q { n: -(n as int), d: -(d as int) }, v@);
                }
            }
            res
        } else {
            make(n, d)
        }
    }

    /// Exact negation.
    pub fn neg(self) -> (r: Rat)
        requires
            rat_small(self),
        ensures
            r@ == q_neg(self@),
            rat_small(r),
    {
        Rat { num: -self.num, den: self.den }
    }

    /// `self <= b`, exactly.
    pub fn le(self, b: Rat) -> (r: bool)
        requires
            rat_small(self),
            rat_small(b),
        ensures
            r == q_le(self@, b@),
    {
        proof {
            lemma_ops_fit(self@, b@);
        }
        self.num * b.den <= b.num * self.den
    }

    /// `self < b`, exactly.
    pub fn lt(self, b: Rat) -> (r: bool)
        requires
            rat_small(self),
            rat_small(b),
        ensures
            r == q_lt(self@, b@),
    {
        proof {
            lemma_ops_fit(self@, b@);
        }
        self.num * b.den < b.num * self.den
    }

    /// Whether the fractions denote the same number.
    pub fn eq_rat(self, b: Rat) -> (r: bool)
        requires
            rat_small(self),
            rat_small(b),
        ensures
            r == q_eq(self@, b@),
    {
        proof {
            lemma_ops_fit(self@, b@);
        }
        self.num * b.den == b.num * self.den
    }

    /// Whether the number is strictly positive.
    pub fn is_positive(self) -> (r: bool)
        requires
            rat_wf(self),
        ensures
            r == q_lt(q_int(0), self@),
    {
        self.num > 0
    }

    /// Whether the number is strictly negative.
    pub fn is_negative(self) -> (r: bool)
        requires
            rat_wf(self),
        ensures
            r == q_lt(self@, q_int(0)),
    {
        self.num < 0
    }

    /// Whether the number is zero.
    pub fn is_zero(self) -> (r: bool)
        requires
            rat_wf(self),
        ensures
            r == q_eq(self@, q_int(0)),
    {
        self.num == 0
    }
}

/// Negating numerator and denominator together keeps the fraction equal to
/// anything it was equal to.
proof fn lemma_q_eq_negated(a: Q, b: Q) by (nonlinear_arith)
    ensures
        q_eq(a, b) <==> q_eq(Q { n: -a.n, d: -a.d }, b),
{
}

/// All products formed by the checked operations on small fractions fit in
/// an `i128`.
proof fn lemma_ops_fit(a: Q, b: Q) by (nonlinear_arith)
    requires
        q_small(a),
        q_small(b),
    ensures
        -(COMPONENT_MAX * COMPONENT_MAX) <= a.n * b.d <= COMPONENT_MAX * COMPONENT_MAX,
        -(COMPONENT_MAX * COMPONENT_MAX) <= b.n * a.d <= COMPONENT_MAX * COMPONENT_MAX,
        -(COMPONENT_MAX * COMPONENT_MAX) <= a.n * b.n <= COMPONENT_MAX * COMPONENT_MAX,
        -(COMPONENT_MAX * COMPONENT_MAX) <= a.d * b.n <= COMPONENT_MAX * COMPONENT_MAX,
        0 < a.d * b.d <= COMPONENT_MAX * COMPONENT_MAX,
        a.n != 0 && b.d != 0 ==> a.n * b.d != 0,
        b.n != 0 ==> a.d * b.n != 0,
{
}

/// Equality of fractions is transitive when the middle denominator is
/// nonzero.
pub proof fn lemma_q_eq_trans(a: Q, b: Q, c: Q) by (nonlinear_arith)
    requires
        q_eq(a, b),
        q_eq(b, c),
        b.d != 0,
    ensures
        q_eq(a, c),
{
}

/// `(x + y) - y == x`.
pub proof fn lemma_q_add_sub_cancel(x: Q, y: Q) by (nonlinear_arith)
    ensures
        q_eq(q_sub(q_add(x, y), y), x),
{
}

/// `(x - y) + y == x`.
pub proof fn lemma_q_sub_add_cancel(x: Q, y: Q) by (nonlinear_arith)
    ensures
        q_eq(q_add(q_sub(x, y), y), x),
{
}

/// `x + (y - x) == y`.
pub proof fn lemma_q_add_sub_restore(x: Q, y: Q) by (nonlinear_arith)
    ensures
        q_eq(q_add(x, q_sub(y, x)), y),
{
}

/// `(a / s) * s == a` (trivially true as a cross-multiplication when
/// `s.n == 0`, since both sides then collapse).
pub proof fn lemma_q_div_mul_cancel(a: Q, s: Q) by (nonlinear_arith)
    ensures
        q_eq(q_mul(q_div(a, s), s), a),
{
}

/// `(a * s) / s == a`.
pub proof fn lemma_q_mul_div_cancel(a: Q, s: Q) by (nonlinear_arith)
    ensures
        q_eq(q_div(q_mul(a, s), s), a),
{
}

/// Replacing the left operand of an addition by an equal fraction keeps the
/// sum equal.
pub proof fn lemma_q_add_congr(x: Q, x2: Q, y: Q)
    requires
        q_eq(x, x2),
    ensures
        q_eq(q_add(x, y), q_add(x2, y)),
{
    vstd::arithmetic::mul::lemma_mul_is_distributive_add_other_way(
        x2.d * y.d, x.n * y.d, y.n * x.d);
    vstd::arithmetic::mul::lemma_mul_is_distributive_add_other_way(
        x.d * y.d, x2.n * y.d, y.n * x2.d);
    assert((x.n * y.d) * (x2.d * y.d) == (x.n * x2.d) * (y.d * y.d)) by (nonlinear_arith);
    assert((y.n * x.d) * (x2.d * y.d) == (y.n * y.d) * (x.d * x2.d)) by (nonlinear_arith);
    assert((x2.n * y.d) * (x.d * y.d) == (x2.n * x.d) * (y.d * y.d)) by (nonlinear_arith);
    assert((y.n * x2.d) * (x.d * y.d) == (y.n * y.d) * (x.d * x2.d)) by (nonlinear_arith);
}

/// Replacing the left operand of a subtraction by an equal fraction keeps
/// the difference equal.
pub proof fn lemma_q_sub_congr(x: Q, x2: Q, y: Q)
    requires
        q_eq(x, x2),
    ensures
        q_eq(q_sub(x, y), q_sub(x2, y)),
{
    vstd::arithmetic::mul::lemma_mul_is_distributive_sub_other_way(
        x2.d * y.d, x.n * y.d, y.n * x.d);
    vstd::arithmetic::mul::lemma_mul_is_distributive_sub_other_way(
        x.d * y.d, x2.n * y.d, y.n * x2.d);
    assert((x.n * y.d) * (x2.d * y.d) == (x.n * x2.d) * (y.d * y.d)) by (nonlinear_arith);
    assert((y.n * x.d) * (x2.d * y.d) == (y.n * y.d) * (x.d * x2.d)) by (nonlinear_arith);
    assert((x2.n * y.d) * (x.d * y.d) == (x2.n * x.d) * (y.d * y.d)) by (nonlinear_arith);
    assert((y.n * x2.d) * (x.d * y.d) == (y.n * y.d) * (x.d * x2.d)) by (nonlinear_arith);
}

/// Replacing the right operand of a subtraction by an equal fraction keeps
/// the difference equal.
pub proof fn lemma_q_sub_congr_right(x: Q, y: Q, y2: Q)
    requires
        q_eq(y, y2),
    ensures
        q_eq(q_sub(x, y), q_sub(x, y2)),
{
    vstd::arithmetic::mul::lemma_mul_is_distributive_sub_other_way(
        x.d * y2.d, x.n * y.d, y.n * x.d);
    vstd::arithmetic::mul::lemma_mul_is_distributive_sub_other_way(
        x.d * y.d, x.n * y2.d, y2.n * x.d);
    assert((x.n * y.d) * (x.d * y2.d) == (x.n * x.d) * (y.d * y2.d)) by (nonlinear_arith);
    assert((y.n * x.d) * (x.d * y2.d) == (x.d * x.d) * (y.n * y2.d)) by (nonlinear_arith);
    assert((x.n * y2.d) * (x.d * y.d) == (x.n * x.d) * (y.d * y2.d)) by (nonlinear_arith);
    assert((y2.n * x.d) * (x.d * y.d) == (x.d * x.d) * (y2.n * y.d)) by (nonlinear_arith);
}

/// Replacing the left operand of a multiplication by an equal fraction
/// keeps the product equal.
pub proof fn lemma_q_mul_congr(x: Q, x2: Q, y: Q) by (nonlinear_arith)
    requires
        q_eq(x, x2),
    ensures
        q_eq(q_mul(x, y), q_mul(x2, y)),
{
}

/// Replacing the right operand of a multiplication by an equal fraction
/// keeps the product equal.
pub proof fn lemma_q_mul_congr_right(x: Q, y: Q, y2: Q) by (nonlinear_arith)
    requires
        q_eq(y, y2),
    ensures
        q_eq(q_mul(x, y), q_mul(x, y2)),
{
}

/// Replacing the dividend by an equal fraction keeps the quotient equal.
pub proof fn lemma_q_div_congr(x: Q, x2: Q, y: Q) by (nonlinear_arith)
    requires
        q_eq(x, x2),
    ensures
        q_eq(q_div(x, y), q_div(x2, y)),
{
}

/// Replacing the right operand of an addition by an equal fraction keeps
/// the sum equal.
pub proof fn lemma_q_add_congr_right(x: Q, y: Q, y2: Q)
    requires
        q_eq(y, y2),
    ensures
        q_eq(q_add(x, y), q_add(x, y2)),
{
    vstd::arithmetic::mul::lemma_mul_is_distributive_add_other_way(
        x.d * y2.d, x.n * y.d, y.n * x.d);
    vstd::arithmetic::mul::lemma_mul_is_distributive_add_other_way(
        x.d * y.d, x.n * y2.d, y2.n * x.d);
    assert((x.n * y.d) * (x.d * y2.d) == (x.n * x.d) * (y.d * y2.d)) by (nonlinear_arith);
    assert((y.n * x.d) * (x.d * y2.d) == (x.d * x.d) * (y.n * y2.d)) by (nonlinear_arith);
    assert((x.n * y2.d) * (x.d * y.d) == (x.n * x.d) * (y.d * y2.d)) by (nonlinear_arith);
    assert((y2.n * x.d) * (x.d * y.d) == (x.d * x.d) * (y2.n * y.d)) by (nonlinear_arith);
}

/// Replacing the divisor by an equal fraction keeps the quotient equal.
pub proof fn lemma_q_div_congr_right(x: Q, y: Q, y2: Q) by (nonlinear_arith)
    requires
        q_eq(y, y2),
    ensures
        q_eq(q_div(x, y), q_div(x, y2)),
{
}

/// Negating two equal fractions keeps them equal.
pub proof fn lemma_q_neg_congr(a: Q, b: Q) by (nonlinear_arith)
    requires
        q_eq(a, b),
    ensures
        q_eq(q_neg(a), q_neg(b)),
{
}

/// Equal fractions with positive denominators have numerators of the
/// same sign.
pub proof fn lemma_q_eq_sign(a: Q, b: Q) by (nonlinear_arith)
    requires
        q_eq(a, b),
        a.d > 0,
        b.d > 0,
    ensures
        (a.n < 0 <==> b.n < 0),
        (a.n == 0 <==> b.n == 0),
{
}

/// A fraction equal to a positive fraction is itself positive.
pub proof fn lemma_q_eq_pos(a: Q, b: Q) by (nonlinear_arith)
    requires
        q_eq(a, b),
        a.d > 0,
        b.d > 0,
        b.n > 0,
    ensures
        a.n > 0,
{
}

/// Bounds on the components of exact sums, differences, products and
/// quotients, given bounds on the operands.
#[verifier::rlimit(100)]
pub proof fn lemma_q_op_bounds(x: Q, y: Q, bxn: int, bxd: int, byn: int, byd: int) by (nonlinear_arith)
    requires
        abs_int(x.n) <= bxn,
        0 < x.d <= bxd,
        abs_int(y.n) <= byn,
        0 < y.d <= byd,
    ensures
        abs_int(q_add(x, y).n) <= bxn * byd + byn * bxd,
        0 < q_add(x, y).d <= bxd * byd,
        abs_int(q_sub(x, y).n) <= bxn * byd + byn * bxd,
        0 < q_sub(x, y).d <= bxd * byd,
        abs_int(q_mul(x, y).n) <= bxn * byn,
        0 < q_mul(x, y).d <= bxd * byd,
        abs_int(q_div(x, y).n) <= bxn * byd,
        y.n > 0 ==> 0 < q_div(x, y).d <= bxd * byn,
{
}

/// The normal form of a small fraction is small.
pub proof fn lemma_q_norm_small(x: Q)
    requires
        x.d > 0,
        q_small(x),
    ensures
        q_small(q_norm(x)),
        q_eq(q_norm(x), x),
{
    lemma_q_norm(x);
}

/// What a checked operation stores for the exact result `x`: its normal
/// form when that fits the component bound, nothing otherwise. Each
/// checked operation's outcome is exactly `stored` of its exact result,
/// so a chain of checked operations succeeds exactly when every
/// `stored` in the chain is `Some`.
pub open spec fn stored(x: Q) -> Option<Q> {
    if q_small(q_norm(x)) {
        Some(q_norm(x))
    } else {
        None
    }
}

/// A whole number of pixels within `bound`: denominator one, numerator
/// at most `bound` in magnitude.
pub open spec fn q_pixel(x: Q, bound: int) -> bool {
    x.d == 1 && -bound <= x.n <= bound
}

/// An integer fraction is its own normal form.
pub proof fn lemma_q_norm_int(x: Q)
    requires
        x.d == 1,
    ensures
        q_norm(x) == x,
{
    let na = abs_int(x.n) as nat;
    assert(gcd(na, 1) == 1) by {
        assert(gcd(na, 1) == gcd(1, na % 1));
        vstd::arithmetic::div_mod::lemma_mod_self_0(1);
        assert(na % 1 == 0) by {
            vstd::arithmetic::div_mod::lemma_fundamental_div_mod(na as int, 1);
        }
    }
    assert(x.n / 1 == x.n) by {
        vstd::arithmetic::div_mod::lemma_div_multiples_vanish(x.n, 1);
    }
    assert(x.d / 1 == 1) by {
        vstd::arithmetic::div_mod::lemma_div_multiples_vanish(1, 1);
    }
}

} // verus!
