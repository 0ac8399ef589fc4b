use vstd::prelude::*;

use rust_decimal::Decimal;
use vstd::arithmetic::div_mod::{lemma_fundamental_div_mod, lemma_mod_multiples_basic, lemma_mod_multiples_vanish};

use crate::keyed::ExactKey;

verus! {

/// The largest number of decimal places a `Dec` carries.
pub const MAX_SCALE: u32 = 28;

/// Mantissas are below 2^96 in magnitude.
pub const MANTISSA_LIMIT: i128 = 79228162514264337593543950336;

/// Ten to the power `n`.
pub open spec fn pow10(n: nat) -> int
    decreases n,
{
    if n == 0 {
        1
    } else {
        10 * pow10((n - 1) as nat)
    }
}

/// The value of mantissa `m` at scale `s` (that is, `m * 10^-s`), counted in units of 10^-28.
pub open spec fn decimal_value(m: int, s: nat) -> int {
    m * pow10((28 - s) as nat)
}

pub open spec fn mantissa_ok(m: int) -> bool {
    -MANTISSA_LIMIT < m < MANTISSA_LIMIT
}

/// Whether a value, counted in units of 10^-28, can be held by a decimal:
/// a mantissa below 2^96 at a scale of at most 28.
pub open spec fn fits(x: int) -> bool {
    exists|m: int, s: nat| s <= 28 && mantissa_ok(m) && #[trigger] decimal_value(m, s) == x
}

/// A mantissa and scale without trailing zeros.
pub open spec fn normalized(m: int, s: nat) -> bool {
    s <= 28 && mantissa_ok(m) && (s == 0 || m % 10 != 0)
}

/// The decimal product of two values, as `rust_decimal` computes it (rounded
/// where the exact product has too many digits); `None` on overflow.
pub uninterp spec fn decimal_product(a: int, b: int) -> Option<int>;

/// The decimal quotient of two values, as `rust_decimal` computes it (rounded to
/// what 96 bits and 28 places hold); `None` on division by zero or overflow.
pub uninterp spec fn decimal_quotient(a: int, b: int) -> Option<int>;

/// Relies on `rust_decimal::Decimal::checked_mul`, and on `normalize` stripping
/// trailing zeros: the product of two decimals, or `None` on overflow.
#[verifier::external_body]
fn decimal_mul(am: i128, ascale: u32, bm: i128, bscale: u32) -> (r: Option<(i128, u32)>)
    requires
        normalized(am as int, ascale as nat),
        normalized(bm as int, bscale as nat),
    ensures
        r is Some <==> decimal_product(
            decimal_value(am as int, ascale as nat),
            decimal_value(bm as int, bscale as nat),
        ) is Some,
        am >= 0 && bm >= 0 ==> (r matches Some(p) ==> p.0 >= 0),
        r matches Some(p) ==> normalized(p.0 as int, p.1 as nat) && decimal_product(
            decimal_value(am as int, ascale as nat),
            decimal_value(bm as int, bscale as nat),
        ) == Some(decimal_value(p.0 as int, p.1 as nat)),
{
    let a = Decimal::from_i128_with_scale(am, ascale);
    let b = Decimal::from_i128_with_scale(bm, bscale);
    a.checked_mul(b).map(|p| {
        let p = p.normalize();
        (p.mantissa(), p.scale())
    })
}

/// Relies on `rust_decimal::Decimal::checked_div`, and on `normalize` stripping
/// trailing zeros: the quotient of two decimals, or `None` on division by zero
/// or overflow.
#[verifier::external_body]
fn decimal_div(am: i128, ascale: u32, bm: i128, bscale: u32) -> (r: Option<(i128, u32)>)
    requires
        normalized(am as int, ascale as nat),
        normalized(bm as int, bscale as nat),
    ensures
        r is Some <==> decimal_quotient(
            decimal_value(am as int, ascale as nat),
            decimal_value(bm as int, bscale as nat),
        ) is Some,
        bm == 0 ==> r is None,
        r matches Some(q) ==> normalized(q.0 as int, q.1 as nat) && decimal_quotient(
            decimal_value(am as int, ascale as nat),
            decimal_value(bm as int, bscale as nat),
        ) == Some(decimal_value(q.0 as int, q.1 as nat)),
{
    let a = Decimal::from_i128_with_scale(am, ascale);
    let b = Decimal::from_i128_with_scale(bm, bscale);
    a.checked_div(b).map(|q| {
        let q = q.normalize();
        (q.mantissa(), q.scale())
    })
}

/// Zero is a decimal.
pub proof fn lemma_fits_zero()
    ensures
        fits(0),
{
    assert(decimal_value(0, 0) == 0);
}

proof fn lemma_pow10_positive(n: nat)
    ensures
        pow10(n) >= 1,
    decreases n,
{
    if n > 0 {
        lemma_pow10_positive((n - 1) as nat);
    }
}

proof fn lemma_pow10_add(a: nat, b: nat)
    ensures
        pow10(a + b) == pow10(a) * pow10(b),
    decreases b,
{
    if b > 0 {
        lemma_pow10_add(a, (b - 1) as nat);
        assert(pow10(a + b) == 10 * pow10((a + b - 1) as nat));
        assert(pow10(a) * pow10(b) == pow10(a) * (10 * pow10((b - 1) as nat)));
        assert(pow10(a) * (10 * pow10((b - 1) as nat)) == 10 * (pow10(a) * pow10((b - 1) as nat)))
            by (nonlinear_arith);
    }
}

proof fn lemma_pow10_28()
    ensures
        pow10(28) == 10_000_000_000_000_000_000_000_000_000,
{
    reveal_with_fuel(pow10, 29);
}

proof fn lemma_pow10_bounded(n: nat)
    requires
        n <= 28,
    ensures
        1 <= pow10(n) <= 10_000_000_000_000_000_000_000_000_000,
{
    lemma_pow10_add(n, (28 - n) as nat);
    lemma_pow10_positive(n);
    lemma_pow10_positive((28 - n) as nat);
    lemma_pow10_28();
    assert(pow10(n) <= pow10(n) * pow10((28 - n) as nat)) by (nonlinear_arith)
        requires
            pow10((28 - n) as nat) >= 1,
            pow10(n) >= 1,
    ;
}

proof fn lemma_mod10_neg(a: int)
    ensures
        (a % 10 == 0) == ((-a) % 10 == 0),
{
    lemma_fundamental_div_mod(a, 10);
    lemma_fundamental_div_mod(-a, 10);
    if a % 10 == 0 {
        assert(-a == (-(a / 10)) * 10);
        lemma_mod_multiples_basic(-(a / 10), 10);
    }
    if (-a) % 10 == 0 {
        assert(a == (-((-a) / 10)) * 10);
        lemma_mod_multiples_basic(-((-a) / 10), 10);
    }
}

/// A mantissa without a trailing zero cannot carry an extra factor of ten.
proof fn lemma_no_extra_factor(m: int, q: int, k: nat, j: nat)
    requires
        j >= 1,
        m % 10 != 0,
    ensures
        m * pow10(k) != q * (pow10(k) * pow10(j)),
{
    lemma_pow10_positive(k);
    if m * pow10(k) == q * (pow10(k) * pow10(j)) {
        let a = pow10(k);
        let pj = pow10(j);
        assert(m == q * pj) by (nonlinear_arith)
            requires
                m * a == q * (a * pj),
                a >= 1,
        ;
        assert(pj == 10 * pow10((j - 1) as nat));
        assert(m == (q * pow10((j - 1) as nat)) * 10) by (nonlinear_arith)
            requires
                m == q * pj,
                pj == 10 * pow10((j - 1) as nat),
        ;
        lemma_mod_multiples_basic(q * pow10((j - 1) as nat), 10);
    }
}

/// Two representations without trailing zeros of one value are the same.
proof fn lemma_unique(m1: int, s1: nat, m2: int, s2: nat)
    requires
        s1 <= 28,
        s2 <= 28,
        s1 == 0 || m1 % 10 != 0,
        s2 == 0 || m2 % 10 != 0,
        decimal_value(m1, s1) == decimal_value(m2, s2),
    ensures
        m1 == m2,
        s1 == s2,
{
    if s1 < s2 {
        lemma_pow10_add((28 - s2) as nat, (s2 - s1) as nat);
        assert(m1 * pow10((28 - s1) as nat) == m1 * (pow10((28 - s2) as nat) * pow10((s2 - s1) as nat)));
        lemma_no_extra_factor(m2, m1, (28 - s2) as nat, (s2 - s1) as nat);
    } else if s2 < s1 {
        lemma_pow10_add((28 - s1) as nat, (s1 - s2) as nat);
        assert(m2 * pow10((28 - s2) as nat) == m2 * (pow10((28 - s1) as nat) * pow10((s1 - s2) as nat)));
        lemma_no_extra_factor(m1, m2, (28 - s1) as nat, (s1 - s2) as nat);
    } else {
        lemma_pow10_positive((28 - s1) as nat);
        let p = pow10((28 - s1) as nat);
        assert(m1 == m2) by (nonlinear_arith)
            requires
                m1 * p == m2 * p,
                p >= 1,
        ;
    }
}

/// A value written without trailing zeros fits exactly when its mantissa does.
proof fn lemma_fits_normalized(m: int, s: nat)
    requires
        s <= 28,
        s == 0 || m % 10 != 0,
    ensures
        fits(decimal_value(m, s)) == mantissa_ok(m),
{
    if mantissa_ok(m) {
        assert(decimal_value(m, s) == decimal_value(m, s));
    }
    if fits(decimal_value(m, s)) {
        let (m2, s2) = choose|m2: int, s2: nat|
            s2 <= 28 && mantissa_ok(m2) && #[trigger] decimal_value(m2, s2) == decimal_value(m, s);
        if s2 < s {
            lemma_pow10_add((28 - s) as nat, (s - s2) as nat);
            assert(m2 * pow10((28 - s2) as nat) == m2 * (pow10((28 - s) as nat) * pow10((s - s2) as nat)));
            lemma_no_extra_factor(m, m2, (28 - s) as nat, (s - s2) as nat);
        } else {
            lemma_pow10_add((28 - s2) as nat, (s2 - s) as nat);
            lemma_pow10_positive((28 - s2) as nat);
            lemma_pow10_positive((s2 - s) as nat);
            let a = pow10((28 - s2) as nat);
            let b = pow10((s2 - s) as nat);
            assert(m * pow10((28 - s) as nat) == m * (a * b));
            assert(m2 == m * b) by (nonlinear_arith)
                requires
                    m2 * a == m * (a * b),
                    a >= 1,
            ;
            assert(-MANTISSA_LIMIT < m < MANTISSA_LIMIT) by (nonlinear_arith)
                requires
                    m2 == m * b,
                    b >= 1,
                    -MANTISSA_LIMIT < m2 < MANTISSA_LIMIT,
            ;
        }
    }
}

/// The value of a mantissa carried to a larger scale.
proof fn lemma_rescale(m: int, s: nat, d: nat)
    requires
        s + d <= 28,
    ensures
        decimal_value(m, s) == decimal_value(m * pow10(d), s + d),
{
    lemma_pow10_add((28 - s - d) as nat, d);
    assert(m * pow10((28 - s) as nat) == m * (pow10((28 - s - d) as nat) * pow10(d)));
    assert(m * (pow10((28 - s - d) as nat) * pow10(d)) == (m * pow10(d)) * pow10((28 - s - d) as nat))
        by (nonlinear_arith);
}

fn pow10_exec(d: u32) -> (r: i128)
    requires
        d <= 28,
    ensures
        r == pow10(d as nat),
        1 <= r <= 10_000_000_000_000_000_000_000_000_000,
{
    let mut r: i128 = 1;
    let mut i: u32 = 0;
    while i < d
        invariant
            i <= d <= 28,
            r == pow10(i as nat),
        decreases d - i,
    {
        proof {
            lemma_pow10_bounded((i + 1) as nat);
        }
        r = r * 10;
        i = i + 1;
    }
    proof {
        lemma_pow10_bounded(d as nat);
    }
    r
}

/// A decimal number: a mantissa below 2^96 in magnitude, at a scale of at most 28
/// decimal places, kept without trailing zeros so that equal values are equal.
#[derive(Clone, Copy, Debug, PartialEq, Eq, Hash, Structural)]
pub struct Dec {
    mantissa: i128,
    scale: u32,
}

impl View for Dec {
    type V = int;

    open spec fn view(&self) -> int {
        self.value()
    }
}

impl ExactKey for Dec {
    fn same_key(&self, o: &Self) -> (r: bool) {
        proof {
            use_type_invariant(self);
            use_type_invariant(o);
            if self.value() == o.value() {
                lemma_unique(self.mantissa as int, self.scale as nat, o.mantissa as int, o.scale as nat);
            }
        }
        self.mantissa == o.mantissa && self.scale == o.scale
    }

    fn copy_key(&self) -> (r: Self) {
        *self
    }
}

impl Dec {
    #[verifier::type_invariant]
    spec fn inv(&self) -> bool {
        normalized(self.mantissa as int, self.scale as nat)
    }

    /// The value, counted in units of 10^-28.
    pub closed spec fn value(self) -> int {
        decimal_value(self.mantissa as int, self.scale as nat)
    }

    pub closed spec fn mantissa_spec(self) -> i128 {
        self.mantissa
    }

    pub closed spec fn scale_spec(self) -> u32 {
        self.scale
    }

    pub fn zero() -> (r: Dec)
        ensures
            r.value() == 0,
    {
        Dec { mantissa: 0, scale: 0 }
    }

    /// The mantissa, without trailing zeros.
    pub fn mantissa(&self) -> (r: i128)
        ensures
            r == self.mantissa_spec(),
            self.value() == decimal_value(r as int, self.scale_spec() as nat),
    {
        self.mantissa
    }

    /// The number of decimal places.
    pub fn scale(&self) -> (r: u32)
        ensures
            r == self.scale_spec(),
            r <= MAX_SCALE,
    {
        proof {
            use_type_invariant(self);
        }
        self.scale
    }

    /// The value `m * 10^-s`, with trailing zeros stripped; `None` when it does not fit.
    fn from_scaled(m: i128, s: u32) -> (r: Option<Dec>)
        requires
            s <= 28,
            m > i128::MIN,
        ensures
            r is Some == fits(decimal_value(m as int, s as nat)),
            r matches Some(d) ==> d.value() == decimal_value(m as int, s as nat),
    {
        let negative = m < 0;
        let mut a: i128 = if negative { -m } else { m };
        let mut sc: u32 = s;
        while sc > 0 && a % 10 == 0
            invariant
                a >= 0,
                sc <= s <= 28,
                decimal_value(if negative { -(a as int) } else { a as int }, sc as nat) == decimal_value(m as int, s as nat),
            decreases sc,
        {
            proof {
                lemma_fundamental_div_mod(a as int, 10);
                let q = a as int / 10;
                let p1 = pow10((28 - sc + 1) as nat);
                let p0 = pow10((28 - sc) as nat);
                assert(p1 == 10 * p0);
                assert(q * p1 == (a as int) * p0) by (nonlinear_arith)
                    requires
                        a == 10 * q,
                        p1 == 10 * p0,
                ;
                assert((-q) * p1 == (-(a as int)) * p0) by (nonlinear_arith)
                    requires
                        q * p1 == (a as int) * p0,
                ;
            }
            a = a / 10;
            sc = sc - 1;
        }
        let mm: i128 = if negative { -a } else { a };
        proof {
            lemma_mod10_neg(a as int);
            lemma_fits_normalized(mm as int, sc as nat);
        }
        if mm <= -MANTISSA_LIMIT || mm >= MANTISSA_LIMIT {
            None
        } else {
            Some(Dec { mantissa: mm, scale: sc })
        }
    }

    /// The value `mantissa * 10^-scale`.
    pub fn from_parts(mantissa: i64, scale: u32) -> (r: Dec)
        requires
            scale <= 28,
        ensures
            r.value() == decimal_value(mantissa as int, scale as nat),
    {
        proof {
            lemma_fits_normalized(0, 0);
            assert(mantissa_ok(mantissa as int));
            assert(decimal_value(mantissa as int, scale as nat) == decimal_value(mantissa as int, scale as nat));
        }
        Dec::from_scaled(mantissa as i128, scale).unwrap()
    }

    /// The value `mantissa * 10^-scale`; `None` when the mantissa reaches 2^96 in
    /// magnitude or the scale exceeds 28.
    pub fn try_from_parts(mantissa: i128, scale: u32) -> (r: Option<Dec>)
        ensures
            r is Some <==> mantissa_ok(mantissa as int) && scale <= 28,
            r matches Some(d) ==> d.value() == decimal_value(mantissa as int, scale as nat),
    {
        if scale > 28 || mantissa <= -MANTISSA_LIMIT || mantissa >= MANTISSA_LIMIT {
            return None;
        }
        proof {
            assert(decimal_value(mantissa as int, scale as nat) == decimal_value(mantissa as int, scale as nat));
        }
        Dec::from_scaled(mantissa, scale)
    }

    pub fn is_zero(&self) -> (r: bool)
        ensures
            r == (self.value() == 0),
    {
        proof {
            use_type_invariant(self);
            lemma_pow10_positive((28 - self.scale) as nat);
            assert(self.value() == 0 <==> self.mantissa == 0) by (nonlinear_arith)
                requires
                    self.value() == self.mantissa * pow10((28 - self.scale) as nat),
                    pow10((28 - self.scale) as nat) >= 1,
            ;
        }
        self.mantissa == 0
    }

    pub fn neg(self) -> (r: Dec)
        ensures
            r.value() == -self.value(),
    {
        proof {
            use_type_invariant(self);
            lemma_mod10_neg(self.mantissa as int);
            assert(decimal_value(-self.mantissa, self.scale as nat) == -self.value()) by (nonlinear_arith);
        }
        Dec { mantissa: -self.mantissa, scale: self.scale }
    }

    /// Whether `self` is smaller than `o`.
    pub fn less_than(&self, o: &Dec) -> (r: bool)
        ensures
            r == (self.value() < o.value()),
    {
        proof {
            use_type_invariant(self);
            use_type_invariant(o);
        }
        if self.scale == o.scale {
            proof {
                lemma_pow10_positive((28 - self.scale) as nat);
                let p = pow10((28 - self.scale) as nat);
                assert((self.mantissa < o.mantissa) == (self.mantissa * p < o.mantissa * p)) by (nonlinear_arith)
                    requires
                        p >= 1,
                ;
            }
            return self.mantissa < o.mantissa;
        }
        let lo_is_self = self.scale < o.scale;
        let (lo, hi) = if lo_is_self { (*self, *o) } else { (*o, *self) };
        let d = hi.scale - lo.scale;
        let f = pow10_exec(d);
        proof {
            lemma_rescale(lo.mantissa as int, lo.scale as nat, d as nat);
            lemma_pow10_positive((28 - hi.scale) as nat);
        }
        let p = Ghost(pow10((28 - hi.scale) as nat));
        if lo.mantissa > i128::MAX / f || lo.mantissa < -(i128::MAX / f) {
            proof {
                assert(lo.mantissa * f > MANTISSA_LIMIT || lo.mantissa * f < -MANTISSA_LIMIT) by (nonlinear_arith)
                    requires
                        lo.mantissa > (i128::MAX as int) / (f as int) || lo.mantissa < -((i128::MAX as int) / (f as int)),
                        f >= 1,
                ;
                assert((lo.mantissa * f < hi.mantissa) == (lo.mantissa * f * p@ < hi.mantissa * p@)) by (nonlinear_arith)
                    requires
                        p@ >= 1,
                ;
            }
            proof {
                assert((lo.mantissa < 0) == (lo.mantissa * f < 0)) by (nonlinear_arith)
                    requires
                        f >= 1,
                ;
                assert(mantissa_ok(hi.mantissa as int));
                assert((hi.mantissa < lo.mantissa * f) == (hi.mantissa * p@ < lo.mantissa * f * p@)) by (nonlinear_arith)
                    requires
                        p@ >= 1,
                ;
            }
            let lo_smaller = lo.mantissa < 0;
            return if lo_is_self { lo_smaller } else { !lo_smaller };
        }
        proof {
            assert(-(i128::MAX as int) <= lo.mantissa * f <= i128::MAX) by (nonlinear_arith)
                requires
                    -((i128::MAX as int) / (f as int)) <= lo.mantissa <= (i128::MAX as int) / (f as int),
                    f >= 1,
            ;
            assert((lo.mantissa * f < hi.mantissa) == (lo.mantissa * f * p@ < hi.mantissa * p@)) by (nonlinear_arith)
                requires
                    p@ >= 1,
            ;
            assert((hi.mantissa < lo.mantissa * f) == (hi.mantissa * p@ < lo.mantissa * f * p@)) by (nonlinear_arith)
                requires
                    p@ >= 1,
            ;
        }
        let aligned: i128 = lo.mantissa * f;
        if lo_is_self {
            aligned < hi.mantissa
        } else {
            hi.mantissa < aligned
        }
    }

    /// The exact sum; `None` when it does not fit.
    pub fn checked_add(self, o: Dec) -> (r: Option<Dec>)
        ensures
            r.is_some() == fits(self.value() + o.value()),
            r matches Some(d) ==> d.value() == self.value() + o.value(),
    {
        proof {
            use_type_invariant(self);
            use_type_invariant(o);
        }
        if self.scale == o.scale {
            proof {
                let p = pow10((28 - self.scale) as nat);
                assert((self.mantissa + o.mantissa) * p == self.mantissa * p + o.mantissa * p) by (nonlinear_arith);
            }
            return Dec::from_scaled(self.mantissa + o.mantissa, self.scale);
        }
        let (lo, hi) = if self.scale < o.scale { (self, o) } else { (o, self) };
        let d = hi.scale - lo.scale;
        let f = pow10_exec(d);
        let ghost s = lo.mantissa * f + hi.mantissa;
        proof {
            lemma_rescale(lo.mantissa as int, lo.scale as nat, d as nat);
            let p = pow10((28 - hi.scale) as nat);
            assert(decimal_value(lo.mantissa * f, hi.scale as nat) == (lo.mantissa * f) * p);
            assert(s * p == (lo.mantissa * f) * p + hi.mantissa * p) by (nonlinear_arith)
                requires
                    s == lo.mantissa * f + hi.mantissa,
            ;
            assert(decimal_value(s, hi.scale as nat) == self.value() + o.value());
            assert(f == 10 * pow10((d - 1) as nat));
            assert(s == 10 * (lo.mantissa * pow10((d - 1) as nat)) + hi.mantissa) by (nonlinear_arith)
                requires
                    s == lo.mantissa * f + hi.mantissa,
                    f == 10 * pow10((d - 1) as nat),
            ;
            lemma_mod_multiples_vanish(lo.mantissa * pow10((d - 1) as nat), hi.mantissa as int, 10);
            lemma_fits_normalized(s, hi.scale as nat);
        }
        if lo.mantissa > i128::MAX / f || lo.mantissa < -(i128::MAX / f) {
            proof {
                assert(lo.mantissa * f > i128::MAX || lo.mantissa * f < -(i128::MAX as int)) by (nonlinear_arith)
                    requires
                        lo.mantissa > (i128::MAX as int) / (f as int) || lo.mantissa < -((i128::MAX as int) / (f as int)),
                        f >= 1,
                ;
            }
            return None;
        }
        proof {
            assert(-(i128::MAX as int) <= lo.mantissa * f <= i128::MAX) by (nonlinear_arith)
                requires
                    -((i128::MAX as int) / (f as int)) <= lo.mantissa <= (i128::MAX as int) / (f as int),
                    f >= 1,
            ;
        }
        let aligned: i128 = lo.mantissa * f;
        if (hi.mantissa > 0 && aligned > i128::MAX - hi.mantissa) || (hi.mantissa < 0 && aligned
            < i128::MIN + 1 - hi.mantissa) {
            return None;
        }
        let sum: i128 = aligned + hi.mantissa;
        if sum <= -MANTISSA_LIMIT || sum >= MANTISSA_LIMIT {
            return None;
        }
        Some(Dec { mantissa: sum, scale: hi.scale })
    }

    /// The exact difference; `None` when it does not fit.
    pub fn checked_sub(self, o: Dec) -> (r: Option<Dec>)
        ensures
            r.is_some() == fits(self.value() - o.value()),
            r matches Some(d) ==> d.value() == self.value() - o.value(),
    {
        self.checked_add(o.neg())
    }

    /// The decimal product, as `rust_decimal` computes it.
    pub fn checked_mul(self, o: Dec) -> (r: Option<Dec>)
        ensures
            r is Some <==> decimal_product(self.value(), o.value()) is Some,
            r matches Some(p) ==> decimal_product(self.value(), o.value()) == Some(p.value()),
            self.value() >= 0 && o.value() >= 0 ==> (r matches Some(p) ==> p.value() >= 0),
    {
        proof {
            use_type_invariant(self);
            use_type_invariant(o);
            lemma_pow10_positive((28 - self.scale) as nat);
            lemma_pow10_positive((28 - o.scale) as nat);
            assert(self.value() >= 0 ==> self.mantissa >= 0) by (nonlinear_arith)
                requires
                    self.value() == self.mantissa * pow10((28 - self.scale) as nat),
                    pow10((28 - self.scale) as nat) >= 1,
            ;
            assert(o.value() >= 0 ==> o.mantissa >= 0) by (nonlinear_arith)
                requires
                    o.value() == o.mantissa * pow10((28 - o.scale) as nat),
                    pow10((28 - o.scale) as nat) >= 1,
            ;
        }
        match decimal_mul(self.mantissa, self.scale, o.mantissa, o.scale) {
            Some((m, s)) => {
                proof {
                    lemma_pow10_positive((28 - s) as nat);
                    assert(m >= 0 ==> decimal_value(m as int, s as nat) >= 0) by (nonlinear_arith)
                        requires
                            decimal_value(m as int, s as nat) == m * pow10((28 - s) as nat),
                            pow10((28 - s) as nat) >= 1,
                    ;
                }
                Some(Dec { mantissa: m, scale: s })
            },
            None => None,
        }
    }

    /// The decimal quotient, as `rust_decimal` computes it; `None` for a zero divisor.
    pub fn checked_div(self, o: Dec) -> (r: Option<Dec>)
        ensures
            r is Some <==> decimal_quotient(self.value(), o.value()) is Some,
            o.value() == 0 ==> r is None,
            r matches Some(q) ==> decimal_quotient(self.value(), o.value()) == Some(q.value()),
    {
        proof {
            use_type_invariant(self);
            use_type_invariant(o);
            lemma_pow10_positive((28 - o.scale) as nat);
            assert(o.value() == 0 ==> o.mantissa == 0) by (nonlinear_arith)
                requires
                    o.value() == o.mantissa * pow10((28 - o.scale) as nat),
                    pow10((28 - o.scale) as nat) >= 1,
            ;
        }
        match decimal_div(self.mantissa, self.scale, o.mantissa, o.scale) {
            Some((m, s)) => Some(Dec { mantissa: m, scale: s }),
            None => None,
        }
    }
}

} // verus!
