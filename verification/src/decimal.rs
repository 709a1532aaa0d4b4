//! Fixed-point amounts.
//!
//! Every price, quantity, fee and balance of the ledger is a [`Decimal`]: a
//! signed count of raw units, [`SCALE`] of which make one whole unit. Sums and
//! differences are exact. Products and quotients are exact in the integers and
//! then rounded toward zero once. An operation whose result does not fit the
//! raw range returns `None`; none of them wraps or saturates.
//!
//! Amounts are read from text by `Decimal::parse`, which stands with the
//! other readers of text in `data::text`.

use vstd::prelude::*;

verus! {

/// Raw units per whole unit: an amount carries eight decimal places.
pub const SCALE: i64 = 100_000_000;

/// Whether `x` is in the range of raw values that a [`Decimal`] can hold.
pub open spec fn fits(x: int) -> bool {
    i64::MIN <= x <= i64::MAX
}

/// The quotient of `n` by `d`, rounded toward zero.
pub open spec fn trunc_div(n: int, d: int) -> int
    recommends
        d != 0,
{
    if n >= 0 && d > 0 {
        n / d
    } else if n < 0 && d < 0 {
        (-n) / (-d)
    } else if n < 0 {
        -((-n) / d)
    } else {
        -(n / (-d))
    }
}

/// A fixed-point amount: `raw` counts units of `1 / SCALE`.
#[derive(Clone, Copy, Debug, PartialEq, Eq, Structural)]
pub struct Decimal {
    pub raw: i64,
}

impl View for Decimal {
    type V = int;

    /// The amount as its number of raw units.
    open spec fn view(&self) -> int {
        self.raw as int
    }
}

/// The amount of `x` raw units, where there is one.
pub open spec fn narrowed(x: int) -> Option<Decimal> {
    if fits(x) {
        Some(Decimal { raw: x as i64 })
    } else {
        None
    }
}

/// The amount of `n / d` raw units, rounded toward zero, where `d` is not zero
/// and the quotient is representable.
pub open spec fn ratio(n: int, d: int) -> Option<Decimal> {
    if d == 0 {
        None
    } else {
        narrowed(trunc_div(n, d))
    }
}

/// The raw value of the product of two amounts given by their raw values.
pub open spec fn scaled_product(a: int, b: int) -> int {
    trunc_div(a * b, SCALE as int)
}

/// The largest magnitude of a product of two raw values.
pub open spec fn product_limit() -> int {
    0x4000_0000_0000_0000_0000_0000_0000_0000
}

/// A product of two raw values stays well inside the 128-bit range.
pub proof fn lemma_product_bound(a: int, b: int)
    requires
        fits(a),
        fits(b),
    ensures
        -product_limit() < a * b <= product_limit(),
        (a > i64::MIN || b > i64::MIN) ==> a * b <= product_limit() - 0x8000_0000_0000_0000,
{
    let m: int = 0x8000_0000_0000_0000;
    assert(m * m == product_limit()) by (nonlinear_arith)
        requires
            m == 0x8000_0000_0000_0000,
            product_limit() == 0x4000_0000_0000_0000_0000_0000_0000_0000,
    ;
    assert(-m <= a < m && -m <= b < m);
    assert(-(m * m) < a * b <= m * m) by (nonlinear_arith)
        requires
            -m <= a < m,
            -m <= b < m,
            m > 0,
    ;
    if a > i64::MIN || b > i64::MIN {
        assert(a * b <= m * m - m) by (nonlinear_arith)
            requires
                -m <= a < m,
                -m <= b < m,
                a > -m || b > -m,
                m > 0,
        ;
    }
}

/// Rounding toward zero loses less than one divisor, on the side of zero.
pub proof fn lemma_trunc_div_error(n: int, d: int)
    requires
        d != 0,
    ensures
        n >= 0 ==> 0 <= n - trunc_div(n, d) * d,
        n <= 0 ==> n - trunc_div(n, d) * d <= 0,
        d > 0 ==> -d < n - trunc_div(n, d) * d < d,
        d < 0 ==> d < n - trunc_div(n, d) * d < -d,
{
    let an: int = if n >= 0 { n } else { -n };
    let ad: int = if d > 0 { d } else { -d };
    let q: int = an / ad;
    assert(an == ad * q + an % ad) by {
        vstd::arithmetic::div_mod::lemma_fundamental_div_mod(an, ad);
    }
    assert(0 <= an % ad < ad) by {
        vstd::arithmetic::div_mod::lemma_mod_bound(an, ad);
    }
    if n >= 0 && d > 0 {
        assert(trunc_div(n, d) == q);
        assert(q * d == ad * q) by (nonlinear_arith)
            requires
                d == ad,
        ;
    } else if n < 0 && d < 0 {
        assert(trunc_div(n, d) == q);
        assert(q * d == -(ad * q)) by (nonlinear_arith)
            requires
                d == -ad,
        ;
    } else if n < 0 {
        assert(trunc_div(n, d) == -q);
        assert((-q) * d == -(ad * q)) by (nonlinear_arith)
            requires
                d == ad,
        ;
    } else {
        assert(trunc_div(n, d) == -q);
        assert((-q) * d == ad * q) by (nonlinear_arith)
            requires
                d == -ad,
        ;
    }
}

/// A quotient that divides exactly is the exact quotient.
pub proof fn lemma_trunc_div_exact(q: int, d: int)
    requires
        d != 0,
    ensures
        trunc_div(q * d, d) == q,
{
    let n = q * d;
    lemma_trunc_div_error(n, d);
    let t = trunc_div(n, d);
    assert(n - t * d == (q - t) * d) by (nonlinear_arith)
        requires
            n == q * d,
    ;
    assert(q - t == 0) by (nonlinear_arith)
        requires
            d != 0,
            d > 0 ==> -d < (q - t) * d < d,
            d < 0 ==> d < (q - t) * d < -d,
    ;
}

/// The amount of `x` raw units, or `None` where `x` is out of range.
pub fn narrow(x: i128) -> (r: Option<Decimal>)
    ensures
        r == narrowed(x as int),
{
    if x < -0x8000_0000_0000_0000 || x > 0x7fff_ffff_ffff_ffff {
        None
    } else {
        Some(Decimal { raw: x as i64 })
    }
}

/// The amount of `n / d` raw units, rounded toward zero; `None` where `d` is
/// zero or the quotient is out of range.
pub fn divide(n: i128, d: i128) -> (r: Option<Decimal>)
    ensures
        r == ratio(n as int, d as int),
{
    match n.checked_div(d) {
        Some(q) => narrow(q),
        None => None,
    }
}

/// `n / SCALE`, rounded toward zero.
pub fn scale_down(n: i128) -> (r: i128)
    ensures
        r == trunc_div(n as int, SCALE as int),
        n >= 0 ==> 0 <= r <= n,
        n <= 0 ==> n <= r <= 0,
{
    proof {
        let m: int = if n >= 0 { n as int } else { -(n as int) };
        assert(0 <= m / (SCALE as int) <= m) by (nonlinear_arith)
            requires
                m >= 0,
                SCALE == 100_000_000,
        ;
    }
    match n.checked_div(SCALE as i128) {
        Some(q) => q,
        None => 0,
    }
}

impl Decimal {
    /// The amount of `raw` raw units.
    pub fn from_raw(raw: i64) -> (r: Decimal)
        ensures
            r@ == raw,
    {
        Decimal { raw }
    }

    /// The amount of `n` whole units, where it is representable.
    pub fn from_int(n: i64) -> (r: Option<Decimal>)
        ensures
            r == narrowed(n * SCALE),
    {
        proof {
            lemma_product_bound(n as int, SCALE as int);
        }
        narrow((n as i128) * (SCALE as i128))
    }

    /// The amount zero.
    pub fn zero() -> (r: Decimal)
        ensures
            r@ == 0,
    {
        Decimal { raw: 0 }
    }

    /// The number of raw units.
    pub fn raw(&self) -> (r: i64)
        ensures
            r == self@,
    {
        self.raw
    }

    /// Whether the amount is greater than zero.
    pub fn is_positive(&self) -> (r: bool)
        ensures
            r == (self@ > 0),
    {
        self.raw > 0
    }

    /// The exact sum, where it is representable.
    pub fn checked_add(&self, other: &Decimal) -> (r: Option<Decimal>)
        ensures
            r == narrowed(self@ + other@),
    {
        narrow((self.raw as i128) + (other.raw as i128))
    }

    /// The exact difference, where it is representable.
    pub fn checked_sub(&self, other: &Decimal) -> (r: Option<Decimal>)
        ensures
            r == narrowed(self@ - other@),
    {
        narrow((self.raw as i128) - (other.raw as i128))
    }

    /// The product, rounded toward zero to a raw unit, where it is
    /// representable.
    pub fn checked_mul(&self, other: &Decimal) -> (r: Option<Decimal>)
        ensures
            r == narrowed(scaled_product(self@, other@)),
    {
        proof {
            lemma_product_bound(self@, other@);
        }
        divide((self.raw as i128) * (other.raw as i128), SCALE as i128)
    }

    /// The quotient, rounded toward zero to a raw unit; `None` where `other`
    /// is zero or the quotient is not representable.
    pub fn checked_div(&self, other: &Decimal) -> (r: Option<Decimal>)
        ensures
            r == ratio(self@ * SCALE, other@),
    {
        proof {
            lemma_product_bound(self@, SCALE as int);
        }
        divide((self.raw as i128) * (SCALE as i128), other.raw as i128)
    }
}

} // verus!
