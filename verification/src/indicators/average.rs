//! Means of prices, and the crossing of two of them.

use crate::decimal::{divide, ratio, Decimal};
use crate::indicators::Action;
use vstd::prelude::*;

verus! {

/// The sum of the prices, in raw units.
pub open spec fn total(prices: Seq<Decimal>) -> int
    decreases prices.len(),
{
    if prices.len() == 0 {
        0
    } else {
        total(prices.drop_last()) + prices.last()@
    }
}

/// The mean of the prices, rounded toward zero to a raw unit; `None` where
/// there is no price.
pub open spec fn mean(prices: Seq<Decimal>) -> Option<Decimal> {
    ratio(total(prices), prices.len() as int)
}

/// Whether the first mean is above the second. A mean that is missing is
/// below every mean that is there.
pub open spec fn above(a: Option<Decimal>, b: Option<Decimal>) -> bool {
    match (a, b) {
        (Some(x), Some(y)) => x@ > y@,
        (Some(_), None) => true,
        _ => false,
    }
}

/// The signal of two means: none within a month; at the first bar of a month
/// a buy where the short mean is above the long one, a sale where it is
/// below, and none where they are level.
pub open spec fn crossover(
    within_month: bool,
    short: Option<Decimal>,
    long: Option<Decimal>,
) -> Action {
    if within_month {
        Action::NoSignal
    } else if above(short, long) {
        Action::Buy(1)
    } else if above(long, short) {
        Action::Sell(1)
    } else {
        Action::NoSignal
    }
}

/// The sum of the prices lies between the least and the greatest raw value,
/// each taken as often as there are prices.
pub proof fn lemma_total_bounds(prices: Seq<Decimal>)
    ensures
        prices.len() * i64::MIN <= total(prices) <= prices.len() * i64::MAX,
    decreases prices.len(),
{
    if prices.len() > 0 {
        lemma_total_bounds(prices.drop_last());
        let n = prices.len() as int;
        assert(prices.drop_last().len() == n - 1);
        assert((n - 1) * i64::MIN + i64::MIN == n * i64::MIN) by (nonlinear_arith);
        assert((n - 1) * i64::MAX + i64::MAX == n * i64::MAX) by (nonlinear_arith);
    }
}

/// The sum of as many prices as a vector can hold is well inside the 128-bit
/// range.
pub proof fn lemma_total_wide(prices: Seq<Decimal>)
    requires
        prices.len() <= usize::MAX,
    ensures
        i128::MIN <= total(prices) + i64::MIN,
        total(prices) + i64::MAX <= i128::MAX,
{
    lemma_total_bounds(prices);
    let n = prices.len() as int;
    assert(n * i64::MIN >= 0xffff_ffff_ffff_ffff * (-0x8000_0000_0000_0000)) by (nonlinear_arith)
        requires
            0 <= n <= 0xffff_ffff_ffff_ffff,
            i64::MIN == -0x8000_0000_0000_0000,
    ;
    assert(n * i64::MAX <= 0xffff_ffff_ffff_ffff * 0x7fff_ffff_ffff_ffff) by (nonlinear_arith)
        requires
            0 <= n <= 0xffff_ffff_ffff_ffff,
            i64::MAX == 0x7fff_ffff_ffff_ffff,
    ;
}

/// The mean of one price or more is representable: it lies between the least
/// and the greatest of them.
pub proof fn lemma_mean_exists(prices: Seq<Decimal>)
    requires
        prices.len() > 0,
    ensures
        mean(prices) is Some,
{
    let n = prices.len() as int;
    let t = total(prices);
    let q = crate::decimal::trunc_div(t, n);
    lemma_total_bounds(prices);
    crate::decimal::lemma_trunc_div_error(t, n);
    if t >= 0 {
        assert(q <= i64::MAX) by (nonlinear_arith)
            requires
                q * n <= t,
                t <= n * i64::MAX,
                n > 0,
        ;
        assert(q >= 0) by (nonlinear_arith)
            requires
                t - q * n < n,
                t >= 0,
                n > 0,
        ;
    } else {
        assert(q >= i64::MIN) by (nonlinear_arith)
            requires
                q * n >= t,
                t >= n * i64::MIN,
                n > 0,
        ;
        assert(q <= 0) by (nonlinear_arith)
            requires
                -n < t - q * n,
                t < 0,
                n > 0,
        ;
    }
}

/// Dropping the oldest price takes it from the sum.
pub proof fn lemma_total_skip(prices: Seq<Decimal>)
    requires
        prices.len() > 0,
    ensures
        total(prices.skip(1)) == total(prices) - prices[0]@,
    decreases prices.len(),
{
    if prices.len() == 1 {
        assert(prices.skip(1) =~= Seq::<Decimal>::empty());
        assert(prices.drop_last() =~= Seq::<Decimal>::empty());
    } else {
        lemma_total_skip(prices.drop_last());
        assert(prices.skip(1).drop_last() =~= prices.drop_last().skip(1));
    }
}

/// Adding a price adds it to the sum.
pub proof fn lemma_total_push(prices: Seq<Decimal>, price: Decimal)
    ensures
        total(prices.push(price)) == total(prices) + price@,
{
    assert(prices.push(price).drop_last() =~= prices);
}

/// The sum of the prices, in raw units.
pub fn sum_of(prices: &Vec<Decimal>) -> (r: i128)
    ensures
        r == total(prices@),
{
    let mut sum: i128 = 0;
    let mut i: usize = 0;
    while i < prices.len()
        invariant
            0 <= i <= prices.len(),
            sum == total(prices@.take(i as int)),
        decreases prices.len() - i,
    {
        proof {
            let seen = prices@.take(i as int);
            lemma_total_wide(seen);
            lemma_total_push(seen, prices@[i as int]);
            assert(seen.push(prices@[i as int]) =~= prices@.take(i + 1));
        }
        sum = sum + (prices[i].raw as i128);
        i = i + 1;
    }
    assert(prices@.take(prices.len() as int) =~= prices@);
    sum
}

/// The mean of the prices; `None` where there is no price.
pub fn mean_of(prices: &Vec<Decimal>) -> (r: Option<Decimal>)
    ensures
        r == mean(prices@),
{
    divide(sum_of(prices), prices.len() as i128)
}

/// Whether the first mean is above the second.
pub fn is_above(a: &Option<Decimal>, b: &Option<Decimal>) -> (r: bool)
    ensures
        r == above(*a, *b),
{
    match (a, b) {
        (Some(x), Some(y)) => x.raw > y.raw,
        (Some(_), None) => true,
        _ => false,
    }
}

/// The signal of two means, at the first bar of a month or within one.
pub fn crossover_action(
    within_month: bool,
    short: &Option<Decimal>,
    long: &Option<Decimal>,
) -> (r: Action)
    ensures
        r == crossover(within_month, *short, *long),
{
    if within_month {
        Action::NoSignal
    } else if is_above(short, long) {
        Action::Buy(1)
    } else if is_above(long, short) {
        Action::Sell(1)
    } else {
        Action::NoSignal
    }
}

} // verus!
