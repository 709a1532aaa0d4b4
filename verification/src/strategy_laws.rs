//! What holds of the strategies whose signal source is part of this library.

use crate::account::{BuySellIndicator, Ledger};
use crate::backtest::{state_after, trace_of};
use crate::data::BinanceKline;
use crate::decimal::Decimal;
use crate::indicators::sma::{rolled, SMAModel};
use crate::indicators::sma2::{SMA2Model, Sma2Model};
use crate::indicators::Action;
use crate::calendar::same_month;
use crate::strategies::{
    dca_advance, dca_answer, hodl_advance, hodl_answer, hodl_backtest, sma2_advance, sma_advance,
    whole_fund,
};
use crate::traders::{StakeSize, TradingFee};
use vstd::prelude::*;

verus! {

/// Whether the signals say: buy at the first bar, nothing at the others.
pub open spec fn buys_first_only(trace: Seq<Seq<Action>>) -> bool {
    &&& trace.len() > 0
    &&& trace[0] == seq![Action::Buy(1)]
    &&& forall|i: int| 1 <= i < trace.len() ==> #[trigger] trace[i] == seq![Action::NoSignal]
}

/// The buy-and-hold source buys at the first bar and answers every other bar
/// with no signal.
pub proof fn law_hodl_buys_first_only(bars: Seq<BinanceKline>)
    requires
        bars.len() > 0,
    ensures
        buys_first_only(trace_of(false, bars, hodl_advance(), hodl_answer())),
{
    let trace = trace_of(false, bars, hodl_advance(), hodl_answer());
    assert(bars.take(0).len() == 0);
    assert(trace[0] == seq![Action::Buy(1)]);
    assert forall|i: int| 1 <= i < trace.len() implies #[trigger] trace[i] == seq![
        Action::NoSignal,
    ] by {
        assert(bars.take(i).len() == i);
        assert(state_after(false, bars.take(i), hodl_advance()));
    }
}

/// A run on signals that buy at the first bar only, read in the first slot,
/// records one trade: the buy at the start of the first bar, at its closing
/// price, of what the stake gives for the fund at the start. It values the
/// account once for each bar.
pub proof fn law_one_buy_is_one_trade(
    ledger: Ledger,
    bars: Seq<BinanceKline>,
    trace: Seq<Seq<Action>>,
    stake_size: StakeSize,
    trading_fee: TradingFee,
)
    requires
        trace.len() == bars.len(),
        buys_first_only(trace),
        ledger.run(bars, trace, 0, stake_size, trading_fee) is Ok,
    ensures
        ({
            let after = ledger.run(bars, trace, 0, stake_size, trading_fee)->Ok_0;
            let bought = stake_size.quantity_for(ledger.available_fund, bars[0].close@);
            &&& after.trades.len() == ledger.trades.len() + 1
            &&& after.trades.last().buy_sell_indicator == BuySellIndicator::Buy
            &&& after.trades.last().timestamp == bars[0].start_time
            &&& after.trades.last().price == bars[0].close@
            &&& bought is Some
            &&& after.trades.last().quantity == bought->Some_0@
            &&& after.position.quantity == ledger.position.quantity + bought->Some_0@
            &&& after.valuations.len() == ledger.valuations.len() + bars.len()
        }),
    decreases bars.len(),
{
    if bars.len() == 1 {
        assert(bars.drop_last().len() == 0);
        assert(bars.last() == bars[0]);
        assert(trace.last() == trace[0]);
    } else {
        let earlier = bars.drop_last();
        let answers = trace.drop_last();
        assert(buys_first_only(answers)) by {
            assert(answers[0] == trace[0]);
            assert forall|i: int| 1 <= i < answers.len() implies #[trigger] answers[i] == seq![
                Action::NoSignal,
            ] by {
                assert(answers[i] == trace[i]);
            }
        }
        assert(earlier[0] == bars[0]);
        law_one_buy_is_one_trade(ledger, earlier, answers, stake_size, trading_fee);
        assert(trace.last() == trace[trace.len() - 1]);
    }
}

/// Buy and hold: a run of the strategy that succeeds has bought once, at the
/// start of the first bar and at its closing price, with the whole starting
/// fund, and has valued the account once for each bar after the seed.
pub proof fn law_hodl_trades_once(bars: Seq<BinanceKline>, trading_fee: TradingFee)
    requires
        hodl_backtest(bars, trading_fee) is Ok,
    ensures
        ({
            let after = hodl_backtest(bars, trading_fee)->Ok_0;
            let bought = whole_fund().quantity_for(
                Ledger::at_start(bars).available_fund,
                bars[0].close@,
            );
            &&& bars.len() > 0
            &&& after.trades.len() == 1
            &&& after.trades[0].buy_sell_indicator == BuySellIndicator::Buy
            &&& after.trades[0].timestamp == bars[0].start_time
            &&& after.trades[0].price == bars[0].close@
            &&& bought is Some
            &&& after.position.quantity == bought->Some_0@
            &&& after.position.cost == bars[0].close@
            &&& after.valuations.len() == 1 + bars.len()
            &&& after.valuations.last().realised_pnl == 0
        }),
{
    let start = Ledger::at_start(bars);
    let trace = trace_of(false, bars, hodl_advance(), hodl_answer());
    law_hodl_buys_first_only(bars);
    law_one_buy_is_one_trade(start, bars, trace, whole_fund(), trading_fee);
    lemma_holding_keeps_cost(start, bars, trace, whole_fund(), trading_fee);
}

/// A run on signals that buy at the first bar only, from a ledger that holds
/// nothing, leaves the closing price of the first bar as cost, and realises
/// no profit.
proof fn lemma_holding_keeps_cost(
    ledger: Ledger,
    bars: Seq<BinanceKline>,
    trace: Seq<Seq<Action>>,
    stake_size: StakeSize,
    trading_fee: TradingFee,
)
    requires
        trace.len() == bars.len(),
        buys_first_only(trace),
        ledger.position.quantity == 0,
        ledger.valuations.len() > 0,
        ledger.run(bars, trace, 0, stake_size, trading_fee) is Ok,
    ensures
        ({
            let after = ledger.run(bars, trace, 0, stake_size, trading_fee)->Ok_0;
            &&& after.position.cost == bars[0].close@
            &&& after.valuations.len() > 0
            &&& after.valuations.last().realised_pnl == ledger.valuations.last().realised_pnl
        }),
    decreases bars.len(),
{
    if bars.len() == 1 {
        assert(bars.drop_last().len() == 0);
        assert(bars.last() == bars[0]);
        assert(trace.last() == trace[0]);
        let bought = stake_size.quantity_for(ledger.available_fund, bars[0].close@)->Some_0@;
        assert(0 * ledger.position.cost + bought * bars[0].close@ == bars[0].close@ * (0 + bought))
            by (nonlinear_arith);
        crate::decimal::lemma_trunc_div_exact(bars[0].close@, bought);
    } else {
        let earlier = bars.drop_last();
        let answers = trace.drop_last();
        assert(buys_first_only(answers)) by {
            assert(answers[0] == trace[0]);
            assert forall|i: int| 1 <= i < answers.len() implies #[trigger] answers[i] == seq![
                Action::NoSignal,
            ] by {
                assert(answers[i] == trace[i]);
            }
        }
        assert(earlier[0] == bars[0]);
        lemma_holding_keeps_cost(ledger, earlier, answers, stake_size, trading_fee);
        assert(trace.last() == trace[trace.len() - 1]);
    }
}

/// Monthly buying: the source signals a buy at the first bar and at every
/// bar that starts in another calendar month than the bar before it, and
/// nothing at the other bars.
pub proof fn law_dca_buys_monthly(bars: Seq<BinanceKline>, i: int)
    requires
        0 <= i < bars.len(),
    ensures
        trace_of(None, bars, dca_advance(), dca_answer())[i] == (if i == 0 || !same_month(
            bars[i].start_time,
            bars[i - 1].start_time,
        ) {
            seq![Action::Buy(1)]
        } else {
            seq![Action::NoSignal]
        }),
{
    let seen = bars.take(i);
    if i == 0 {
        assert(seen.len() == 0);
    } else {
        assert(seen.len() == i);
        assert(seen.last() == bars[i - 1]);
        assert(state_after(None::<i64>, seen, dca_advance()) == Some(bars[i - 1].start_time));
    }
}

/// The closing prices of the bars, in their order.
pub open spec fn closes(bars: Seq<BinanceKline>) -> Seq<Decimal> {
    Seq::new(bars.len(), |i: int| bars[i].close)
}

/// The last `n` of the prices, or all of them where there are fewer.
pub open spec fn latest(prices: Seq<Decimal>, n: nat) -> Seq<Decimal> {
    if prices.len() <= n {
        prices
    } else {
        prices.subrange(prices.len() - n, prices.len() as int)
    }
}

/// The closing prices of the bars behind those of one bar more.
proof fn lemma_closes_push(bars: Seq<BinanceKline>)
    requires
        bars.len() > 0,
    ensures
        closes(bars) == closes(bars.drop_last()).push(bars.last().close),
{
    assert(closes(bars) =~= closes(bars.drop_last()).push(bars.last().close));
}

/// Means over full windows: after any bars, a window that started out as `n`
/// copies of the first price holds the latest `n` of those copies and the
/// closing prices seen since, oldest first.
pub proof fn law_sma_windows_hold_the_latest(
    short_window: nat,
    long_window: nat,
    first: Decimal,
    bars: Seq<BinanceKline>,
)
    requires
        short_window > 0,
        long_window > 0,
    ensures
        ({
            let after = state_after(
                SMAModel::seeded(short_window, long_window, first),
                bars,
                sma_advance(),
            );
            &&& after.short == latest(
                Seq::new(short_window, |i: int| first) + closes(bars),
                short_window,
            )
            &&& after.long == latest(
                Seq::new(long_window, |i: int| first) + closes(bars),
                long_window,
            )
            &&& after.last_timestamp == (if bars.len() == 0 {
                None
            } else {
                Some(bars.last().start_time)
            })
        }),
    decreases bars.len(),
{
    if bars.len() == 0 {
        assert(closes(bars) =~= Seq::<Decimal>::empty());
        assert(Seq::new(short_window, |i: int| first) + closes(bars) =~= Seq::new(
            short_window,
            |i: int| first,
        ));
        assert(Seq::new(long_window, |i: int| first) + closes(bars) =~= Seq::new(
            long_window,
            |i: int| first,
        ));
    } else {
        let earlier = bars.drop_last();
        let price = bars.last().close;
        law_sma_windows_hold_the_latest(short_window, long_window, first, earlier);
        lemma_closes_push(bars);
        lemma_latest_rolls(
            Seq::new(short_window, |i: int| first) + closes(earlier),
            short_window,
            price,
        );
        lemma_latest_rolls(
            Seq::new(long_window, |i: int| first) + closes(earlier),
            long_window,
            price,
        );
        assert((Seq::new(short_window, |i: int| first) + closes(earlier)).push(price) =~= Seq::new(
            short_window,
            |i: int| first,
        ) + closes(bars));
        assert((Seq::new(long_window, |i: int| first) + closes(earlier)).push(price) =~= Seq::new(
            long_window,
            |i: int| first,
        ) + closes(bars));
    }
}

/// The latest `n` of the prices and one more are the latest `n` before,
/// without the oldest and with the new one, where there were `n` at least.
proof fn lemma_latest_rolls(prices: Seq<Decimal>, n: nat, price: Decimal)
    requires
        0 < n <= prices.len(),
    ensures
        latest(prices.push(price), n) == rolled(latest(prices, n), price),
{
    assert(latest(prices.push(price), n) =~= rolled(latest(prices, n), price));
}

/// Rolling means: after any bars, a rolling mean over `n` prices that
/// started out with the first price holds the latest `n` of that price and
/// the closing prices seen since, oldest first; none for a window of the
/// width zero.
pub proof fn law_sma2_windows_hold_the_latest(
    short_window: nat,
    long_window: nat,
    first: Decimal,
    bars: Seq<BinanceKline>,
)
    ensures
        ({
            let after = state_after(
                SMA2Model::seeded(short_window, long_window, first),
                bars,
                sma2_advance(),
            );
            &&& after.short.window_size == short_window
            &&& after.long.window_size == long_window
            &&& after.short.prices == latest(seq![first] + closes(bars), short_window)
            &&& after.long.prices == latest(seq![first] + closes(bars), long_window)
            &&& after.last_timestamp == (if bars.len() == 0 {
                None
            } else {
                Some(bars.last().start_time)
            })
        }),
    decreases bars.len(),
{
    if bars.len() == 0 {
        assert(closes(bars) =~= Seq::<Decimal>::empty());
        assert(seq![first] + closes(bars) =~= seq![first]);
        assert(latest(seq![first], 0) =~= Seq::<Decimal>::empty());
    } else {
        let earlier = bars.drop_last();
        let price = bars.last().close;
        law_sma2_windows_hold_the_latest(short_window, long_window, first, earlier);
        lemma_closes_push(bars);
        assert((seq![first] + closes(earlier)).push(price) =~= seq![first] + closes(bars));
        lemma_latest_grows(seq![first] + closes(earlier), short_window, price);
        lemma_latest_grows(seq![first] + closes(earlier), long_window, price);
    }
}

/// The latest `n` of the prices and one more are the latest `n` before with
/// the new one, without the oldest where that makes more than `n`.
proof fn lemma_latest_grows(prices: Seq<Decimal>, n: nat, price: Decimal)
    ensures
        latest(prices.push(price), n) == (Sma2Model {
            window_size: n,
            prices: latest(prices, n),
        }).updated(price).prices,
{
    assert(latest(prices.push(price), n) =~= (Sma2Model {
        window_size: n,
        prices: latest(prices, n),
    }).updated(price).prices);
}

} // verus!
