//! What holds of every run, whatever the signal source answers.

use crate::account::{BuySellIndicator, Ledger};
use crate::data::binance::in_time_order;
use crate::data::BinanceKline;
use crate::indicators::Action;
use crate::ledger_laws::{chronological, lemma_net_bought_of_trades, net_bought};
use crate::traders::{chosen, StakeSize, TradingFee};
use vstd::prelude::*;

verus! {

/// The number of sales among the recorded trades.
pub open spec fn sales(ledger: Ledger) -> nat
    decreases ledger.trades.len(),
{
    if ledger.trades.len() == 0 {
        0
    } else {
        let rest = Ledger { trades: ledger.trades.drop_last(), ..ledger };
        match ledger.trades.last().buy_sell_indicator {
            BuySellIndicator::Buy => sales(rest),
            BuySellIndicator::Sell => sales(rest) + 1,
        }
    }
}

/// The number of sales depends on the trades alone.
proof fn lemma_sales_of_trades(a: Ledger, b: Ledger)
    requires
        a.trades == b.trades,
    ensures
        sales(a) == sales(b),
    decreases a.trades.len(),
{
    if a.trades.len() > 0 {
        lemma_sales_of_trades(
            Ledger { trades: a.trades.drop_last(), ..a },
            Ledger { trades: b.trades.drop_last(), ..b },
        );
    }
}

/// One bar: the account is valued once for the bar and once more where the
/// session sold; at most one trade is recorded; the quantity held moves with
/// the net quantity of the trades; what was recorded before stays; and the
/// last valuation is the one at the bar's end.
pub proof fn law_bar_is_recorded(
    ledger: Ledger,
    kline: BinanceKline,
    signals: Seq<Action>,
    slot: int,
    stake_size: StakeSize,
    trading_fee: TradingFee,
)
    requires
        ledger.bar(kline, signals, slot, stake_size, trading_fee) is Ok,
    ensures
        ({
            let after = ledger.bar(kline, signals, slot, stake_size, trading_fee)->Ok_0;
            &&& after.valuations.len() - ledger.valuations.len() == 1 + sales(after) - sales(ledger)
            &&& 0 <= after.trades.len() - ledger.trades.len() <= 1
            &&& after.position.quantity - net_bought(after) == ledger.position.quantity - net_bought(
                ledger,
            )
            &&& after.valuations.subrange(0, ledger.valuations.len() as int) == ledger.valuations
            &&& after.trades.subrange(0, ledger.trades.len() as int) == ledger.trades
            &&& after.valuations.last().timestamp == kline.end_time
            &&& after.valuations.last().unrealised_pnl == after.open_profit(kline.close@)
        }),
{
    let traded = ledger.session(kline, signals, slot, stake_size, trading_fee)->Ok_0;
    let after = ledger.bar(kline, signals, slot, stake_size, trading_fee)->Ok_0;
    let action = chosen(signals, slot)->Ok_0;
    lemma_sales_of_trades(after, traded);
    lemma_net_bought_of_trades(after, traded);
    match action {
        Action::NoSignal => {
            assert(traded == ledger);
        },
        _ => {
            assert(traded.trades.drop_last() =~= ledger.trades);
            let rest = Ledger { trades: traded.trades.drop_last(), ..traded };
            lemma_sales_of_trades(rest, ledger);
            lemma_net_bought_of_trades(rest, ledger);
        },
    }
    assert(after.valuations.subrange(0, ledger.valuations.len() as int) =~= ledger.valuations);
    assert(after.trades.subrange(0, ledger.trades.len() as int) =~= ledger.trades);
}

/// History growth of a run: a run that succeeds has valued the account once
/// for each bar and once more for each sale, has recorded at most one trade
/// for each bar, and has changed or removed nothing that was recorded before.
/// The quantity held has moved with the net quantity of the trades.
pub proof fn law_run_is_recorded(
    ledger: Ledger,
    bars: Seq<BinanceKline>,
    trace: Seq<Seq<Action>>,
    slot: int,
    stake_size: StakeSize,
    trading_fee: TradingFee,
)
    requires
        trace.len() == bars.len(),
        ledger.run(bars, trace, slot, stake_size, trading_fee) is Ok,
    ensures
        ({
            let after = ledger.run(bars, trace, slot, stake_size, trading_fee)->Ok_0;
            &&& after.valuations.len() - ledger.valuations.len() == bars.len() + sales(after)
                - sales(ledger)
            &&& sales(after) >= sales(ledger)
            &&& 0 <= after.trades.len() - ledger.trades.len() <= bars.len()
            &&& after.position.quantity - net_bought(after) == ledger.position.quantity - net_bought(
                ledger,
            )
            &&& after.valuations.subrange(0, ledger.valuations.len() as int) == ledger.valuations
            &&& after.trades.subrange(0, ledger.trades.len() as int) == ledger.trades
        }),
    decreases bars.len(),
{
    let after = ledger.run(bars, trace, slot, stake_size, trading_fee)->Ok_0;
    lemma_sales_grow(ledger, bars, trace, slot, stake_size, trading_fee);
    if bars.len() == 0 {
        assert(after.valuations.subrange(0, ledger.valuations.len() as int) =~= ledger.valuations);
        assert(after.trades.subrange(0, ledger.trades.len() as int) =~= ledger.trades);
    } else {
        let middle = ledger.run(
            bars.drop_last(),
            trace.drop_last(),
            slot,
            stake_size,
            trading_fee,
        )->Ok_0;
        law_run_is_recorded(
            ledger,
            bars.drop_last(),
            trace.drop_last(),
            slot,
            stake_size,
            trading_fee,
        );
        law_bar_is_recorded(middle, bars.last(), trace.last(), slot, stake_size, trading_fee);
        lemma_sales_grow(ledger, bars.drop_last(), trace.drop_last(), slot, stake_size, trading_fee);
        assert(after.valuations.subrange(0, ledger.valuations.len() as int)
            =~= middle.valuations.subrange(0, ledger.valuations.len() as int)) by {
            assert(middle.valuations =~= after.valuations.subrange(
                0,
                middle.valuations.len() as int,
            ));
        }
        assert(after.trades.subrange(0, ledger.trades.len() as int) =~= middle.trades.subrange(
            0,
            ledger.trades.len() as int,
        )) by {
            assert(middle.trades =~= after.trades.subrange(0, middle.trades.len() as int));
        }
    }
}

/// Time order of a run: over bars in time order, from a ledger whose
/// valuations are in time order and end no later than the first bar starts,
/// a run that succeeds leaves the valuations in time order, the last one at
/// the end of the last bar.
pub proof fn law_run_keeps_time_order(
    ledger: Ledger,
    bars: Seq<BinanceKline>,
    trace: Seq<Seq<Action>>,
    slot: int,
    stake_size: StakeSize,
    trading_fee: TradingFee,
)
    requires
        trace.len() == bars.len(),
        in_time_order(bars),
        chronological(ledger),
        ledger.valuations.len() > 0,
        bars.len() > 0 ==> ledger.valuations.last().timestamp <= bars[0].start_time,
        ledger.run(bars, trace, slot, stake_size, trading_fee) is Ok,
    ensures
        ({
            let after = ledger.run(bars, trace, slot, stake_size, trading_fee)->Ok_0;
            &&& chronological(after)
            &&& after.valuations.len() > 0
            &&& bars.len() > 0 ==> after.valuations.last().timestamp == bars.last().end_time
        }),
    decreases bars.len(),
{
    if bars.len() > 0 {
        let earlier = bars.drop_last();
        let middle = ledger.run(earlier, trace.drop_last(), slot, stake_size, trading_fee)->Ok_0;
        assert(in_time_order(earlier)) by {
            assert forall|i: int| 0 <= i < earlier.len() implies (#[trigger] earlier[i]).start_time
                <= earlier[i].end_time by {
                assert(earlier[i] == bars[i]);
            }
            assert forall|i: int, j: int| 0 <= i < j < earlier.len() implies (
            #[trigger] earlier[i]).end_time <= (#[trigger] earlier[j]).start_time by {
                assert(earlier[i] == bars[i]);
                assert(earlier[j] == bars[j]);
            }
        }
        if earlier.len() > 0 {
            assert(earlier[0] == bars[0]);
        }
        law_run_keeps_time_order(ledger, earlier, trace.drop_last(), slot, stake_size, trading_fee);
        let kline = bars.last();
        assert(kline == bars[bars.len() - 1]);
        assert(middle.valuations.last().timestamp <= kline.start_time) by {
            if earlier.len() > 0 {
                assert(earlier.last() == bars[bars.len() - 2]);
            }
        }
        assert(kline.start_time <= kline.end_time);
        let traded = middle.session(kline, trace.last(), slot, stake_size, trading_fee)->Ok_0;
        assert(chronological(traded));
        assert(traded.valuations.last().timestamp <= kline.end_time);
    }
}

/// A run from a new account over bars in time order leaves the valuations in
/// time order, the first one being the seed at the start of the first bar.
pub proof fn law_backtest_is_chronological(
    bars: Seq<BinanceKline>,
    trace: Seq<Seq<Action>>,
    slot: int,
    stake_size: StakeSize,
    trading_fee: TradingFee,
)
    requires
        bars.len() > 0,
        trace.len() == bars.len(),
        in_time_order(bars),
        Ledger::at_start(bars).run(bars, trace, slot, stake_size, trading_fee) is Ok,
    ensures
        ({
            let after = Ledger::at_start(bars).run(bars, trace, slot, stake_size, trading_fee)->Ok_0;
            &&& chronological(after)
            &&& after.valuations.len() >= 1 + bars.len()
            &&& after.valuations[0] == Ledger::at_start(bars).valuations[0]
            &&& after.valuations.last().timestamp == bars.last().end_time
        }),
{
    let start = Ledger::at_start(bars);
    let after = start.run(bars, trace, slot, stake_size, trading_fee)->Ok_0;
    law_run_keeps_time_order(start, bars, trace, slot, stake_size, trading_fee);
    law_run_is_recorded(start, bars, trace, slot, stake_size, trading_fee);
    assert(after.valuations.subrange(0, 1)[0] == after.valuations[0]);
}

/// A run never takes a sale off the record.
proof fn lemma_sales_grow(
    ledger: Ledger,
    bars: Seq<BinanceKline>,
    trace: Seq<Seq<Action>>,
    slot: int,
    stake_size: StakeSize,
    trading_fee: TradingFee,
)
    requires
        trace.len() == bars.len(),
        ledger.run(bars, trace, slot, stake_size, trading_fee) is Ok,
    ensures
        sales(ledger.run(bars, trace, slot, stake_size, trading_fee)->Ok_0) >= sales(ledger),
    decreases bars.len(),
{
    if bars.len() > 0 {
        let middle = ledger.run(
            bars.drop_last(),
            trace.drop_last(),
            slot,
            stake_size,
            trading_fee,
        )->Ok_0;
        lemma_sales_grow(ledger, bars.drop_last(), trace.drop_last(), slot, stake_size, trading_fee);
        let kline = bars.last();
        let traded = middle.session(kline, trace.last(), slot, stake_size, trading_fee)->Ok_0;
        let after = middle.bar(kline, trace.last(), slot, stake_size, trading_fee)->Ok_0;
        lemma_sales_of_trades(after, traded);
        match chosen(trace.last(), slot)->Ok_0 {
            Action::NoSignal => {
                assert(traded == middle);
            },
            _ => {
                assert(traded.trades.drop_last() =~= middle.trades);
                lemma_sales_of_trades(Ledger { trades: traded.trades.drop_last(), ..traded }, middle);
            },
        }
    }
}

} // verus!
