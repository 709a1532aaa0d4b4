//! The trader that buys a fixed amount once a month.

use crate::data::BinanceKline;
use crate::decimal::Decimal;
use crate::error::BacktestError;
use crate::indicators::dca::DCAInstance;
use crate::indicators::{Action, BinanceIndicatorInstance, Dca};
use crate::traders::{choose_signal, GenericTrader, StakeSize, TradingFee, FIXED_STAKE};
use vstd::prelude::*;

verus! {

/// Buys for a fixed amount of money on the first bar of each calendar month.
pub struct DCATrader {
    trading_fee: TradingFee,
    stake_size: StakeSize,
    indicator: DCAInstance,
}

impl DCATrader {
    /// A trader for the bars `kline_feed`. An empty feed, and a fee share
    /// that is not greater than zero, are refused with `Config`.
    pub fn new(kline_feed: &[BinanceKline], trading_fee: TradingFee) -> (r: Result<
        Self,
        BacktestError,
    >)
        ensures
            (kline_feed@.len() == 0 || !trading_fee.valid()) <==> r is Err,
            r is Err ==> r->Err_0 == BacktestError::Config,
            r is Ok ==> {
                &&& r->Ok_0.fee() == trading_fee
                &&& r->Ok_0.stake() == StakeSize::FixAmount(Decimal { raw: FIXED_STAKE })
                &&& r->Ok_0.source().wf()
                &&& r->Ok_0.source().model() is None
            },
    {
        if kline_feed.len() == 0 || !trading_fee.is_valid() {
            return Err(BacktestError::Config);
        }
        let dca = match Dca.init(&kline_feed[0]) {
            Ok(d) => d,
            Err(e) => {
                return Err(BacktestError::Config);
            },
        };
        Ok(
            DCATrader {
                indicator: dca,
                trading_fee,
                stake_size: StakeSize::FixAmount(Decimal { raw: FIXED_STAKE }),
            },
        )
    }
}

impl GenericTrader for DCATrader {
    type Indicator = DCAInstance;

    closed spec fn stake(&self) -> StakeSize {
        self.stake_size
    }

    closed spec fn fee(&self) -> TradingFee {
        self.trading_fee
    }

    closed spec fn source(&self) -> DCAInstance {
        self.indicator
    }

    open spec fn slot() -> int {
        0
    }

    fn stake_size(&self) -> (r: StakeSize) {
        self.stake_size
    }

    fn trading_fee(&self) -> (r: TradingFee) {
        self.trading_fee
    }

    fn indicator(&mut self) -> (r: &mut DCAInstance) {
        &mut self.indicator
    }

    fn determine_trade(signals: &[Action]) -> (r: Result<Action, BacktestError>) {
        choose_signal(signals, 0)
    }
}

} // verus!
