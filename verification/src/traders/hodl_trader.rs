//! The trader that buys once and holds.

use crate::data::BinanceKline;
use crate::decimal::{Decimal, SCALE};
use crate::error::BacktestError;
use crate::indicators::hodl::HodlInstance;
use crate::indicators::{Action, BinanceIndicatorInstance, Hodl};
use crate::traders::{choose_signal, GenericTrader, StakeSize, TradingFee};
use vstd::prelude::*;

verus! {

/// Buys with the whole available fund on the first bar and never trades
/// again.
pub struct HODLTrader {
    trading_fee: TradingFee,
    stake_size: StakeSize,
    indicator: HodlInstance,
}

impl HODLTrader {
    /// A trader for the bars `kline_feed`. An empty feed, and a fee share
    /// that is not greater than zero, are refused with `Config`.
    pub fn new(kline_feed: &[BinanceKline], trading_fee: TradingFee) -> (r: Result<
        Self,
        BacktestError,
    >)
        ensures
            (kline_feed@.len() == 0 || !trading_fee.valid()) <==> r is Err,
            r is Err ==> r->Err_0 == BacktestError::Config,
            r is Ok ==> {
                &&& r->Ok_0.fee() == trading_fee
                &&& r->Ok_0.stake() == StakeSize::FixPercentage(Decimal { raw: SCALE })
                &&& r->Ok_0.source().wf()
                &&& !r->Ok_0.source().model()
            },
    {
        if kline_feed.len() == 0 || !trading_fee.is_valid() {
            return Err(BacktestError::Config);
        }
        let hodl = match Hodl.init(&kline_feed[0]) {
            Ok(h) => h,
            Err(e) => {
                return Err(BacktestError::Config);
            },
        };
        Ok(
            HODLTrader {
                indicator: hodl,
                trading_fee,
                stake_size: StakeSize::FixPercentage(Decimal { raw: SCALE }),
            },
        )
    }
}

impl GenericTrader for HODLTrader {
    type Indicator = HodlInstance;

    closed spec fn stake(&self) -> StakeSize {
        self.stake_size
    }

    closed spec fn fee(&self) -> TradingFee {
        self.trading_fee
    }

    closed spec fn source(&self) -> HodlInstance {
        self.indicator
    }

    open spec fn slot() -> int {
        0
    }

    fn stake_size(&self) -> (r: StakeSize) {
        self.stake_size
    }

    fn trading_fee(&self) -> (r: TradingFee) {
        self.trading_fee
    }

    fn indicator(&mut self) -> (r: &mut HodlInstance) {
        &mut self.indicator
    }

    fn determine_trade(signals: &[Action]) -> (r: Result<Action, BacktestError>) {
        choose_signal(signals, 0)
    }
}

} // verus!
