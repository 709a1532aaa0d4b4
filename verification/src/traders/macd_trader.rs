//! The trader that follows the second line of an oscillator.

use crate::data::BinanceKline;
use crate::error::BacktestError;
use crate::indicators::{Action, BinanceIndicatorInstance};
use crate::traders::{choose_signal, GenericTrader, StakeSize, TradingFee};
use vstd::prelude::*;

verus! {

/// Trades on the second slot of the signals of an oscillator `I`, which the
/// caller plugs in.
pub struct MACDTrader<I: BinanceIndicatorInstance> {
    trading_fee: TradingFee,
    stake_size: StakeSize,
    indicator: I,
}

impl<I: BinanceIndicatorInstance> MACDTrader<I> {
    /// A trader on the signals of `indicator`, for the bars `kline_feed`. An
    /// empty feed, and a fee share or a stake that is not greater than zero,
    /// are refused with `Config`.
    pub fn new(
        kline_feed: &[BinanceKline],
        indicator: I,
        trading_fee: TradingFee,
        stake_size: StakeSize,
    ) -> (r: Result<Self, BacktestError>)
        ensures
            (kline_feed@.len() == 0 || !trading_fee.valid() || !stake_size.valid()) <==> r is Err,
            r is Err ==> r->Err_0 == BacktestError::Config,
            r is Ok ==> {
                &&& r->Ok_0.fee() == trading_fee
                &&& r->Ok_0.stake() == stake_size
                &&& r->Ok_0.source() == indicator
            },
    {
        if kline_feed.len() == 0 || !trading_fee.is_valid() || !stake_size.is_valid() {
            return Err(BacktestError::Config);
        }
        Ok(MACDTrader { indicator, trading_fee, stake_size })
    }
}

impl<I: BinanceIndicatorInstance> GenericTrader for MACDTrader<I> {
    type Indicator = I;

    closed spec fn stake(&self) -> StakeSize {
        self.stake_size
    }

    closed spec fn fee(&self) -> TradingFee {
        self.trading_fee
    }

    closed spec fn source(&self) -> I {
        self.indicator
    }

    open spec fn slot() -> int {
        1
    }

    fn stake_size(&self) -> (r: StakeSize) {
        self.stake_size
    }

    fn trading_fee(&self) -> (r: TradingFee) {
        self.trading_fee
    }

    fn indicator(&mut self) -> (r: &mut I) {
        &mut self.indicator
    }

    fn determine_trade(signals: &[Action]) -> (r: Result<Action, BacktestError>) {
        choose_signal(signals, 1)
    }
}

} // verus!
