//! The trader that follows two means over full windows.

use crate::data::BinanceKline;
use crate::decimal::Decimal;
use crate::error::BacktestError;
use crate::indicators::sma::{SMAInstance, SMAModel};
use crate::indicators::{Action, BinanceIndicatorInstance, SmaPair};
use crate::traders::{
    choose_signal, windows_fit, GenericTrader, StakeSize, TradingFee, FIXED_STAKE,
};
use vstd::prelude::*;

verus! {

/// Trades a fixed amount of money once a month, on the side that the short
/// mean is on against the long one.
pub struct SMATrader {
    trading_fee: TradingFee,
    stake_size: StakeSize,
    indicator: SMAInstance,
}

impl SMATrader {
    /// A trader over windows of one and two bars, for the bars `kline_feed`.
    /// A feed of fewer than two bars, and a fee share that is not greater
    /// than zero, are refused with `Config`.
    pub fn new(kline_feed: &[BinanceKline], trading_fee: TradingFee) -> (r: Result<
        Self,
        BacktestError,
    >)
        ensures
            (kline_feed@.len() < 2 || !trading_fee.valid()) <==> r is Err,
            r is Err ==> r->Err_0 == BacktestError::Config,
            r is Ok ==> r->Ok_0.starts_as(kline_feed@[0], trading_fee, 1, 2),
    {
        Self::with_windows(kline_feed, trading_fee, SmaPair::new(1, 2))
    }

    /// A trader over the given windows. An empty feed, a fee share that is
    /// not greater than zero, a window of the width zero and a window wider
    /// than the feed is long are refused with `Config`.
    pub fn with_windows(
        kline_feed: &[BinanceKline],
        trading_fee: TradingFee,
        sma_pair: SmaPair,
    ) -> (r: Result<Self, BacktestError>)
        ensures
            (!trading_fee.valid() || !windows_fit(
                sma_pair.short() as nat,
                sma_pair.long() as nat,
                kline_feed@.len(),
            )) <==> r is Err,
            r is Err ==> r->Err_0 == BacktestError::Config,
            r is Ok ==> r->Ok_0.starts_as(
                kline_feed@[0],
                trading_fee,
                sma_pair.short() as nat,
                sma_pair.long() as nat,
            ),
    {
        if kline_feed.len() == 0 || !trading_fee.is_valid() || !sma_pair.fits(kline_feed.len()) {
            return Err(BacktestError::Config);
        }
        let sma = match sma_pair.init(&kline_feed[0]) {
            Ok(s) => s,
            Err(e) => {
                return Err(BacktestError::Config);
            },
        };
        Ok(
            SMATrader {
                indicator: sma,
                trading_fee,
                stake_size: StakeSize::FixAmount(Decimal { raw: FIXED_STAKE }),
            },
        )
    }

    /// Whether the trader is as it is made for a feed that starts with
    /// `first`: the given fee, the fixed stake, and both windows filled with
    /// the closing price of `first`.
    pub open spec fn starts_as(
        self,
        first: BinanceKline,
        trading_fee: TradingFee,
        short_window: nat,
        long_window: nat,
    ) -> bool {
        &&& self.fee() == trading_fee
        &&& self.stake() == StakeSize::FixAmount(Decimal { raw: FIXED_STAKE })
        &&& self.source().wf()
        &&& self.source().model() == SMAModel::seeded(short_window, long_window, first.close)
    }
}

impl GenericTrader for SMATrader {
    type Indicator = SMAInstance;

    closed spec fn stake(&self) -> StakeSize {
        self.stake_size
    }

    closed spec fn fee(&self) -> TradingFee {
        self.trading_fee
    }

    closed spec fn source(&self) -> SMAInstance {
        self.indicator
    }

    open spec fn slot() -> int {
        0
    }

    fn stake_size(&self) -> (r: StakeSize) {
        self.stake_size
    }

    fn trading_fee(&self) -> (r: TradingFee) {
        self.trading_fee
    }

    fn indicator(&mut self) -> (r: &mut SMAInstance) {
        &mut self.indicator
    }

    fn determine_trade(signals: &[Action]) -> (r: Result<Action, BacktestError>) {
        choose_signal(signals, 0)
    }
}

} // verus!
