//! The five strategies, each with its defaults, and the runs of several of
//! them over the same bars.
//!
//! Each run has an account and a trader of its own and reads the bars only,
//! so no run can touch another: what a strategy yields is stated of that
//! strategy and the bars alone.

use crate::account::{Account, Ledger};
use crate::backtest::{
    backtest_of, backtest_on, final_ledger, initialise_account, lemma_run_is_fixed, run_of,
    run_trader, trace_of, FEE_SHARE,
};
use crate::data::binance::{is_ordered_by_start, ordered_by_start};
use crate::data::BinanceKline;
use crate::decimal::{Decimal, SCALE};
use crate::error::BacktestError;
use crate::indicators::dca::dca_signals;
use crate::indicators::hodl::hodl_signals;
use crate::indicators::sma::SMAModel;
use crate::indicators::sma2::SMA2Model;
use crate::indicators::{Action, BinanceIndicatorInstance, Sma2Pair, SmaPair};
use crate::traders::{
    windows_fit, DCATrader, GenericTrader, HODLTrader, MACDTrader, SMA2Trader, SMATrader,
    StakeSize, TradingFee, FIXED_STAKE,
};
use vstd::prelude::*;

verus! {

/// The fee that the strategies pay by default: 0.005 of price times quantity.
pub open spec fn standard_fee() -> TradingFee {
    TradingFee::PercentageFee(Decimal { raw: FEE_SHARE })
}

/// The stake of the whole available fund.
pub open spec fn whole_fund() -> StakeSize {
    StakeSize::FixPercentage(Decimal { raw: SCALE })
}

/// The stake of the fixed amount of money.
pub open spec fn fixed_stake() -> StakeSize {
    StakeSize::FixAmount(Decimal { raw: FIXED_STAKE })
}

/// How a bar takes the buy-and-hold source from one state to the next.
pub open spec fn hodl_advance() -> spec_fn(bool, BinanceKline) -> bool {
    |bought: bool, kline: BinanceKline| true
}

/// What the buy-and-hold source answers a bar with.
pub open spec fn hodl_answer() -> spec_fn(bool, BinanceKline) -> Seq<Action> {
    |bought: bool, kline: BinanceKline| hodl_signals(bought)
}

/// How a bar takes the monthly-buy source from one state to the next.
pub open spec fn dca_advance() -> spec_fn(Option<i64>, BinanceKline) -> Option<i64> {
    |last_timestamp: Option<i64>, kline: BinanceKline| Some(kline.start_time)
}

/// What the monthly-buy source answers a bar with.
pub open spec fn dca_answer() -> spec_fn(Option<i64>, BinanceKline) -> Seq<Action> {
    |last_timestamp: Option<i64>, kline: BinanceKline| dca_signals(last_timestamp, kline)
}

/// How a bar takes the source of two full-window means from one state to the
/// next.
pub open spec fn sma_advance() -> spec_fn(SMAModel, BinanceKline) -> SMAModel {
    |model: SMAModel, kline: BinanceKline| model.advanced(kline)
}

/// What the source of two full-window means answers a bar with.
pub open spec fn sma_answer() -> spec_fn(SMAModel, BinanceKline) -> Seq<Action> {
    |model: SMAModel, kline: BinanceKline| model.signals(kline)
}

/// How a bar takes the source of two rolling means from one state to the
/// next.
pub open spec fn sma2_advance() -> spec_fn(SMA2Model, BinanceKline) -> SMA2Model {
    |model: SMA2Model, kline: BinanceKline| model.advanced(kline)
}

/// What the source of two rolling means answers a bar with.
pub open spec fn sma2_answer() -> spec_fn(SMA2Model, BinanceKline) -> Seq<Action> {
    |model: SMA2Model, kline: BinanceKline| model.signals(kline)
}

/// What the buy-and-hold strategy yields over `bars`: `Data` where there is
/// no bar, `Config` where the fee share is not greater than zero.
pub open spec fn hodl_backtest(bars: Seq<BinanceKline>, trading_fee: TradingFee) -> Result<
    Ledger,
    BacktestError,
> {
    backtest_on(
        bars,
        trading_fee.valid(),
        false,
        hodl_advance(),
        hodl_answer(),
        0,
        whole_fund(),
        trading_fee,
    )
}

/// What the monthly-buy strategy yields over `bars`: `Data` where there is
/// no bar, `Config` where the fee share is not greater than zero.
pub open spec fn dca_backtest(bars: Seq<BinanceKline>, trading_fee: TradingFee) -> Result<
    Ledger,
    BacktestError,
> {
    backtest_on(
        bars,
        trading_fee.valid(),
        None,
        dca_advance(),
        dca_answer(),
        0,
        fixed_stake(),
        trading_fee,
    )
}

/// What the strategy of two full-window means yields over `bars`: `Data`
/// where there is no bar, `Config` where the fee share is not greater than
/// zero or a window has the width zero or is wider than there are bars.
pub open spec fn sma_backtest(
    bars: Seq<BinanceKline>,
    trading_fee: TradingFee,
    short_window: nat,
    long_window: nat,
) -> Result<Ledger, BacktestError> {
    backtest_on(
        bars,
        trading_fee.valid() && windows_fit(short_window, long_window, bars.len()),
        SMAModel::seeded(short_window, long_window, bars[0].close),
        sma_advance(),
        sma_answer(),
        0,
        fixed_stake(),
        trading_fee,
    )
}

/// What the strategy of two rolling means yields over `bars`: `Data` where
/// there is no bar, `Config` where the fee share is not greater than zero or
/// a window has the width zero or is wider than there are bars.
pub open spec fn sma2_backtest(
    bars: Seq<BinanceKline>,
    trading_fee: TradingFee,
    short_window: nat,
    long_window: nat,
) -> Result<Ledger, BacktestError> {
    backtest_on(
        bars,
        trading_fee.valid() && windows_fit(short_window, long_window, bars.len()),
        SMA2Model::seeded(short_window, long_window, bars[0].close),
        sma2_advance(),
        sma2_answer(),
        0,
        fixed_stake(),
        trading_fee,
    )
}

/// The fee that the strategies pay by default.
pub fn default_trading_fee() -> (r: TradingFee)
    ensures
        r == standard_fee(),
{
    TradingFee::PercentageFee(Decimal { raw: FEE_SHARE })
}

/// The oscillator trader with its defaults: the standard fee and the whole
/// available fund as stake.
pub fn initialise_macd_trader<I: BinanceIndicatorInstance>(
    klines: &[BinanceKline],
    indicator: I,
) -> (r: Result<MACDTrader<I>, BacktestError>)
    ensures
        klines@.len() == 0 <==> r is Err,
        r is Err ==> r->Err_0 == BacktestError::Config,
        r is Ok ==> {
            &&& r->Ok_0.fee() == standard_fee()
            &&& r->Ok_0.stake() == whole_fund()
            &&& r->Ok_0.source() == indicator
        },
{
    let stake_size = StakeSize::FixPercentage(Decimal { raw: SCALE });
    let trading_fee = default_trading_fee();
    MACDTrader::new(klines, indicator, trading_fee, stake_size)
}

/// The buy-and-hold trader with the standard fee.
pub fn initialise_hodl_trader(klines: &[BinanceKline]) -> (r: Result<HODLTrader, BacktestError>)
    ensures
        klines@.len() == 0 <==> r is Err,
        r is Err ==> r->Err_0 == BacktestError::Config,
        r is Ok ==> {
            &&& r->Ok_0.fee() == standard_fee()
            &&& r->Ok_0.stake() == whole_fund()
            &&& r->Ok_0.source().wf()
            &&& !r->Ok_0.source().model()
        },
{
    HODLTrader::new(klines, default_trading_fee())
}

/// The monthly-buy trader with the standard fee.
pub fn initialise_dca_trader(klines: &[BinanceKline]) -> (r: Result<DCATrader, BacktestError>)
    ensures
        klines@.len() == 0 <==> r is Err,
        r is Err ==> r->Err_0 == BacktestError::Config,
        r is Ok ==> {
            &&& r->Ok_0.fee() == standard_fee()
            &&& r->Ok_0.stake() == fixed_stake()
            &&& r->Ok_0.source().wf()
            &&& r->Ok_0.source().model() is None
        },
{
    DCATrader::new(klines, default_trading_fee())
}

/// The trader on two full-window means, over one and two bars, with the
/// standard fee.
pub fn initialise_sma_trader(klines: &[BinanceKline]) -> (r: Result<SMATrader, BacktestError>)
    ensures
        klines@.len() < 2 <==> r is Err,
        r is Err ==> r->Err_0 == BacktestError::Config,
        r is Ok ==> r->Ok_0.starts_as(klines@[0], standard_fee(), 1, 2),
{
    SMATrader::new(klines, default_trading_fee())
}

/// The trader on two rolling means, over one and two bars, with the standard
/// fee.
pub fn initialise_sma2_trader(klines: &[BinanceKline]) -> (r: Result<SMA2Trader, BacktestError>)
    ensures
        klines@.len() < 2 <==> r is Err,
        r is Err ==> r->Err_0 == BacktestError::Config,
        r is Ok ==> r->Ok_0.starts_as(klines@[0], standard_fee(), 1, 2),
{
    SMA2Trader::new(klines, default_trading_fee())
}

/// One configured strategy. `I` is the oscillator that the caller plugs in.
pub enum Strategy<I: BinanceIndicatorInstance> {
    Macd { indicator: I, trading_fee: TradingFee, stake_size: StakeSize },
    Hodl { trading_fee: TradingFee },
    Dca { trading_fee: TradingFee },
    Sma { trading_fee: TradingFee, windows: SmaPair },
    Sma2 { trading_fee: TradingFee, windows: Sma2Pair },
}

impl<I: BinanceIndicatorInstance> Strategy<I> {
    /// Whether the strategy can be run: a plugged-in oscillator is in a state
    /// that it can be advanced from.
    pub open spec fn wf(self) -> bool {
        match self {
            Strategy::Macd { indicator, .. } => indicator.wf(),
            _ => true,
        }
    }

    /// The name that the strategy is reported under.
    pub open spec fn label(self) -> Seq<char> {
        match self {
            Strategy::Macd { .. } => "MACD"@,
            Strategy::Hodl { .. } => "HODL"@,
            Strategy::Dca { .. } => "DCA"@,
            Strategy::Sma { .. } => "SMA"@,
            Strategy::Sma2 { .. } => "SMA2"@,
        }
    }

    /// Whether a run of the strategy over `bars` may end with `result`.
    ///
    /// For the four strategies whose signal source is part of this library
    /// there is one such result. For the oscillator it is the ledger's run
    /// on whatever the oscillator answered.
    pub open spec fn yields(
        self,
        bars: Seq<BinanceKline>,
        result: Result<Ledger, BacktestError>,
    ) -> bool {
        match self {
            Strategy::Macd { indicator, trading_fee, stake_size } => backtest_of::<I>(
                bars,
                trading_fee.valid() && stake_size.valid(),
                indicator.model(),
                1,
                stake_size,
                trading_fee,
                result,
            ),
            Strategy::Hodl { trading_fee } => result == hodl_backtest(bars, trading_fee),
            Strategy::Dca { trading_fee } => result == dca_backtest(bars, trading_fee),
            Strategy::Sma { trading_fee, windows } => result == sma_backtest(
                bars,
                trading_fee,
                windows.short() as nat,
                windows.long() as nat,
            ),
            Strategy::Sma2 { trading_fee, windows } => result == sma2_backtest(
                bars,
                trading_fee,
                windows.short() as nat,
                windows.long() as nat,
            ),
        }
    }

    /// The name that the strategy is reported under.
    pub fn name(&self) -> (r: &'static str)
        ensures
            r@ == self.label(),
    {
        match self {
            Strategy::Macd { .. } => "MACD",
            Strategy::Hodl { .. } => "HODL",
            Strategy::Dca { .. } => "DCA",
            Strategy::Sma { .. } => "SMA",
            Strategy::Sma2 { .. } => "SMA2",
        }
    }
}

/// Runs a trader whose signal source is fixed by `advance` and `answer` on
/// `account` over all of `klines`.
fn run_known_source<T: GenericTrader>(
    account: Account,
    trader: T,
    klines: &[BinanceKline],
    Ghost(advance): Ghost<
        spec_fn(
            <T::Indicator as BinanceIndicatorInstance>::Model,
            BinanceKline,
        ) -> <T::Indicator as BinanceIndicatorInstance>::Model,
    >,
    Ghost(answer): Ghost<
        spec_fn(<T::Indicator as BinanceIndicatorInstance>::Model, BinanceKline) -> Seq<Action>,
    >,
) -> (r: Result<Account, BacktestError>)
    requires
        trader.source().wf(),
        forall|
            before: <T::Indicator as BinanceIndicatorInstance>::Model,
            kline: BinanceKline,
            signals: Seq<Action>,
            after: <T::Indicator as BinanceIndicatorInstance>::Model,
        | #[trigger]
            <T::Indicator as BinanceIndicatorInstance>::steps(before, kline, signals, after)
                ==> signals == answer(before, kline) && after == advance(before, kline),
    ensures
        final_ledger(r) == account@.run(
            klines@,
            trace_of(trader.source().model(), klines@, advance, answer),
            T::slot(),
            trader.stake(),
            trader.fee(),
        ),
{
    let ghost start = trader.source().model();
    let ghost before = account@;
    let ghost stake_size = trader.stake();
    let ghost trading_fee = trader.fee();
    let r = run_trader(account, trader, klines);
    proof {
        let (models, trace) = choose|
            models: Seq<<T::Indicator as BinanceIndicatorInstance>::Model>,
            trace: Seq<Seq<Action>>,
        | #[trigger]
            run_of::<T::Indicator>(
                models,
                trace,
                start,
                before,
                klines@,
                T::slot(),
                stake_size,
                trading_fee,
                final_ledger(r),
            );
        lemma_run_is_fixed::<T::Indicator>(
            models,
            trace,
            start,
            before,
            klines@,
            T::slot(),
            stake_size,
            trading_fee,
            final_ledger(r),
            advance,
            answer,
        );
    }
    r
}

/// Runs the oscillator strategy with its defaults over `klines` from a new
/// account: the standard fee, and the whole available fund as stake.
pub fn backtest_macd<I: BinanceIndicatorInstance>(klines: &[BinanceKline], indicator: I) -> (r:
    Result<Account, BacktestError>)
    requires
        indicator.wf(),
    ensures
        backtest_of::<I>(
            klines@,
            true,
            indicator.model(),
            1,
            whole_fund(),
            standard_fee(),
            final_ledger(r),
        ),
{
    let account = match initialise_account(klines) {
        Ok(a) => a,
        Err(e) => {
            return Err(e);
        },
    };
    let trader = match initialise_macd_trader(klines, indicator) {
        Ok(t) => t,
        Err(e) => {
            return Err(e);
        },
    };
    run_trader(account, trader, klines)
}

/// Runs the buy-and-hold strategy with the standard fee over `klines` from a
/// new account.
pub fn backtest_hodl(klines: &[BinanceKline]) -> (r: Result<Account, BacktestError>)
    ensures
        final_ledger(r) == hodl_backtest(klines@, standard_fee()),
{
    let account = match initialise_account(klines) {
        Ok(a) => a,
        Err(e) => {
            return Err(e);
        },
    };
    let trader = match initialise_hodl_trader(klines) {
        Ok(t) => t,
        Err(e) => {
            return Err(e);
        },
    };
    run_known_source(account, trader, klines, Ghost(hodl_advance()), Ghost(hodl_answer()))
}

/// Runs the monthly-buy strategy with the standard fee over `klines` from a
/// new account.
pub fn backtest_dca(klines: &[BinanceKline]) -> (r: Result<Account, BacktestError>)
    ensures
        final_ledger(r) == dca_backtest(klines@, standard_fee()),
{
    let account = match initialise_account(klines) {
        Ok(a) => a,
        Err(e) => {
            return Err(e);
        },
    };
    let trader = match initialise_dca_trader(klines) {
        Ok(t) => t,
        Err(e) => {
            return Err(e);
        },
    };
    run_known_source(account, trader, klines, Ghost(dca_advance()), Ghost(dca_answer()))
}

/// Runs the strategy of two full-window means, over one and two bars and
/// with the standard fee, over `klines` from a new account.
pub fn backtest_sma(klines: &[BinanceKline]) -> (r: Result<Account, BacktestError>)
    ensures
        final_ledger(r) == sma_backtest(klines@, standard_fee(), 1, 2),
{
    let account = match initialise_account(klines) {
        Ok(a) => a,
        Err(e) => {
            return Err(e);
        },
    };
    let trader = match initialise_sma_trader(klines) {
        Ok(t) => t,
        Err(e) => {
            return Err(e);
        },
    };
    run_known_source(account, trader, klines, Ghost(sma_advance()), Ghost(sma_answer()))
}

/// Runs the strategy of two rolling means, over one and two bars and with
/// the standard fee, over `klines` from a new account.
pub fn backtest_sma2(klines: &[BinanceKline]) -> (r: Result<Account, BacktestError>)
    ensures
        final_ledger(r) == sma2_backtest(klines@, standard_fee(), 1, 2),
{
    let account = match initialise_account(klines) {
        Ok(a) => a,
        Err(e) => {
            return Err(e);
        },
    };
    let trader = match initialise_sma2_trader(klines) {
        Ok(t) => t,
        Err(e) => {
            return Err(e);
        },
    };
    run_known_source(account, trader, klines, Ghost(sma2_advance()), Ghost(sma2_answer()))
}

/// Runs one strategy over `klines` from a new account of its own.
pub fn run_strategy<I: BinanceIndicatorInstance>(
    klines: &[BinanceKline],
    strategy: Strategy<I>,
) -> (r: Result<Account, BacktestError>)
    requires
        strategy.wf(),
    ensures
        strategy.yields(klines@, final_ledger(r)),
{
    let account = match initialise_account(klines) {
        Ok(a) => a,
        Err(e) => {
            return Err(e);
        },
    };
    match strategy {
        Strategy::Macd { indicator, trading_fee, stake_size } => {
            match MACDTrader::new(klines, indicator, trading_fee, stake_size) {
                Ok(trader) => run_trader(account, trader, klines),
                Err(e) => Err(e),
            }
        },
        Strategy::Hodl { trading_fee } => {
            match HODLTrader::new(klines, trading_fee) {
                Ok(trader) => run_known_source(
                    account,
                    trader,
                    klines,
                    Ghost(hodl_advance()),
                    Ghost(hodl_answer()),
                ),
                Err(e) => Err(e),
            }
        },
        Strategy::Dca { trading_fee } => {
            match DCATrader::new(klines, trading_fee) {
                Ok(trader) => run_known_source(
                    account,
                    trader,
                    klines,
                    Ghost(dca_advance()),
                    Ghost(dca_answer()),
                ),
                Err(e) => Err(e),
            }
        },
        Strategy::Sma { trading_fee, windows } => {
            match SMATrader::with_windows(klines, trading_fee, windows) {
                Ok(trader) => run_known_source(
                    account,
                    trader,
                    klines,
                    Ghost(sma_advance()),
                    Ghost(sma_answer()),
                ),
                Err(e) => Err(e),
            }
        },
        Strategy::Sma2 { trading_fee, windows } => {
            match SMA2Trader::with_windows(klines, trading_fee, windows) {
                Ok(trader) => run_known_source(
                    account,
                    trader,
                    klines,
                    Ghost(sma2_advance()),
                    Ghost(sma2_answer()),
                ),
                Err(e) => Err(e),
            }
        },
    }
}

/// The result of one strategy of a backtest, under the strategy's name.
pub struct StrategyResult {
    pub name: &'static str,
    pub result: Result<Account, BacktestError>,
}

/// Runs every strategy of `strategies` over `klines`, each from a new
/// account of its own, and reports their results in the order of the
/// strategies. No bars at all, and bars that are not ordered by their start
/// times, are refused with `Data` before any run starts. The failure of one
/// strategy is that strategy's result and leaves the others as they are.
pub fn backtest<I: BinanceIndicatorInstance>(
    klines: &[BinanceKline],
    strategies: Vec<Strategy<I>>,
) -> (r: Result<Vec<StrategyResult>, BacktestError>)
    requires
        forall|i: int| 0 <= i < strategies@.len() ==> (#[trigger] strategies@[i]).wf(),
    ensures
        (klines@.len() == 0 || !ordered_by_start(klines@)) <==> r is Err,
        r is Err ==> r->Err_0 == BacktestError::Data,
        r is Ok ==> {
            &&& r->Ok_0@.len() == strategies@.len()
            &&& forall|i: int|
                0 <= i < strategies@.len() ==> {
                    &&& (#[trigger] r->Ok_0@[i]).name@ == strategies@[i].label()
                    &&& strategies@[i].yields(klines@, final_ledger(r->Ok_0@[i].result))
                }
        },
{
    if klines.len() == 0 || !is_ordered_by_start(klines) {
        return Err(BacktestError::Data);
    }
    let mut pending = strategies;
    let mut results: Vec<StrategyResult> = Vec::new();
    while pending.len() > 0
        invariant
            results@.len() + pending@.len() == strategies@.len(),
            forall|i: int|
                0 <= i < pending@.len() ==> #[trigger] pending@[i] == strategies@[results@.len() + i],
            forall|i: int| 0 <= i < strategies@.len() ==> (#[trigger] strategies@[i]).wf(),
            forall|i: int|
                0 <= i < results@.len() ==> {
                    &&& (#[trigger] results@[i]).name@ == strategies@[i].label()
                    &&& strategies@[i].yields(klines@, final_ledger(results@[i].result))
                },
        decreases pending@.len(),
    {
        let ghost done = results@.len() as int;
        let strategy = pending.remove(0);
        assert(strategy == strategies@[done]);
        let name = strategy.name();
        let result = run_strategy(klines, strategy);
        results.push(StrategyResult { name, result });
    }
    Ok(results)
}

} // verus!
