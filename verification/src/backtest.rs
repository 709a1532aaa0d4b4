//! The orchestrator: one strategy over all bars, and several strategies over
//! the same bars.
//!
//! A run takes the bars in their order. For each bar the trader has its trade
//! session first, and the account is valued at the bar's closing price last.
//! The first failure ends the run.

use crate::account::{Account, Ledger, Position, PositionModel};
use crate::data::BinanceKline;
use crate::decimal::Decimal;
use crate::error::BacktestError;
use crate::indicators::{Action, BinanceIndicatorInstance};
use crate::traders::{session_of, GenericTrader, StakeSize, TradingFee};
use vstd::prelude::*;

verus! {

/// The fund that every run starts with, in raw units: 1000 whole units.
pub const START_FUND: i64 = 100_000_000_000;

/// The share of price times quantity that the runs pay as fee, in raw units:
/// 0.005.
pub const FEE_SHARE: i64 = 500_000;

impl Ledger {
    /// The ledger after one bar: the trade session on `signals`, then the
    /// valuation at the bar's closing price and end time.
    pub open spec fn bar(
        self,
        kline: BinanceKline,
        signals: Seq<Action>,
        slot: int,
        stake_size: StakeSize,
        trading_fee: TradingFee,
    ) -> Result<Ledger, BacktestError> {
        match self.session(kline, signals, slot, stake_size, trading_fee) {
            Ok(ledger) => ledger.mark_to_market(kline.end_time as int, kline.close@),
            Err(e) => Err(e),
        }
    }

    /// The ledger after the bars `bars` in order, the signal source having
    /// answered the bar at each place with the signals of `trace` at that
    /// place; or the first failure.
    pub open spec fn run(
        self,
        bars: Seq<BinanceKline>,
        trace: Seq<Seq<Action>>,
        slot: int,
        stake_size: StakeSize,
        trading_fee: TradingFee,
    ) -> Result<Ledger, BacktestError>
        recommends
            trace.len() == bars.len(),
        decreases bars.len(),
    {
        if bars.len() == 0 {
            Ok(self)
        } else {
            match self.run(bars.drop_last(), trace.drop_last(), slot, stake_size, trading_fee) {
                Ok(ledger) => ledger.bar(bars.last(), trace.last(), slot, stake_size, trading_fee),
                Err(e) => Err(e),
            }
        }
    }

    /// The ledger that a run over `bars` leaves behind, whether it succeeds
    /// or fails: where it succeeds, the ledger after all bars; where it
    /// fails, the ledger as it was when the failing step began, which is
    /// after the session of the failing bar where the valuation failed.
    pub open spec fn left_by(
        self,
        bars: Seq<BinanceKline>,
        trace: Seq<Seq<Action>>,
        slot: int,
        stake_size: StakeSize,
        trading_fee: TradingFee,
    ) -> Ledger
        recommends
            trace.len() == bars.len(),
        decreases bars.len(),
    {
        if bars.len() == 0 {
            self
        } else {
            match self.run(bars.drop_last(), trace.drop_last(), slot, stake_size, trading_fee) {
                Err(_) => self.left_by(
                    bars.drop_last(),
                    trace.drop_last(),
                    slot,
                    stake_size,
                    trading_fee,
                ),
                Ok(ledger) => match ledger.session(
                    bars.last(),
                    trace.last(),
                    slot,
                    stake_size,
                    trading_fee,
                ) {
                    Err(_) => ledger,
                    Ok(traded) => match traded.mark_to_market(
                        bars.last().end_time as int,
                        bars.last().close@,
                    ) {
                        Err(_) => traded,
                        Ok(valued) => valued,
                    },
                },
            }
        }
    }

    /// The ledger that a run over `bars` starts from: the starting fund,
    /// nothing held, and one valuation at the start time of the first bar.
    pub open spec fn at_start(bars: Seq<BinanceKline>) -> Ledger
        recommends
            bars.len() > 0,
    {
        Ledger::seeded(
            START_FUND as int,
            PositionModel { quantity: 0, cost: 0 },
            bars[0].start_time as int,
        )
    }
}

/// Whether a signal source may have gone through the states `models` while it
/// answered the bars `bars` with the signals `trace`, place by place.
pub open spec fn linked<I: BinanceIndicatorInstance>(
    models: Seq<I::Model>,
    bars: Seq<BinanceKline>,
    trace: Seq<Seq<Action>>,
) -> bool {
    &&& models.len() == bars.len() + 1
    &&& trace.len() == bars.len()
    &&& forall|i: int|
        0 <= i < bars.len() ==> I::steps(models[i], bars[i], #[trigger] trace[i], models[i + 1])
}

/// Whether a run over `bars` may have ended with `result`, the signal source
/// having started in the state `start`, gone through `models` and answered
/// with `trace`.
///
/// A run that succeeds has seen every bar. One that fails has seen the bars
/// up to the failing one: `trace` is then that long, and the failure is the
/// one that the ledger's run over those bars gives.
pub open spec fn run_of<I: BinanceIndicatorInstance>(
    models: Seq<I::Model>,
    trace: Seq<Seq<Action>>,
    start: I::Model,
    before: Ledger,
    bars: Seq<BinanceKline>,
    slot: int,
    stake_size: StakeSize,
    trading_fee: TradingFee,
    result: Result<Ledger, BacktestError>,
) -> bool {
    &&& trace.len() <= bars.len()
    &&& linked::<I>(models, bars.take(trace.len() as int), trace)
    &&& models[0] == start
    &&& result == before.run(bars.take(trace.len() as int), trace, slot, stake_size, trading_fee)
    &&& result is Ok ==> trace.len() == bars.len()
}

/// The outcome of a run as a value: the ledger of the account that it left,
/// or its failure.
pub open spec fn outcome(result: Result<(), BacktestError>, account: Account) -> Result<
    Ledger,
    BacktestError,
> {
    match result {
        Ok(_) => Ok(account@),
        Err(e) => Err(e),
    }
}

/// The outcome of a whole backtest as a value.
pub open spec fn final_ledger(result: Result<Account, BacktestError>) -> Result<
    Ledger,
    BacktestError,
> {
    match result {
        Ok(account) => Ok(account@),
        Err(e) => Err(e),
    }
}

/// The account that a run over `klines` starts from. An empty sequence of
/// bars is refused with `Data`.
pub fn initialise_account(klines: &[BinanceKline]) -> (r: Result<Account, BacktestError>)
    ensures
        final_ledger(r) == (if klines@.len() == 0 {
            Err::<Ledger, BacktestError>(BacktestError::Data)
        } else {
            Ok::<Ledger, BacktestError>(Ledger::at_start(klines@))
        }),
{
    if klines.len() == 0 {
        return Err(BacktestError::Data);
    }
    let start_time = klines[0].start_time;
    let start_fund = Decimal { raw: START_FUND };
    let start_position = Position { quantity: Decimal::zero(), cost: Decimal::zero() };
    Ok(Account::new(start_fund, start_position, start_time))
}

/// Runs `trader` on `account` over all of `klines`, in order: for each bar
/// the trade session, then the valuation at the bar's closing price. The
/// first failure ends the run and is returned.
///
/// Whatever the signal source answers, the account is left as the ledger's
/// run on those answers says, after a failure too.
pub fn loop_kline<T: GenericTrader>(
    trader: &mut T,
    account: &mut Account,
    klines: &[BinanceKline],
) -> (r: Result<(), BacktestError>)
    requires
        old(trader).source().wf(),
    ensures
        final(trader).source().wf(),
        final(trader).stake() == old(trader).stake(),
        final(trader).fee() == old(trader).fee(),
        exists|
            models: Seq<<T::Indicator as BinanceIndicatorInstance>::Model>,
            trace: Seq<Seq<Action>>,
        | #[trigger]
            run_of::<T::Indicator>(
                models,
                trace,
                old(trader).source().model(),
                old(account)@,
                klines@,
                T::slot(),
                old(trader).stake(),
                old(trader).fee(),
                outcome(r, *final(account)),
            ) && models.last() == final(trader).source().model() && final(account)@ == old(
                account,
            )@.left_by(
                klines@.take(trace.len() as int),
                trace,
                T::slot(),
                old(trader).stake(),
                old(trader).fee(),
            ),
{
    let ghost start = trader.source().model();
    let ghost before = account@;
    let ghost stake_size = trader.stake();
    let ghost trading_fee = trader.fee();
    let ghost mut models: Seq<<T::Indicator as BinanceIndicatorInstance>::Model> = seq![start];
    let ghost mut trace: Seq<Seq<Action>> = Seq::empty();
    let mut failure: Option<BacktestError> = None;
    let mut i: usize = 0;
    proof {
        assert(klines@.take(0) =~= Seq::<BinanceKline>::empty());
    }
    while i < klines.len()
        invariant
            0 <= i <= klines.len(),
            trader.source().wf(),
            trader.stake() == stake_size,
            trader.fee() == trading_fee,
            trace.len() <= klines.len(),
            linked::<T::Indicator>(models, klines@.take(trace.len() as int), trace),
            models[0] == start,
            models.last() == trader.source().model(),
            failure is None ==> trace.len() == i,
            failure is Some ==> i == klines.len(),
            before.run(klines@.take(trace.len() as int), trace, T::slot(), stake_size, trading_fee)
                == (match failure {
                None => Ok::<Ledger, BacktestError>(account@),
                Some(e) => Err::<Ledger, BacktestError>(e),
            }),
            account@ == before.left_by(
                klines@.take(trace.len() as int),
                trace,
                T::slot(),
                stake_size,
                trading_fee,
            ),
        decreases klines.len() - i,
    {
        let ghost source_before = trader.source().model();
        let ghost account_before = *account;
        let kline = &klines[i];
        let session = trader.next_trade_session(account, kline);
        let ghost signals = choose|signals: Seq<Action>| #[trigger]
            session_of::<T::Indicator>(
                source_before,
                trader.source().model(),
                account_before,
                *account,
                *kline,
                signals,
                T::slot(),
                stake_size,
                trading_fee,
                session,
            );
        let ghost seen = klines@.take(i as int);
        let ghost old_models = models;
        let ghost old_trace = trace;
        proof {
            models = models.push(trader.source().model());
            trace = trace.push(signals);
            let now = klines@.take(i + 1);
            assert(now.drop_last() =~= seen);
            assert(trace.drop_last() =~= old_trace);
            assert(now.last() == *kline);
            assert forall|k: int|
                0 <= k < now.len() implies <T::Indicator as BinanceIndicatorInstance>::steps(
                models[k],
                now[k],
                #[trigger] trace[k],
                models[k + 1],
            ) by {
                if k < i {
                    assert(models[k] == old_models[k]);
                    assert(models[k + 1] == old_models[k + 1]);
                    assert(now[k] == seen[k]);
                    assert(trace[k] == old_trace[k]);
                }
            }
            assert(linked::<T::Indicator>(models, now, trace));
        }
        let valued = match session {
            Ok(()) => account.mark_to_market(kline.end_time, kline.close),
            Err(e) => Err(e),
        };
        match valued {
            Ok(()) => {
                i = i + 1;
            },
            Err(e) => {
                failure = Some(e);
                i = klines.len();
            },
        }
    }
    let r = match failure {
        None => Ok(()),
        Some(e) => Err(e),
    };
    proof {
        if failure is None {
            assert(klines@.take(i as int) =~= klines@);
        }
        assert(run_of::<T::Indicator>(
            models,
            trace,
            start,
            before,
            klines@,
            T::slot(),
            stake_size,
            trading_fee,
            outcome(r, *account),
        ) && models.last() == trader.source().model() && account@ == before.left_by(
            klines@.take(trace.len() as int),
            trace,
            T::slot(),
            stake_size,
            trading_fee,
        ));
    }
    r
}

/// The state of a signal source after the bars `bars`, where each bar takes
/// it from one state to the next by `advance`.
pub open spec fn state_after<M>(
    start: M,
    bars: Seq<BinanceKline>,
    advance: spec_fn(M, BinanceKline) -> M,
) -> M
    decreases bars.len(),
{
    if bars.len() == 0 {
        start
    } else {
        advance(state_after(start, bars.drop_last(), advance), bars.last())
    }
}

/// The signals that a source gives for the bars `bars`, place by place, where
/// each bar takes it from one state to the next by `advance` and it answers a
/// bar in a state with `answer`.
pub open spec fn trace_of<M>(
    start: M,
    bars: Seq<BinanceKline>,
    advance: spec_fn(M, BinanceKline) -> M,
    answer: spec_fn(M, BinanceKline) -> Seq<Action>,
) -> Seq<Seq<Action>> {
    Seq::new(bars.len(), |i: int| answer(state_after(start, bars.take(i), advance), bars[i]))
}

/// A source whose steps are fixed by its state and the bar answers the bars
/// in one way only: with `trace_of`.
pub proof fn lemma_trace_is_fixed<I: BinanceIndicatorInstance>(
    models: Seq<I::Model>,
    bars: Seq<BinanceKline>,
    trace: Seq<Seq<Action>>,
    advance: spec_fn(I::Model, BinanceKline) -> I::Model,
    answer: spec_fn(I::Model, BinanceKline) -> Seq<Action>,
)
    requires
        linked::<I>(models, bars, trace),
        forall|before: I::Model, kline: BinanceKline, signals: Seq<Action>, after: I::Model| #[trigger]
            I::steps(before, kline, signals, after) ==> signals == answer(before, kline) && after
                == advance(before, kline),
    ensures
        trace == trace_of(models[0], bars, advance, answer),
        forall|i: int|
            0 <= i <= bars.len() ==> #[trigger] models[i] == state_after(
                models[0],
                bars.take(i),
                advance,
            ),
{
    assert forall|i: int| 0 <= i <= bars.len() implies #[trigger] models[i] == state_after(
        models[0],
        bars.take(i),
        advance,
    ) by {
        lemma_state_is_fixed::<I>(models, bars, trace, advance, answer, i);
    }
    assert forall|i: int| 0 <= i < bars.len() implies #[trigger] trace[i] == trace_of(
        models[0],
        bars,
        advance,
        answer,
    )[i] by {
        assert(I::steps(models[i], bars[i], trace[i], models[i + 1]));
    }
    assert(trace =~= trace_of(models[0], bars, advance, answer));
}

proof fn lemma_state_is_fixed<I: BinanceIndicatorInstance>(
    models: Seq<I::Model>,
    bars: Seq<BinanceKline>,
    trace: Seq<Seq<Action>>,
    advance: spec_fn(I::Model, BinanceKline) -> I::Model,
    answer: spec_fn(I::Model, BinanceKline) -> Seq<Action>,
    i: int,
)
    requires
        linked::<I>(models, bars, trace),
        forall|before: I::Model, kline: BinanceKline, signals: Seq<Action>, after: I::Model| #[trigger]
            I::steps(before, kline, signals, after) ==> signals == answer(before, kline) && after
                == advance(before, kline),
        0 <= i <= bars.len(),
    ensures
        models[i] == state_after(models[0], bars.take(i), advance),
    decreases i,
{
    if i > 0 {
        lemma_state_is_fixed::<I>(models, bars, trace, advance, answer, i - 1);
        assert(I::steps(models[i - 1], bars[i - 1], trace[i - 1], models[i]));
        assert(bars.take(i).drop_last() =~= bars.take(i - 1));
        assert(bars.take(i).last() == bars[i - 1]);
    } else {
        assert(bars.take(0).len() == 0);
    }
}

/// The signals for the first bars do not depend on the bars after them.
pub proof fn lemma_trace_of_prefix<M>(
    start: M,
    bars: Seq<BinanceKline>,
    advance: spec_fn(M, BinanceKline) -> M,
    answer: spec_fn(M, BinanceKline) -> Seq<Action>,
    n: int,
)
    requires
        0 <= n <= bars.len(),
    ensures
        trace_of(start, bars.take(n), advance, answer) == trace_of(start, bars, advance, answer).take(
            n,
        ),
{
    assert forall|i: int| 0 <= i < n implies #[trigger] trace_of(
        start,
        bars.take(n),
        advance,
        answer,
    )[i] == trace_of(start, bars, advance, answer).take(n)[i] by {
        assert(bars.take(n).take(i) =~= bars.take(i));
    }
    assert(trace_of(start, bars.take(n), advance, answer) =~= trace_of(
        start,
        bars,
        advance,
        answer,
    ).take(n));
}

/// A run that has failed stays failed: the failure over the first bars is
/// the failure over all of them.
pub proof fn lemma_failure_ends_run(
    ledger: Ledger,
    bars: Seq<BinanceKline>,
    trace: Seq<Seq<Action>>,
    slot: int,
    stake_size: StakeSize,
    trading_fee: TradingFee,
    n: int,
)
    requires
        0 <= n <= bars.len(),
        trace.len() == bars.len(),
        ledger.run(bars.take(n), trace.take(n), slot, stake_size, trading_fee) is Err,
    ensures
        ledger.run(bars, trace, slot, stake_size, trading_fee) == ledger.run(
            bars.take(n),
            trace.take(n),
            slot,
            stake_size,
            trading_fee,
        ),
    decreases bars.len() - n,
{
    if n < bars.len() {
        assert(bars.take(n + 1).drop_last() =~= bars.take(n));
        assert(trace.take(n + 1).drop_last() =~= trace.take(n));
        lemma_failure_ends_run(ledger, bars, trace, slot, stake_size, trading_fee, n + 1);
    } else {
        assert(bars.take(n) =~= bars);
        assert(trace.take(n) =~= trace);
    }
}

/// What a run from the starting account yields for a source whose steps are
/// fixed by `advance` and `answer`: `Data` where there is no bar, `Config`
/// where the strategy is not configured well, else the ledger's run over all
/// bars on the signals that the source gives.
pub open spec fn backtest_on<M>(
    bars: Seq<BinanceKline>,
    configured: bool,
    start: M,
    advance: spec_fn(M, BinanceKline) -> M,
    answer: spec_fn(M, BinanceKline) -> Seq<Action>,
    slot: int,
    stake_size: StakeSize,
    trading_fee: TradingFee,
) -> Result<Ledger, BacktestError> {
    if bars.len() == 0 {
        Err(BacktestError::Data)
    } else if !configured {
        Err(BacktestError::Config)
    } else {
        Ledger::at_start(bars).run(
            bars,
            trace_of(start, bars, advance, answer),
            slot,
            stake_size,
            trading_fee,
        )
    }
}

/// What a run from the starting account may yield for any source: `Data`
/// where there is no bar, `Config` where the strategy is not configured
/// well, else the ledger's run on whatever the source answered.
pub open spec fn backtest_of<I: BinanceIndicatorInstance>(
    bars: Seq<BinanceKline>,
    configured: bool,
    start: I::Model,
    slot: int,
    stake_size: StakeSize,
    trading_fee: TradingFee,
    result: Result<Ledger, BacktestError>,
) -> bool {
    if bars.len() == 0 {
        result == Err::<Ledger, BacktestError>(BacktestError::Data)
    } else if !configured {
        result == Err::<Ledger, BacktestError>(BacktestError::Config)
    } else {
        exists|models: Seq<I::Model>, trace: Seq<Seq<Action>>| #[trigger]
            run_of::<I>(
                models,
                trace,
                start,
                Ledger::at_start(bars),
                bars,
                slot,
                stake_size,
                trading_fee,
                result,
            )
    }
}

/// A run with a source whose steps are fixed has one outcome only: the
/// ledger's run over all bars on the signals that the source gives.
pub proof fn lemma_run_is_fixed<I: BinanceIndicatorInstance>(
    models: Seq<I::Model>,
    trace: Seq<Seq<Action>>,
    start: I::Model,
    before: Ledger,
    bars: Seq<BinanceKline>,
    slot: int,
    stake_size: StakeSize,
    trading_fee: TradingFee,
    result: Result<Ledger, BacktestError>,
    advance: spec_fn(I::Model, BinanceKline) -> I::Model,
    answer: spec_fn(I::Model, BinanceKline) -> Seq<Action>,
)
    requires
        run_of::<I>(models, trace, start, before, bars, slot, stake_size, trading_fee, result),
        forall|before: I::Model, kline: BinanceKline, signals: Seq<Action>, after: I::Model| #[trigger]
            I::steps(before, kline, signals, after) ==> signals == answer(before, kline) && after
                == advance(before, kline),
    ensures
        result == before.run(
            bars,
            trace_of(start, bars, advance, answer),
            slot,
            stake_size,
            trading_fee,
        ),
{
    let n = trace.len() as int;
    let whole = trace_of(start, bars, advance, answer);
    lemma_trace_is_fixed::<I>(models, bars.take(n), trace, advance, answer);
    lemma_trace_of_prefix(start, bars, advance, answer, n);
    assert(trace == whole.take(n));
    if result is Ok {
        assert(bars.take(n) =~= bars);
        assert(whole.take(n) =~= whole);
    } else {
        lemma_failure_ends_run(before, bars, whole, slot, stake_size, trading_fee, n);
    }
}

/// Runs `trader` on `account` over all of `klines` and hands the account
/// back, or the first failure.
pub fn run_trader<T: GenericTrader>(account: Account, trader: T, klines: &[BinanceKline]) -> (r:
    Result<Account, BacktestError>)
    requires
        trader.source().wf(),
    ensures
        exists|
            models: Seq<<T::Indicator as BinanceIndicatorInstance>::Model>,
            trace: Seq<Seq<Action>>,
        | #[trigger]
            run_of::<T::Indicator>(
                models,
                trace,
                trader.source().model(),
                account@,
                klines@,
                T::slot(),
                trader.stake(),
                trader.fee(),
                final_ledger(r),
            ),
{
    let mut account = account;
    let mut trader = trader;
    match loop_kline(&mut trader, &mut account, klines) {
        Ok(()) => Ok(account),
        Err(e) => Err(e),
    }
}

} // verus!
