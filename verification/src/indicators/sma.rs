//! Two means over full windows of closing prices, compared once a month.

use crate::calendar::{is_new_month, new_month};
use crate::data::BinanceKline;
use crate::decimal::Decimal;
use crate::error::BacktestError;
use crate::indicators::average::{crossover, crossover_action, lemma_mean_exists, mean, mean_of};
use crate::indicators::{Action, BinanceIndicatorInstance};
use vstd::prelude::*;

verus! {

/// A mean over a window that is always full: it starts out filled with one
/// value, and each new value pushes the oldest one out.
#[derive(Clone, Debug)]
pub struct Sma {
    window: Vec<Decimal>,
}

/// The window after one more value: the oldest value leaves, the new one
/// comes last.
pub open spec fn rolled(window: Seq<Decimal>, value: Decimal) -> Seq<Decimal> {
    window.skip(1).push(value)
}

impl View for Sma {
    type V = Seq<Decimal>;

    /// The values in the window, oldest first.
    closed spec fn view(&self) -> Seq<Decimal> {
        self.window@
    }
}

impl Sma {
    /// Whether the window holds a value.
    pub open spec fn wf(&self) -> bool {
        self@.len() > 0
    }

    /// A mean over `length` values, the window filled with `value`.
    /// A window of width zero is refused with `Config`.
    pub fn new(length: u8, value: Decimal) -> (r: Result<Sma, BacktestError>)
        ensures
            length == 0 <==> r is Err,
            r is Err ==> r->Err_0 == BacktestError::Config,
            r is Ok ==> r->Ok_0@ == Seq::new(length as nat, |i: int| value),
    {
        if length == 0 {
            return Err(BacktestError::Config);
        }
        let mut window: Vec<Decimal> = Vec::new();
        let mut i: u8 = 0;
        while i < length
            invariant
                0 <= i <= length,
                window@ == Seq::new(i as nat, |k: int| value),
            decreases length - i,
        {
            window.push(value);
            i = i + 1;
            assert(window@ =~= Seq::new(i as nat, |k: int| value));
        }
        Ok(Sma { window })
    }

    /// Takes in one more value and returns the mean of the window, computed
    /// anew from all its values.
    pub fn next(&mut self, value: Decimal) -> (r: Decimal)
        requires
            old(self).wf(),
        ensures
            final(self).wf(),
            final(self)@ == rolled(old(self)@, value),
            mean(final(self)@) == Some(r),
    {
        let _ = self.window.remove(0);
        self.window.push(value);
        assert(self.window@ =~= rolled(old(self)@, value));
        proof {
            lemma_mean_exists(self.window@);
        }
        match mean_of(&self.window) {
            Some(m) => m,
            None => value,
        }
    }
}

/// The widths of a short and a long window.
#[derive(Clone, Copy, Debug)]
pub struct SmaPair {
    short_window: u8,
    long_window: u8,
}

/// Two means over the closing prices, and the start time of the bar seen
/// last.
#[derive(Clone, Debug)]
pub struct SMAInstance {
    cfg: SmaPair,
    sma1: Sma,
    sma2: Sma,
    last_timestamp: Option<i64>,
}

/// Two windows and the start time of the bar seen last, where a bar was
/// seen, as a mathematical value.
pub struct SMAModel {
    pub short: Seq<Decimal>,
    pub long: Seq<Decimal>,
    pub last_timestamp: Option<i64>,
}

impl SMAModel {
    /// The state of a source with the given windows, both filled with
    /// `first_value`, that has seen no bar.
    pub open spec fn seeded(short_window: nat, long_window: nat, first_value: Decimal) -> SMAModel {
        SMAModel {
            short: Seq::new(short_window, |i: int| first_value),
            long: Seq::new(long_window, |i: int| first_value),
            last_timestamp: None,
        }
    }

    /// The state after `candle`: both windows take in its closing price.
    pub open spec fn advanced(self, candle: BinanceKline) -> SMAModel {
        SMAModel {
            short: rolled(self.short, candle.close),
            long: rolled(self.long, candle.close),
            last_timestamp: Some(candle.start_time),
        }
    }

    /// The signals for `candle`: one slot, which compares the means of the
    /// two windows after they took in its closing price, where the bar
    /// opens a calendar month.
    pub open spec fn signals(self, candle: BinanceKline) -> Seq<Action> {
        seq![
            crossover(
                !new_month(self.last_timestamp, candle.start_time),
                mean(rolled(self.short, candle.close)),
                mean(rolled(self.long, candle.close)),
            ),
        ]
    }
}

impl SmaPair {
    /// The pair of a short and a long window.
    pub fn new(short_window: u8, long_window: u8) -> (r: SmaPair)
        ensures
            r.short() == short_window,
            r.long() == long_window,
    {
        SmaPair { short_window, long_window }
    }

    /// The width of the short window.
    pub closed spec fn short(self) -> u8 {
        self.short_window
    }

    /// The width of the long window.
    pub closed spec fn long(self) -> u8 {
        self.long_window
    }

    /// Whether both windows have a width of one at least and of `bars` at
    /// most.
    pub fn fits(&self, bars: usize) -> (r: bool)
        ensures
            r == (1 <= self.short() <= bars && 1 <= self.long() <= bars),
    {
        1 <= self.short_window && self.short_window as usize <= bars && 1 <= self.long_window
            && self.long_window as usize <= bars
    }

    /// The source over these windows, both filled with the closing price of
    /// `candle`. A window of width zero is refused with `Config`.
    pub fn init(self, candle: &BinanceKline) -> (r: Result<SMAInstance, BacktestError>)
        ensures
            (self.short() == 0 || self.long() == 0) <==> r is Err,
            r is Err ==> r->Err_0 == BacktestError::Config,
            r is Ok ==> r->Ok_0.wf() && r->Ok_0.windows() == self && r->Ok_0.model()
                == SMAModel::seeded(self.short() as nat, self.long() as nat, candle.close),
    {
        SMAInstance::new(self, candle.close)
    }
}

impl SMAInstance {
    /// The source over the windows of `cfg`, both filled with `first_value`.
    /// A window of width zero is refused with `Config`.
    pub fn new(cfg: SmaPair, first_value: Decimal) -> (r: Result<Self, BacktestError>)
        ensures
            (cfg.short() == 0 || cfg.long() == 0) <==> r is Err,
            r is Err ==> r->Err_0 == BacktestError::Config,
            r is Ok ==> r->Ok_0.wf() && r->Ok_0.windows() == cfg && r->Ok_0.model()
                == SMAModel::seeded(cfg.short() as nat, cfg.long() as nat, first_value),
    {
        let short_window = cfg.short_window;
        let long_window = cfg.long_window;
        let sma1 = match Sma::new(short_window, first_value) {
            Ok(s) => s,
            Err(e) => {
                return Err(e);
            },
        };
        let sma2 = match Sma::new(long_window, first_value) {
            Ok(s) => s,
            Err(e) => {
                return Err(e);
            },
        };
        Ok(SMAInstance { last_timestamp: None, cfg, sma1, sma2 })
    }

    /// The windows that the source was made with.
    pub closed spec fn windows(&self) -> SmaPair {
        self.cfg
    }

    /// The configuration that the source was made from.
    pub fn config(&self) -> (r: &SmaPair)
        ensures
            *r == self.windows(),
    {
        &self.cfg
    }
}

impl BinanceIndicatorInstance for SMAInstance {
    type Model = SMAModel;

    closed spec fn model(&self) -> SMAModel {
        SMAModel { short: self.sma1@, long: self.sma2@, last_timestamp: self.last_timestamp }
    }

    closed spec fn wf(&self) -> bool {
        self.sma1.wf() && self.sma2.wf()
    }

    open spec fn steps(
        before: SMAModel,
        candle: BinanceKline,
        signals: Seq<Action>,
        after: SMAModel,
    ) -> bool {
        &&& signals == before.signals(candle)
        &&& after == before.advanced(candle)
    }

    fn next_binance_kline(&mut self, candle: &BinanceKline) -> (r: Vec<Action>) {
        let current_time = candle.start_time;
        let unchanged = !is_new_month(self.last_timestamp, current_time);
        self.last_timestamp = Some(current_time);

        let short_ma = Some(self.sma1.next(candle.close));
        let long_ma = Some(self.sma2.next(candle.close));

        let action = crossover_action(unchanged, &short_ma, &long_ma);
        let mut signals: Vec<Action> = Vec::new();
        signals.push(action);
        assert(signals@ =~= old(self).model().signals(*candle));
        assert(self.model() == old(self).model().advanced(*candle));
        assert(self.wf());
        signals
    }
}

} // verus!
