//! Two rolling means of closing prices, compared once a month.

use crate::calendar::{is_new_month, new_month};
use crate::data::BinanceKline;
use crate::decimal::{divide, ratio, Decimal};
use crate::error::BacktestError;
use crate::indicators::average::{
    crossover, crossover_action, lemma_total_push, lemma_total_skip, lemma_total_wide, total,
};
use crate::indicators::{Action, BinanceIndicatorInstance};
use vstd::prelude::*;

verus! {

/// A rolling mean: it keeps the latest prices, at most as many as its window
/// is wide, and their sum.
#[derive(Clone, Debug, Default)]
pub struct Sma2 {
    window_size: usize,
    prices: Vec<Decimal>,
    sum: i128,
}

/// A rolling mean as a mathematical value: the width of the window and the
/// prices kept, oldest first.
pub struct Sma2Model {
    pub window_size: nat,
    pub prices: Seq<Decimal>,
}

impl Sma2Model {
    /// The rolling mean that has seen `value` alone.
    pub open spec fn seeded(window_size: nat, value: Decimal) -> Sma2Model {
        Sma2Model {
            window_size,
            prices: if window_size == 0 {
                Seq::empty()
            } else {
                seq![value]
            },
        }
    }

    /// The rolling mean after one more price: the price is added, and the
    /// oldest one leaves where the window is full.
    pub open spec fn updated(self, price: Decimal) -> Sma2Model {
        let pushed = self.prices.push(price);
        Sma2Model {
            window_size: self.window_size,
            prices: if pushed.len() > self.window_size {
                pushed.skip(1)
            } else {
                pushed
            },
        }
    }

    /// The mean of the prices kept, rounded toward zero to a raw unit;
    /// `None` as long as the window is not full, and for a window of width
    /// zero.
    pub open spec fn moving_average(self) -> Option<Decimal> {
        if self.prices.len() < self.window_size {
            None
        } else {
            ratio(total(self.prices), self.window_size as int)
        }
    }
}

impl View for Sma2 {
    type V = Sma2Model;

    closed spec fn view(&self) -> Sma2Model {
        Sma2Model { window_size: self.window_size as nat, prices: self.prices@ }
    }
}

impl Sma2 {
    /// Whether the sum kept is the sum of the prices kept, and no more prices
    /// are kept than the window is wide.
    pub closed spec fn wf(&self) -> bool {
        &&& self.sum == total(self.prices@)
        &&& self.prices@.len() <= self.window_size
    }

    /// A rolling mean over `window_size` prices that has seen `value`.
    pub fn new(window_size: usize, value: Decimal) -> (r: Sma2)
        ensures
            r.wf(),
            r@ == Sma2Model::seeded(window_size as nat, value),
    {
        let mut prices: Vec<Decimal> = Vec::new();
        let mut sum: i128 = 0;
        if window_size > 0 {
            prices.push(value);
            sum = value.raw as i128;
            proof {
                lemma_total_push(Seq::<Decimal>::empty(), value);
                assert(prices@ =~= Seq::<Decimal>::empty().push(value));
                assert(prices@ =~= seq![value]);
            }
        }
        Sma2 { window_size, prices, sum }
    }

    /// Takes in one more price and returns the mean.
    pub fn update_price(&mut self, price: Decimal) -> (r: Option<Decimal>)
        requires
            old(self).wf(),
        ensures
            final(self).wf(),
            final(self)@ == old(self)@.updated(price),
            r == final(self)@.moving_average(),
    {
        proof {
            lemma_total_wide(self.prices@);
            lemma_total_push(self.prices@, price);
        }
        self.prices.push(price);
        self.sum = self.sum + (price.raw as i128);
        if self.prices.len() > self.window_size {
            proof {
                lemma_total_skip(self.prices@);
                lemma_total_wide(self.prices@.skip(1));
                assert(self.prices@.remove(0) =~= self.prices@.skip(1));
            }
            let oldest = self.prices.remove(0);
            self.sum = self.sum - (oldest.raw as i128);
        }
        assert(self@ == old(self)@.updated(price));
        self.moving_average()
    }

    /// The mean of the prices kept; `None` as long as the window is not full.
    pub fn moving_average(&self) -> (r: Option<Decimal>)
        requires
            self.wf(),
        ensures
            r == self@.moving_average(),
    {
        if self.prices.len() < self.window_size {
            return None;
        }
        divide(self.sum, self.window_size as i128)
    }
}

/// The widths of a short and a long window.
#[derive(Clone, Copy, Debug, Default)]
pub struct Sma2Pair {
    short_window: usize,
    long_window: usize,
}

/// Two rolling means over the closing prices, and the start time of the bar
/// seen last.
#[derive(Clone, Debug)]
pub struct SMA2Instance {
    cfg: Sma2Pair,
    sma1: Sma2,
    sma2: Sma2,
    last_timestamp: Option<i64>,
}

/// Two rolling means and the start time of the bar seen last, where a bar
/// was seen, as a mathematical value.
pub struct SMA2Model {
    pub short: Sma2Model,
    pub long: Sma2Model,
    pub last_timestamp: Option<i64>,
}

impl SMA2Model {
    /// The state of a source with the given windows that has seen
    /// `first_value` and no bar.
    pub open spec fn seeded(short_window: nat, long_window: nat, first_value: Decimal) -> SMA2Model {
        SMA2Model {
            short: Sma2Model::seeded(short_window, first_value),
            long: Sma2Model::seeded(long_window, first_value),
            last_timestamp: None,
        }
    }

    /// The state after `candle`: both means take in its closing price.
    pub open spec fn advanced(self, candle: BinanceKline) -> SMA2Model {
        SMA2Model {
            short: self.short.updated(candle.close),
            long: self.long.updated(candle.close),
            last_timestamp: Some(candle.start_time),
        }
    }

    /// The signals for `candle`: one slot, which compares the two means after
    /// they took in its closing price, where the bar opens a calendar
    /// month.
    pub open spec fn signals(self, candle: BinanceKline) -> Seq<Action> {
        seq![
            crossover(
                !new_month(self.last_timestamp, candle.start_time),
                self.short.updated(candle.close).moving_average(),
                self.long.updated(candle.close).moving_average(),
            ),
        ]
    }
}

impl Sma2Pair {
    /// The pair of a short and a long window.
    pub fn new(short_window: usize, long_window: usize) -> (r: Sma2Pair)
        ensures
            r.short() == short_window,
            r.long() == long_window,
    {
        Sma2Pair { short_window, long_window }
    }

    /// The width of the short window.
    pub closed spec fn short(self) -> usize {
        self.short_window
    }

    /// The width of the long window.
    pub closed spec fn long(self) -> usize {
        self.long_window
    }

    /// Whether both windows have a width of one at least and of `bars` at
    /// most.
    pub fn fits(&self, bars: usize) -> (r: bool)
        ensures
            r == (1 <= self.short() <= bars && 1 <= self.long() <= bars),
    {
        1 <= self.short_window && self.short_window <= bars && 1 <= self.long_window
            && self.long_window <= bars
    }

    /// The source over these windows, seeded with the closing price of
    /// `candle`. A window of width zero is refused with `Config`.
    pub fn init(self, candle: &BinanceKline) -> (r: Result<SMA2Instance, BacktestError>)
        ensures
            (self.short() == 0 || self.long() == 0) <==> r is Err,
            r is Err ==> r->Err_0 == BacktestError::Config,
            r is Ok ==> r->Ok_0.wf() && r->Ok_0.windows() == self && r->Ok_0.model()
                == SMA2Model::seeded(self.short() as nat, self.long() as nat, candle.close),
    {
        SMA2Instance::new(self, candle.close)
    }
}

impl SMA2Instance {
    /// The source over the windows of `cfg`, seeded with `first_value`.
    /// A window of width zero is refused with `Config`.
    pub fn new(cfg: Sma2Pair, first_value: Decimal) -> (r: Result<Self, BacktestError>)
        ensures
            (cfg.short() == 0 || cfg.long() == 0) <==> r is Err,
            r is Err ==> r->Err_0 == BacktestError::Config,
            r is Ok ==> r->Ok_0.wf() && r->Ok_0.windows() == cfg && r->Ok_0.model()
                == SMA2Model::seeded(cfg.short() as nat, cfg.long() as nat, first_value),
    {
        let short_window = cfg.short_window;
        let long_window = cfg.long_window;
        if short_window == 0 || long_window == 0 {
            return Err(BacktestError::Config);
        }
        Ok(
            SMA2Instance {
                last_timestamp: None,
                cfg,
                sma1: Sma2::new(short_window, first_value),
                sma2: Sma2::new(long_window, first_value),
            },
        )
    }

    /// The windows that the source was made with.
    pub closed spec fn windows(&self) -> Sma2Pair {
        self.cfg
    }

    /// The configuration that the source was made from.
    pub fn config(&self) -> (r: &Sma2Pair)
        ensures
            *r == self.windows(),
    {
        &self.cfg
    }
}

impl BinanceIndicatorInstance for SMA2Instance {
    type Model = SMA2Model;

    closed spec fn model(&self) -> SMA2Model {
        SMA2Model { short: self.sma1@, long: self.sma2@, last_timestamp: self.last_timestamp }
    }

    closed spec fn wf(&self) -> bool {
        self.sma1.wf() && self.sma2.wf()
    }

    open spec fn steps(
        before: SMA2Model,
        candle: BinanceKline,
        signals: Seq<Action>,
        after: SMA2Model,
    ) -> bool {
        &&& signals == before.signals(candle)
        &&& after == before.advanced(candle)
    }

    fn next_binance_kline(&mut self, candle: &BinanceKline) -> (r: Vec<Action>) {
        let current_time = candle.start_time;
        let unchanged = !is_new_month(self.last_timestamp, current_time);
        self.last_timestamp = Some(current_time);

        let short_ma = self.sma1.update_price(candle.close);
        let long_ma = self.sma2.update_price(candle.close);

        let action = crossover_action(unchanged, &short_ma, &long_ma);
        let mut signals: Vec<Action> = Vec::new();
        signals.push(action);
        assert(signals@ =~= old(self).model().signals(*candle));
        assert(self.model() == old(self).model().advanced(*candle));
        assert(self.wf());
        signals
    }
}

} // verus!
