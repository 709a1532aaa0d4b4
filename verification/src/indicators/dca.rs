//! Buy once a month.

use crate::calendar::{is_new_month, new_month};
use crate::data::BinanceKline;
use crate::error::BacktestError;
use crate::indicators::{Action, BinanceIndicatorInstance};
use vstd::prelude::*;

verus! {

/// The configuration of the monthly-buy source: it has no parameter.
#[derive(Clone, Copy, Debug, Default)]
pub struct Dca;

/// The monthly-buy source: it signals a buy on each bar that starts in
/// another calendar month than the bar before it, and on the first bar.
#[derive(Clone, Copy, Debug)]
pub struct DCAInstance {
    cfg: Dca,
    last_timestamp: Option<i64>,
}

impl Dca {
    /// A source that has seen no bar.
    pub fn init(self, _candle: &BinanceKline) -> (r: Result<DCAInstance, BacktestError>)
        ensures
            r is Ok,
            r->Ok_0.model() is None,
    {
        Ok(DCAInstance { cfg: self, last_timestamp: None })
    }
}

impl DCAInstance {
    /// The configuration that the source was made from.
    pub fn config(&self) -> (r: &Dca)
        ensures
            *r == Dca,
    {
        &self.cfg
    }
}

/// The signals of a monthly-buy source for `candle`, where the bar before it
/// started at `last_timestamp`: a buy where the bar opens a calendar month.
pub open spec fn dca_signals(last_timestamp: Option<i64>, candle: BinanceKline) -> Seq<Action> {
    if new_month(last_timestamp, candle.start_time) {
        seq![Action::Buy(1)]
    } else {
        seq![Action::NoSignal]
    }
}

impl BinanceIndicatorInstance for DCAInstance {
    /// The start time of the bar seen last, where a bar was seen.
    type Model = Option<i64>;

    closed spec fn model(&self) -> Option<i64> {
        self.last_timestamp
    }

    open spec fn wf(&self) -> bool {
        true
    }

    open spec fn steps(
        before: Option<i64>,
        candle: BinanceKline,
        signals: Seq<Action>,
        after: Option<i64>,
    ) -> bool {
        &&& signals == dca_signals(before, candle)
        &&& after == Some(candle.start_time)
    }

    fn next_binance_kline(&mut self, candle: &BinanceKline) -> (r: Vec<Action>) {
        let current_time = candle.start_time;
        let action = if is_new_month(self.last_timestamp, current_time) {
            Action::Buy(1)
        } else {
            Action::NoSignal
        };
        self.last_timestamp = Some(current_time);
        let mut signals: Vec<Action> = Vec::new();
        signals.push(action);
        assert(signals@ =~= dca_signals(old(self).model(), *candle));
        assert(self.model() == Some(candle.start_time));
        signals
    }
}

} // verus!
