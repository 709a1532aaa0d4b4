//! Buy once and hold.

use crate::data::BinanceKline;
use crate::error::BacktestError;
use crate::indicators::{Action, BinanceIndicatorInstance};
use vstd::prelude::*;

verus! {

/// The configuration of the buy-and-hold source: it has no parameter.
#[derive(Clone, Copy, Debug, Default)]
pub struct Hodl;

/// The buy-and-hold source: it signals a buy on the first bar that it sees
/// and nothing ever after.
#[derive(Clone, Copy, Debug)]
pub struct HodlInstance {
    cfg: Hodl,
    bought: bool,
}

impl Hodl {
    /// A source that has not bought yet.
    pub fn init(self, _candle: &BinanceKline) -> (r: Result<HodlInstance, BacktestError>)
        ensures
            r is Ok,
            !r->Ok_0.model(),
    {
        Ok(HodlInstance { cfg: self, bought: false })
    }
}

impl HodlInstance {
    /// The configuration that the source was made from.
    pub fn config(&self) -> (r: &Hodl)
        ensures
            *r == Hodl,
    {
        &self.cfg
    }
}

/// The signals of a buy-and-hold source that has bought or not: a buy the
/// first time, nothing after.
pub open spec fn hodl_signals(bought: bool) -> Seq<Action> {
    if bought {
        seq![Action::NoSignal]
    } else {
        seq![Action::Buy(1)]
    }
}

impl BinanceIndicatorInstance for HodlInstance {
    /// Whether the source has signalled its buy.
    type Model = bool;

    closed spec fn model(&self) -> bool {
        self.bought
    }

    open spec fn wf(&self) -> bool {
        true
    }

    open spec fn steps(before: bool, candle: BinanceKline, signals: Seq<Action>, after: bool) -> bool {
        &&& signals == hodl_signals(before)
        &&& after
    }

    fn next_binance_kline(&mut self, candle: &BinanceKline) -> (r: Vec<Action>) {
        let action = if self.bought {
            Action::NoSignal
        } else {
            Action::Buy(1)
        };
        self.bought = true;
        let mut signals: Vec<Action> = Vec::new();
        signals.push(action);
        assert(signals@ =~= hodl_signals(old(self).model()));
        assert(self.model());
        signals
    }
}

} // verus!
