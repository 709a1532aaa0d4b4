//! Signal sources: what a strategy reads from the bars.

use crate::data::BinanceKline;
use vstd::prelude::*;

pub mod average;
pub mod dca;
pub mod hodl;
pub mod sma;
pub mod sma2;

pub use dca::Dca;
pub use hodl::Hodl;
pub use sma::SmaPair;
pub use sma2::Sma2Pair;

verus! {

/// One directional signal, with its strength.
#[derive(Clone, Copy, Debug, PartialEq, Eq, Structural)]
pub enum Action {
    Buy(u8),
    Sell(u8),
    NoSignal,
}

/// A source of signals that is advanced once per bar, in bar order.
///
/// `Model` is what the source remembers between bars, as a mathematical
/// value, and `steps` says which signals and which new state a bar may lead
/// to. A source that states nothing may answer anything.
pub trait BinanceIndicatorInstance {
    type Model;

    /// What the source remembers.
    open spec fn model(&self) -> Self::Model {
        arbitrary()
    }

    /// Whether the source is in a state that it can be advanced from.
    open spec fn wf(&self) -> bool {
        true
    }

    /// Whether a source in the state `before` may answer `candle` with
    /// `signals` and be left in the state `after`.
    open spec fn steps(
        before: Self::Model,
        candle: BinanceKline,
        signals: Seq<Action>,
        after: Self::Model,
    ) -> bool {
        true
    }

    /// Advances the source by one bar and returns its signals.
    fn next_binance_kline(&mut self, candle: &BinanceKline) -> (r: Vec<Action>)
        requires
            old(self).wf(),
        ensures
            final(self).wf(),
            Self::steps(old(self).model(), *candle, r@, final(self).model()),
    ;
}

} // verus!
