//! The failures that the ledger, the traders and the orchestrator report.

use vstd::prelude::*;

verus! {

/// Why an operation of the backtester failed.
#[derive(Clone, Copy, Debug, PartialEq, Eq, Structural)]
pub enum BacktestError {
    /// The bar sequence is empty, a line of market data cannot be read, or
    /// a date does not exist.
    Data,
    /// A strategy's parameters cannot be satisfied, or its signal source
    /// does not produce the slot that its decision rule reads.
    Config,
    /// The ledger has no valuation to continue from.
    State,
    /// A result is numerically undefined: a division by zero, or an amount
    /// outside the representable range.
    Computation,
}

impl BacktestError {
    /// A short description of the failure.
    pub fn message(&self) -> (r: &'static str)
        ensures
            r@ == (match *self {
                BacktestError::Data => "invalid market data"@,
                BacktestError::Config => "invalid strategy configuration"@,
                BacktestError::State => "no valuation history"@,
                BacktestError::Computation => "numerically undefined result"@,
            }),
    {
        match self {
            BacktestError::Data => "invalid market data",
            BacktestError::Config => "invalid strategy configuration",
            BacktestError::State => "no valuation history",
            BacktestError::Computation => "numerically undefined result",
        }
    }
}

} // verus!
