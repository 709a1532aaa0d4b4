//! The ledger of one strategy run: funds, one position, and the two
//! append-only histories of trades and valuations.
//!
//! The mutators of [`Account`] are stated against [`Ledger`], the same
//! bookkeeping over unbounded integers. Each either fails and leaves the
//! account as it was, or succeeds and leaves it as the ledger says.

use crate::decimal::{
    divide, fits, lemma_product_bound, narrow, scale_down, scaled_product, trunc_div, Decimal,
};
use crate::error::BacktestError;
use vstd::prelude::*;

verus! {

/// The quantity held and its average cost per unit.
#[derive(Clone, Copy, Debug, PartialEq, Eq, Structural)]
pub struct Position {
    pub quantity: Decimal,
    pub cost: Decimal,
}

/// One valuation of the account: the profit locked in by closes so far, and
/// the profit on what is still held.
#[derive(Clone, Copy, Debug, PartialEq, Eq, Structural)]
pub struct TimeValue {
    /// Seconds since the Unix epoch.
    pub timestamp: i64,
    pub realised_pnl: Decimal,
    pub unrealised_pnl: Decimal,
}

/// The side of a trade.
#[derive(Clone, Copy, Debug, PartialEq, Eq, Structural)]
pub enum BuySellIndicator {
    Buy,
    Sell,
}

/// The record of one executed trade.
#[derive(Clone, Copy, Debug, PartialEq, Eq, Structural)]
pub struct Trade {
    /// Seconds since the Unix epoch.
    pub timestamp: i64,
    pub buy_sell_indicator: BuySellIndicator,
    pub quantity: Decimal,
    pub price: Decimal,
    pub fee: Decimal,
}

/// The account of one strategy run.
#[derive(Debug)]
pub struct Account {
    pub available_fund: Decimal,
    pub position: Position,
    pub profit_and_loss_history: Vec<TimeValue>,
    pub trade_history: Vec<Trade>,
}

/// A position in raw units.
pub struct PositionModel {
    pub quantity: int,
    pub cost: int,
}

/// A valuation in raw units.
pub struct TimeValueModel {
    pub timestamp: int,
    pub realised_pnl: int,
    pub unrealised_pnl: int,
}

/// A trade in raw units.
pub struct TradeModel {
    pub timestamp: int,
    pub buy_sell_indicator: BuySellIndicator,
    pub quantity: int,
    pub price: int,
    pub fee: int,
}

/// The account as a mathematical value: what [`Account`] holds, in raw units.
pub struct Ledger {
    pub available_fund: int,
    pub position: PositionModel,
    pub valuations: Seq<TimeValueModel>,
    pub trades: Seq<TradeModel>,
}

impl View for Position {
    type V = PositionModel;

    open spec fn view(&self) -> PositionModel {
        PositionModel { quantity: self.quantity@, cost: self.cost@ }
    }
}

impl View for TimeValue {
    type V = TimeValueModel;

    open spec fn view(&self) -> TimeValueModel {
        TimeValueModel {
            timestamp: self.timestamp as int,
            realised_pnl: self.realised_pnl@,
            unrealised_pnl: self.unrealised_pnl@,
        }
    }
}

impl View for Trade {
    type V = TradeModel;

    open spec fn view(&self) -> TradeModel {
        TradeModel {
            timestamp: self.timestamp as int,
            buy_sell_indicator: self.buy_sell_indicator,
            quantity: self.quantity@,
            price: self.price@,
            fee: self.fee@,
        }
    }
}

impl View for Account {
    type V = Ledger;

    open spec fn view(&self) -> Ledger {
        Ledger {
            available_fund: self.available_fund@,
            position: self.position@,
            valuations: self.profit_and_loss_history@.map_values(|v: TimeValue| v@),
            trades: self.trade_history@.map_values(|t: Trade| t@),
        }
    }
}

impl Ledger {
    /// The ledger of a new account: the given fund and position, no trade,
    /// and one valuation at `start_timestamp` with no profit or loss.
    pub open spec fn seeded(fund: int, position: PositionModel, start_timestamp: int) -> Ledger {
        Ledger {
            available_fund: fund,
            position,
            valuations: seq![
                TimeValueModel { timestamp: start_timestamp, realised_pnl: 0, unrealised_pnl: 0 },
            ],
            trades: Seq::empty(),
        }
    }

    /// The cost per unit after `quantity` more units are bought at `price`:
    /// the average of the old cost and the price, weighted by quantity and
    /// rounded toward zero to a raw unit.
    pub open spec fn average_cost(self, quantity: int, price: int) -> int
        recommends
            self.position.quantity + quantity != 0,
    {
        trunc_div(
            self.position.quantity * self.position.cost + quantity * price,
            self.position.quantity + quantity,
        )
    }

    /// The profit that selling `quantity` units at `price` locks in.
    pub open spec fn closing_profit(self, quantity: int, price: int) -> int {
        scaled_product(quantity, price - self.position.cost)
    }

    /// The profit on the held quantity at `closing_price`.
    pub open spec fn open_profit(self, closing_price: int) -> int {
        scaled_product(self.position.quantity, closing_price - self.position.cost)
    }

    /// Buying `quantity` units at `price` for the fee `fee`.
    ///
    /// Fails with `Computation` where the quantity held afterwards is zero
    /// (the average cost is then undefined) or where the new quantity, cost
    /// or fund is out of range.
    pub open spec fn open(self, timestamp: int, quantity: int, price: int, fee: int) -> Result<
        Ledger,
        BacktestError,
    > {
        let held = self.position.quantity + quantity;
        let cost = self.average_cost(quantity, price);
        let fund = self.available_fund - (scaled_product(price, quantity) + fee);
        if held == 0 || !fits(held) || !fits(cost) || !fits(fund) {
            Err(BacktestError::Computation)
        } else {
            Ok(
                Ledger {
                    available_fund: fund,
                    position: PositionModel { quantity: held, cost },
                    valuations: self.valuations,
                    trades: self.trades.push(
                        TradeModel {
                            timestamp,
                            buy_sell_indicator: BuySellIndicator::Buy,
                            quantity,
                            price,
                            fee,
                        },
                    ),
                },
            )
        }
    }

    /// Selling `quantity` units at `price` for the fee `fee`.
    ///
    /// Fails with `State` where there is no valuation to continue from, and
    /// with `Computation` where the new profits, quantity or fund are out of
    /// range.
    pub open spec fn close(self, timestamp: int, quantity: int, price: int, fee: int) -> Result<
        Ledger,
        BacktestError,
    > {
        if self.valuations.len() == 0 {
            Err(BacktestError::State)
        } else {
            let last = self.valuations.last();
            let profit = self.closing_profit(quantity, price);
            let realised = last.realised_pnl + profit;
            let unrealised = last.unrealised_pnl - profit;
            let held = self.position.quantity - quantity;
            let fund = self.available_fund + (scaled_product(price, quantity) - fee);
            if !fits(realised) || !fits(unrealised) || !fits(held) || !fits(fund) {
                Err(BacktestError::Computation)
            } else {
                Ok(
                    Ledger {
                        available_fund: fund,
                        position: PositionModel { quantity: held, cost: self.position.cost },
                        valuations: self.valuations.push(
                            TimeValueModel {
                                timestamp,
                                realised_pnl: realised,
                                unrealised_pnl: unrealised,
                            },
                        ),
                        trades: self.trades.push(
                            TradeModel {
                                timestamp,
                                buy_sell_indicator: BuySellIndicator::Sell,
                                quantity,
                                price,
                                fee,
                            },
                        ),
                    },
                )
            }
        }
    }

    /// Valuing the held quantity at `closing_price`.
    ///
    /// Fails with `State` where there is no valuation to continue from, and
    /// with `Computation` where the profit on the position is out of range.
    pub open spec fn mark_to_market(self, timestamp: int, closing_price: int) -> Result<
        Ledger,
        BacktestError,
    > {
        if self.valuations.len() == 0 {
            Err(BacktestError::State)
        } else {
            let unrealised = self.open_profit(closing_price);
            if !fits(unrealised) {
                Err(BacktestError::Computation)
            } else {
                Ok(
                    Ledger {
                        valuations: self.valuations.push(
                            TimeValueModel {
                                timestamp,
                                realised_pnl: self.valuations.last().realised_pnl,
                                unrealised_pnl: unrealised,
                            },
                        ),
                        ..self
                    },
                )
            }
        }
    }
}

/// How a mutator leaves an account, given what the ledger says of the same
/// step: on a failure the account is untouched and the same error is
/// returned; on a success the account is the ledger's result.
pub open spec fn follows(
    before: Account,
    after: Account,
    result: Result<(), BacktestError>,
    model: Result<Ledger, BacktestError>,
) -> bool {
    match model {
        Ok(ledger) => result == Ok::<(), BacktestError>(()) && after@ == ledger,
        Err(e) => result == Err::<(), BacktestError>(e) && after == before,
    }
}

impl Account {
    /// An account with the given fund and position, no trade, and one
    /// valuation at `start_timestamp` with no profit or loss.
    pub fn new(fund: Decimal, initial_position: Position, start_timestamp: i64) -> (r: Account)
        ensures
            r@ == Ledger::seeded(fund@, initial_position@, start_timestamp as int),
    {
        let initial_pnl = TimeValue {
            timestamp: start_timestamp,
            realised_pnl: Decimal::zero(),
            unrealised_pnl: Decimal::zero(),
        };
        let mut history: Vec<TimeValue> = Vec::new();
        history.push(initial_pnl);
        let r = Account {
            available_fund: fund,
            position: initial_position,
            profit_and_loss_history: history,
            trade_history: Vec::new(),
        };
        proof {
            let seeded = Ledger::seeded(fund@, initial_position@, start_timestamp as int);
            assert(r@.valuations =~= seeded.valuations);
            assert(r@.trades =~= seeded.trades);
        }
        r
    }

    /// Buys `quantity` units at `price`: the cost becomes the weighted
    /// average, the fund pays price times quantity plus the fee, and a buy is
    /// recorded. No valuation is added.
    pub fn open(&mut self, timestamp: i64, quantity: Decimal, price: Decimal, fee: Decimal) -> (r:
        Result<(), BacktestError>)
        ensures
            follows(
                *old(self),
                *final(self),
                r,
                old(self)@.open(timestamp as int, quantity@, price@, fee@),
            ),
    {
        let held_before: i128 = self.position.quantity.raw as i128;
        let cost_before: i128 = self.position.cost.raw as i128;
        let bought: i128 = quantity.raw as i128;
        let paid: i128 = price.raw as i128;
        let combined: i128 = held_before + bought;
        if combined == 0 {
            return Err(BacktestError::Computation);
        }
        let new_quantity = match narrow(combined) {
            Some(d) => d,
            None => {
                return Err(BacktestError::Computation);
            },
        };
        proof {
            lemma_product_bound(held_before as int, cost_before as int);
            lemma_product_bound(bought as int, paid as int);
            lemma_product_bound(paid as int, bought as int);
        }
        let numerator: i128 = held_before * cost_before + bought * paid;
        let new_cost = match divide(numerator, combined) {
            Some(d) => d,
            None => {
                return Err(BacktestError::Computation);
            },
        };
        let notional: i128 = scale_down(paid * bought);
        let new_fund = match narrow((self.available_fund.raw as i128) - (notional + (fee.raw as i128))) {
            Some(d) => d,
            None => {
                return Err(BacktestError::Computation);
            },
        };
        self.position = Position { quantity: new_quantity, cost: new_cost };
        self.available_fund = new_fund;
        self.trade_history.push(
            Trade { timestamp, buy_sell_indicator: BuySellIndicator::Buy, quantity, price, fee },
        );
        proof {
            let model = old(self)@.open(timestamp as int, quantity@, price@, fee@);
            assert(model is Ok);
            assert(self@.trades =~= model->Ok_0.trades);
            assert(self@.valuations =~= model->Ok_0.valuations);
        }
        Ok(())
    }

    /// Sells `quantity` units at `price`: a valuation is added that moves the
    /// locked-in profit from unrealised to realised, the quantity held goes
    /// down (below zero where more is sold than held), the cost stays, the
    /// fund receives price times quantity less the fee, and a sale is
    /// recorded.
    pub fn close(&mut self, timestamp: i64, quantity: Decimal, price: Decimal, fee: Decimal) -> (r:
        Result<(), BacktestError>)
        ensures
            follows(
                *old(self),
                *final(self),
                r,
                old(self)@.close(timestamp as int, quantity@, price@, fee@),
            ),
    {
        let n = self.profit_and_loss_history.len();
        if n == 0 {
            return Err(BacktestError::State);
        }
        let last_pnl = self.profit_and_loss_history[n - 1];
        assert(last_pnl@ == self@.valuations.last());
        let sold: i128 = quantity.raw as i128;
        let paid: i128 = price.raw as i128;
        let margin: i128 = paid - (self.position.cost.raw as i128);
        proof {
            lemma_wide_product_bound(sold as int, margin as int);
            lemma_product_bound(paid as int, sold as int);
        }
        let current_pnl: i128 = scale_down(sold * margin);
        let realised_pnl = match narrow((last_pnl.realised_pnl.raw as i128) + current_pnl) {
            Some(d) => d,
            None => {
                return Err(BacktestError::Computation);
            },
        };
        let unrealised_pnl = match narrow((last_pnl.unrealised_pnl.raw as i128) - current_pnl) {
            Some(d) => d,
            None => {
                return Err(BacktestError::Computation);
            },
        };
        let new_quantity = match narrow((self.position.quantity.raw as i128) - sold) {
            Some(d) => d,
            None => {
                return Err(BacktestError::Computation);
            },
        };
        let notional: i128 = scale_down(paid * sold);
        let new_fund = match narrow((self.available_fund.raw as i128) + (notional - (fee.raw as i128))) {
            Some(d) => d,
            None => {
                return Err(BacktestError::Computation);
            },
        };
        self.profit_and_loss_history.push(TimeValue { timestamp, realised_pnl, unrealised_pnl });
        self.position.quantity = new_quantity;
        self.available_fund = new_fund;
        self.trade_history.push(
            Trade { timestamp, buy_sell_indicator: BuySellIndicator::Sell, quantity, price, fee },
        );
        proof {
            let model = old(self)@.close(timestamp as int, quantity@, price@, fee@);
            assert(model is Ok);
            assert(self@.trades =~= model->Ok_0.trades);
            assert(self@.valuations =~= model->Ok_0.valuations);
        }
        Ok(())
    }

    /// Values the position at `closing_price`: a valuation is added with the
    /// profit on the held quantity and the realised profit as it was. Funds,
    /// position and trades stay.
    pub fn mark_to_market(&mut self, timestamp: i64, closing_price: Decimal) -> (r: Result<
        (),
        BacktestError,
    >)
        ensures
            follows(
                *old(self),
                *final(self),
                r,
                old(self)@.mark_to_market(timestamp as int, closing_price@),
            ),
    {
        let n = self.profit_and_loss_history.len();
        if n == 0 {
            return Err(BacktestError::State);
        }
        let last_pnl = self.profit_and_loss_history[n - 1];
        assert(last_pnl@ == self@.valuations.last());
        let held: i128 = self.position.quantity.raw as i128;
        let margin: i128 = (closing_price.raw as i128) - (self.position.cost.raw as i128);
        proof {
            lemma_wide_product_bound(held as int, margin as int);
        }
        let unrealised_pnl = match narrow(scale_down(held * margin)) {
            Some(d) => d,
            None => {
                return Err(BacktestError::Computation);
            },
        };
        self.profit_and_loss_history.push(
            TimeValue { timestamp, unrealised_pnl, realised_pnl: last_pnl.realised_pnl },
        );
        proof {
            let model = old(self)@.mark_to_market(timestamp as int, closing_price@);
            assert(model is Ok);
            assert(self@.trades =~= model->Ok_0.trades);
            assert(self@.valuations =~= model->Ok_0.valuations);
        }
        Ok(())
    }
}

/// The product of a raw value and a difference of two raw values stays inside
/// the 128-bit range.
proof fn lemma_wide_product_bound(a: int, b: int)
    requires
        fits(a),
        -0xffff_ffff_ffff_ffff <= b <= 0xffff_ffff_ffff_ffff,
    ensures
        i128::MIN < a * b <= i128::MAX,
{
    let m: int = 0x8000_0000_0000_0000;
    let w: int = 0xffff_ffff_ffff_ffff;
    assert(m * w < 0x7fff_ffff_ffff_ffff_ffff_ffff_ffff_ffff) by (nonlinear_arith)
        requires
            m == 0x8000_0000_0000_0000,
            w == 0xffff_ffff_ffff_ffff,
    ;
    assert(-(m * w) <= a * b <= m * w) by (nonlinear_arith)
        requires
            -m <= a <= m,
            -w <= b <= w,
            m > 0,
            w > 0,
    ;
}

} // verus!
