//! What holds of every ledger, whatever is opened, closed and valued on it.

use crate::account::{BuySellIndicator, Ledger};
use crate::decimal::{lemma_trunc_div_error, lemma_trunc_div_exact, scaled_product, trunc_div};
use crate::error::BacktestError;
use vstd::prelude::*;

verus! {

/// One step on a ledger, in raw units.
pub enum LedgerOp {
    Open { timestamp: int, quantity: int, price: int, fee: int },
    Close { timestamp: int, quantity: int, price: int, fee: int },
    MarkToMarket { timestamp: int, closing_price: int },
}

impl LedgerOp {
    /// The quantity that the step buys.
    pub open spec fn opened(self) -> int {
        match self {
            LedgerOp::Open { quantity, .. } => quantity,
            _ => 0,
        }
    }

    /// The quantity that the step sells.
    pub open spec fn closed(self) -> int {
        match self {
            LedgerOp::Close { quantity, .. } => quantity,
            _ => 0,
        }
    }

    /// The number of valuations that the step adds.
    pub open spec fn valuations_added(self) -> nat {
        match self {
            LedgerOp::Open { .. } => 0,
            _ => 1,
        }
    }

    /// The number of trades that the step adds.
    pub open spec fn trades_added(self) -> nat {
        match self {
            LedgerOp::MarkToMarket { .. } => 0,
            _ => 1,
        }
    }

    /// The timestamp that the step carries.
    pub open spec fn timestamp(self) -> int {
        match self {
            LedgerOp::Open { timestamp, .. } => timestamp,
            LedgerOp::Close { timestamp, .. } => timestamp,
            LedgerOp::MarkToMarket { timestamp, .. } => timestamp,
        }
    }
}

/// The quantity bought over all of `ops`.
pub open spec fn opened_total(ops: Seq<LedgerOp>) -> int
    decreases ops.len(),
{
    if ops.len() == 0 {
        0
    } else {
        opened_total(ops.drop_last()) + ops.last().opened()
    }
}

/// The quantity sold over all of `ops`.
pub open spec fn closed_total(ops: Seq<LedgerOp>) -> int
    decreases ops.len(),
{
    if ops.len() == 0 {
        0
    } else {
        closed_total(ops.drop_last()) + ops.last().closed()
    }
}

/// The number of valuations that `ops` add.
pub open spec fn valuations_added_total(ops: Seq<LedgerOp>) -> nat
    decreases ops.len(),
{
    if ops.len() == 0 {
        0
    } else {
        valuations_added_total(ops.drop_last()) + ops.last().valuations_added()
    }
}

/// The number of trades that `ops` add.
pub open spec fn trades_added_total(ops: Seq<LedgerOp>) -> nat
    decreases ops.len(),
{
    if ops.len() == 0 {
        0
    } else {
        trades_added_total(ops.drop_last()) + ops.last().trades_added()
    }
}

/// Whether the valuations are in time order: none is earlier than the one
/// before it.
pub open spec fn chronological(ledger: Ledger) -> bool {
    forall|i: int, j: int|
        0 <= i <= j < ledger.valuations.len() ==> ledger.valuations[i].timestamp
            <= ledger.valuations[j].timestamp
}

/// The quantity that the recorded trades bought, less what they sold.
pub open spec fn net_bought(ledger: Ledger) -> int
    decreases ledger.trades.len(),
{
    if ledger.trades.len() == 0 {
        0
    } else {
        let rest = Ledger { trades: ledger.trades.drop_last(), ..ledger };
        let last = ledger.trades.last();
        match last.buy_sell_indicator {
            BuySellIndicator::Buy => net_bought(rest) + last.quantity,
            BuySellIndicator::Sell => net_bought(rest) - last.quantity,
        }
    }
}

impl Ledger {
    /// The ledger after one step.
    pub open spec fn apply(self, op: LedgerOp) -> Result<Ledger, BacktestError> {
        match op {
            LedgerOp::Open { timestamp, quantity, price, fee } => self.open(
                timestamp,
                quantity,
                price,
                fee,
            ),
            LedgerOp::Close { timestamp, quantity, price, fee } => self.close(
                timestamp,
                quantity,
                price,
                fee,
            ),
            LedgerOp::MarkToMarket { timestamp, closing_price } => self.mark_to_market(
                timestamp,
                closing_price,
            ),
        }
    }

    /// The ledger after all of `ops` in order, or the first failure.
    pub open spec fn apply_all(self, ops: Seq<LedgerOp>) -> Result<Ledger, BacktestError>
        decreases ops.len(),
    {
        if ops.len() == 0 {
            Ok(self)
        } else {
            match self.apply_all(ops.drop_last()) {
                Ok(ledger) => ledger.apply(ops.last()),
                Err(e) => Err(e),
            }
        }
    }
}

/// Conservation of quantity: after any steps that all succeed, the quantity
/// held is the quantity at the start, plus all that was bought, less all that
/// was sold. Nothing keeps it from going below zero.
pub proof fn law_quantity_conserved(ledger: Ledger, ops: Seq<LedgerOp>)
    requires
        ledger.apply_all(ops) is Ok,
    ensures
        ledger.apply_all(ops)->Ok_0.position.quantity == ledger.position.quantity + opened_total(
            ops,
        ) - closed_total(ops),
    decreases ops.len(),
{
    if ops.len() > 0 {
        law_quantity_conserved(ledger, ops.drop_last());
    }
}

/// The trades account for the quantity: each successful step changes the
/// quantity held and the net quantity of the recorded trades by the same
/// amount.
pub proof fn law_trades_account_for_quantity(ledger: Ledger, op: LedgerOp)
    requires
        ledger.apply(op) is Ok,
    ensures
        ledger.apply(op)->Ok_0.position.quantity - net_bought(ledger.apply(op)->Ok_0)
            == ledger.position.quantity - net_bought(ledger),
{
    let after = ledger.apply(op)->Ok_0;
    match op {
        LedgerOp::MarkToMarket { .. } => {
            lemma_net_bought_of_trades(after, ledger);
        },
        _ => {
            let rest = Ledger { trades: after.trades.drop_last(), ..after };
            assert(after.trades.drop_last() =~= ledger.trades);
            lemma_net_bought_of_trades(rest, ledger);
        },
    }
}

/// The net quantity of the trades depends on the trades alone.
pub proof fn lemma_net_bought_of_trades(a: Ledger, b: Ledger)
    requires
        a.trades == b.trades,
    ensures
        net_bought(a) == net_bought(b),
    decreases a.trades.len(),
{
    if a.trades.len() > 0 {
        lemma_net_bought_of_trades(
            Ledger { trades: a.trades.drop_last(), ..a },
            Ledger { trades: b.trades.drop_last(), ..b },
        );
    }
}

/// Weighted-average cost: a successful open leaves as cost the average of the
/// old cost and the price, weighted by the quantities, and that cost is less
/// than one raw unit away from the exact average, on the side of zero.
pub proof fn law_open_averages_cost(
    ledger: Ledger,
    timestamp: int,
    quantity: int,
    price: int,
    fee: int,
)
    requires
        ledger.open(timestamp, quantity, price, fee) is Ok,
    ensures
        ({
            let after = ledger.open(timestamp, quantity, price, fee)->Ok_0;
            let held = ledger.position.quantity + quantity;
            let value = ledger.position.quantity * ledger.position.cost + quantity * price;
            let error = value - after.position.cost * held;
            &&& held != 0
            &&& after.position.quantity == held
            &&& after.position.cost == trunc_div(value, held)
            &&& held > 0 ==> -held < error < held
            &&& held < 0 ==> held < error < -held
            &&& value >= 0 ==> error >= 0
            &&& value <= 0 ==> error <= 0
            &&& after.available_fund == ledger.available_fund - (scaled_product(price, quantity)
                + fee)
        }),
{
    let held = ledger.position.quantity + quantity;
    let value = ledger.position.quantity * ledger.position.cost + quantity * price;
    lemma_trunc_div_error(value, held);
}

/// Where the value held divides evenly by the quantity held, the cost after a
/// successful open is the exact average.
pub proof fn law_open_is_exact_where_it_divides(
    ledger: Ledger,
    timestamp: int,
    quantity: int,
    price: int,
    fee: int,
    cost: int,
)
    requires
        ledger.open(timestamp, quantity, price, fee) is Ok,
        ledger.position.quantity * ledger.position.cost + quantity * price == cost * (
        ledger.position.quantity + quantity),
    ensures
        ledger.open(timestamp, quantity, price, fee)->Ok_0.position.cost == cost,
{
    lemma_trunc_div_exact(cost, ledger.position.quantity + quantity);
}

/// An open that would leave nothing held fails with `Computation`: no cost is
/// made up for it.
pub proof fn law_open_to_nothing_fails(
    ledger: Ledger,
    timestamp: int,
    quantity: int,
    price: int,
    fee: int,
)
    requires
        ledger.position.quantity + quantity == 0,
    ensures
        ledger.open(timestamp, quantity, price, fee) == Err::<Ledger, BacktestError>(
            BacktestError::Computation,
        ),
{
}

/// The recurrence of a close: the new valuation adds the profit of the sale
/// to the realised profit and takes it from the unrealised one; the cost per
/// unit stays.
pub proof fn law_close_moves_profit(
    ledger: Ledger,
    timestamp: int,
    quantity: int,
    price: int,
    fee: int,
)
    requires
        ledger.close(timestamp, quantity, price, fee) is Ok,
    ensures
        ({
            let after = ledger.close(timestamp, quantity, price, fee)->Ok_0;
            let profit = scaled_product(quantity, price - ledger.position.cost);
            &&& ledger.valuations.len() > 0
            &&& after.valuations.last().timestamp == timestamp
            &&& after.valuations.last().realised_pnl == ledger.valuations.last().realised_pnl
                + profit
            &&& after.valuations.last().unrealised_pnl == ledger.valuations.last().unrealised_pnl
                - profit
            &&& after.valuations.last().realised_pnl + after.valuations.last().unrealised_pnl
                == ledger.valuations.last().realised_pnl + ledger.valuations.last().unrealised_pnl
            &&& after.position.cost == ledger.position.cost
            &&& after.position.quantity == ledger.position.quantity - quantity
            &&& after.available_fund == ledger.available_fund + (scaled_product(price, quantity)
                - fee)
        }),
{
}

/// The recurrence of a valuation: the new valuation holds the profit on the
/// held quantity at the closing price and the realised profit as it was;
/// fund, position and trades stay.
pub proof fn law_mark_to_market_revalues(ledger: Ledger, timestamp: int, closing_price: int)
    requires
        ledger.mark_to_market(timestamp, closing_price) is Ok,
    ensures
        ({
            let after = ledger.mark_to_market(timestamp, closing_price)->Ok_0;
            &&& ledger.valuations.len() > 0
            &&& after.valuations.last().timestamp == timestamp
            &&& after.valuations.last().unrealised_pnl == scaled_product(
                ledger.position.quantity,
                closing_price - ledger.position.cost,
            )
            &&& after.valuations.last().realised_pnl == ledger.valuations.last().realised_pnl
            &&& after.available_fund == ledger.available_fund
            &&& after.position == ledger.position
            &&& after.trades == ledger.trades
        }),
{
}

/// History growth of one step: a close or a valuation adds exactly one
/// valuation, an open none; an open or a close adds exactly one trade, a
/// valuation none. What was recorded before stays as it was, in its place.
pub proof fn law_step_appends(ledger: Ledger, op: LedgerOp)
    requires
        ledger.apply(op) is Ok,
    ensures
        ({
            let after = ledger.apply(op)->Ok_0;
            &&& after.valuations.len() == ledger.valuations.len() + op.valuations_added()
            &&& after.trades.len() == ledger.trades.len() + op.trades_added()
            &&& after.valuations.subrange(0, ledger.valuations.len() as int) == ledger.valuations
            &&& after.trades.subrange(0, ledger.trades.len() as int) == ledger.trades
        }),
{
    let after = ledger.apply(op)->Ok_0;
    assert(after.valuations.subrange(0, ledger.valuations.len() as int) =~= ledger.valuations);
    assert(after.trades.subrange(0, ledger.trades.len() as int) =~= ledger.trades);
}

/// History growth of any steps that all succeed: the histories grow by what
/// the steps add, one by one, and nothing recorded is changed or removed.
pub proof fn law_histories_append_only(ledger: Ledger, ops: Seq<LedgerOp>)
    requires
        ledger.apply_all(ops) is Ok,
    ensures
        ({
            let after = ledger.apply_all(ops)->Ok_0;
            &&& after.valuations.len() == ledger.valuations.len() + valuations_added_total(ops)
            &&& after.trades.len() == ledger.trades.len() + trades_added_total(ops)
            &&& after.valuations.subrange(0, ledger.valuations.len() as int) == ledger.valuations
            &&& after.trades.subrange(0, ledger.trades.len() as int) == ledger.trades
        }),
    decreases ops.len(),
{
    let after = ledger.apply_all(ops)->Ok_0;
    if ops.len() == 0 {
        assert(after.valuations.subrange(0, ledger.valuations.len() as int) =~= ledger.valuations);
        assert(after.trades.subrange(0, ledger.trades.len() as int) =~= ledger.trades);
    } else {
        law_histories_append_only(ledger, ops.drop_last());
        let middle = ledger.apply_all(ops.drop_last())->Ok_0;
        law_step_appends(middle, ops.last());
        assert(after.valuations.subrange(0, ledger.valuations.len() as int)
            =~= middle.valuations.subrange(0, ledger.valuations.len() as int)) by {
            assert(middle.valuations =~= after.valuations.subrange(
                0,
                middle.valuations.len() as int,
            ));
        }
        assert(after.trades.subrange(0, ledger.trades.len() as int) =~= middle.trades.subrange(
            0,
            ledger.trades.len() as int,
        )) by {
            assert(middle.trades =~= after.trades.subrange(0, middle.trades.len() as int));
        }
    }
}

/// A ledger that has a valuation keeps having one: no step on it fails for
/// want of a valuation.
pub proof fn law_valuations_never_empty(ledger: Ledger, op: LedgerOp)
    requires
        ledger.valuations.len() > 0,
    ensures
        ledger.apply(op) != Err::<Ledger, BacktestError>(BacktestError::State),
        ledger.apply(op) is Ok ==> ledger.apply(op)->Ok_0.valuations.len() > 0,
{
}

/// Time order: a step whose timestamp is not earlier than the last valuation
/// keeps the valuations in time order.
pub proof fn law_step_keeps_time_order(ledger: Ledger, op: LedgerOp)
    requires
        chronological(ledger),
        ledger.apply(op) is Ok,
        ledger.valuations.len() > 0 ==> ledger.valuations.last().timestamp <= op.timestamp(),
    ensures
        chronological(ledger.apply(op)->Ok_0),
{
}

} // verus!
