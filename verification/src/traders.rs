//! Traders: how a signal becomes a sized trade with its fee.

use crate::account::{follows, Account, Ledger};
use crate::data::BinanceKline;
use crate::decimal::{narrowed, ratio, scaled_product, Decimal, SCALE};
use crate::error::BacktestError;
use crate::indicators::{Action, BinanceIndicatorInstance};
use vstd::prelude::*;

pub mod dca_trader;
pub mod hodl_trader;
pub mod macd_trader;
pub mod sma2_trader;
pub mod sma_trader;

pub use dca_trader::DCATrader;
pub use hodl_trader::HODLTrader;
pub use macd_trader::MACDTrader;
pub use sma2_trader::SMA2Trader;
pub use sma_trader::SMATrader;

verus! {

/// The amount of money, in raw units, that the traders with a fixed stake
/// put on each signal: 100 whole units.
pub const FIXED_STAKE: i64 = 10_000_000_000;

/// How much a trader buys or sells on a signal.
#[derive(Clone, Copy, Debug, PartialEq, Eq, Structural)]
pub enum StakeSize {
    /// This share of the available fund, at the bar's closing price.
    FixPercentage(Decimal),
    /// This amount of money, at the bar's closing price.
    FixAmount(Decimal),
}

/// What a trade costs.
#[derive(Clone, Copy, Debug, PartialEq, Eq, Structural)]
pub enum TradingFee {
    /// This share of price times quantity.
    PercentageFee(Decimal),
}

impl StakeSize {
    /// Whether the share or the amount is greater than zero.
    pub open spec fn valid(self) -> bool {
        match self {
            StakeSize::FixPercentage(p) => p@ > 0,
            StakeSize::FixAmount(a) => a@ > 0,
        }
    }

    /// The quantity to trade at `price` with `available_fund` at hand, in raw
    /// units: the share of the fund, or the amount, divided by the price and
    /// rounded toward zero. `None` where the price is zero or the quantity is
    /// out of range.
    pub open spec fn quantity_for(self, available_fund: int, price: int) -> Option<Decimal> {
        match self {
            StakeSize::FixPercentage(p) => ratio(p@ * available_fund, price),
            StakeSize::FixAmount(a) => ratio(a@ * SCALE, price),
        }
    }

    /// The policy that stakes the share `share` of the available fund.
    /// A share that is not greater than zero is refused with `Config`.
    pub fn fix_percentage(share: Decimal) -> (r: Result<StakeSize, BacktestError>)
        ensures
            r == (if share@ > 0 {
                Ok::<StakeSize, BacktestError>(StakeSize::FixPercentage(share))
            } else {
                Err::<StakeSize, BacktestError>(BacktestError::Config)
            }),
    {
        if share.is_positive() {
            Ok(StakeSize::FixPercentage(share))
        } else {
            Err(BacktestError::Config)
        }
    }

    /// The policy that stakes the amount `amount` of money. An amount that is
    /// not greater than zero is refused with `Config`.
    pub fn fix_amount(amount: Decimal) -> (r: Result<StakeSize, BacktestError>)
        ensures
            r == (if amount@ > 0 {
                Ok::<StakeSize, BacktestError>(StakeSize::FixAmount(amount))
            } else {
                Err::<StakeSize, BacktestError>(BacktestError::Config)
            }),
    {
        if amount.is_positive() {
            Ok(StakeSize::FixAmount(amount))
        } else {
            Err(BacktestError::Config)
        }
    }

    /// Whether the share or the amount is greater than zero.
    pub fn is_valid(&self) -> (r: bool)
        ensures
            r == self.valid(),
    {
        match self {
            StakeSize::FixPercentage(p) => p.is_positive(),
            StakeSize::FixAmount(a) => a.is_positive(),
        }
    }

    /// The quantity to trade at `price` with `available_fund` at hand.
    /// Fails with `Computation` where the price is zero or the quantity is
    /// out of range.
    pub fn quantity(&self, available_fund: Decimal, price: Decimal) -> (r: Result<
        Decimal,
        BacktestError,
    >)
        ensures
            r == computed(self.quantity_for(available_fund@, price@)),
    {
        let numerator: i128 = match self {
            StakeSize::FixPercentage(p) => {
                proof {
                    crate::decimal::lemma_product_bound(p@, available_fund@);
                }
                (p.raw as i128) * (available_fund.raw as i128)
            },
            StakeSize::FixAmount(a) => {
                proof {
                    crate::decimal::lemma_product_bound(a@, SCALE as int);
                }
                (a.raw as i128) * (SCALE as i128)
            },
        };
        match crate::decimal::divide(numerator, price.raw as i128) {
            Some(q) => Ok(q),
            None => Err(BacktestError::Computation),
        }
    }
}

impl TradingFee {
    /// Whether the share is greater than zero.
    pub open spec fn valid(self) -> bool {
        match self {
            TradingFee::PercentageFee(r) => r@ > 0,
        }
    }

    /// The fee for trading `quantity` at `price`, in raw units: the share of
    /// price times quantity, each product rounded toward zero. `None` where
    /// price times quantity, or the fee, is out of range.
    pub open spec fn fee_for(self, price: int, quantity: int) -> Option<Decimal> {
        match self {
            TradingFee::PercentageFee(r) => match narrowed(scaled_product(price, quantity)) {
                Some(notional) => narrowed(scaled_product(r@, notional@)),
                None => None,
            },
        }
    }

    /// The fee model that charges the share `share` of price times quantity.
    /// A share that is not greater than zero is refused with `Config`.
    pub fn percentage_fee(share: Decimal) -> (r: Result<TradingFee, BacktestError>)
        ensures
            r == (if share@ > 0 {
                Ok::<TradingFee, BacktestError>(TradingFee::PercentageFee(share))
            } else {
                Err::<TradingFee, BacktestError>(BacktestError::Config)
            }),
    {
        if share.is_positive() {
            Ok(TradingFee::PercentageFee(share))
        } else {
            Err(BacktestError::Config)
        }
    }

    /// Whether the share is greater than zero.
    pub fn is_valid(&self) -> (r: bool)
        ensures
            r == self.valid(),
    {
        match self {
            TradingFee::PercentageFee(share) => share.is_positive(),
        }
    }

    /// The fee for trading `quantity` at `price`. Fails with `Computation`
    /// where price times quantity, or the fee, is out of range.
    pub fn fee(&self, price: Decimal, quantity: Decimal) -> (r: Result<Decimal, BacktestError>)
        ensures
            r == computed(self.fee_for(price@, quantity@)),
    {
        match self {
            TradingFee::PercentageFee(share) => {
                match price.checked_mul(&quantity) {
                    Some(notional) => match share.checked_mul(&notional) {
                        Some(fee) => Ok(fee),
                        None => Err(BacktestError::Computation),
                    },
                    None => Err(BacktestError::Computation),
                }
            },
        }
    }
}

/// Whether windows of the widths `short` and `long` can be filled from a feed
/// of `bars` bars: neither has the width zero, neither is wider than the
/// feed is long.
pub open spec fn windows_fit(short: nat, long: nat, bars: nat) -> bool {
    1 <= short <= bars && 1 <= long <= bars
}

/// An amount that was computed, or the failure to compute it.
pub open spec fn computed(amount: Option<Decimal>) -> Result<Decimal, BacktestError> {
    match amount {
        Some(d) => Ok(d),
        None => Err(BacktestError::Computation),
    }
}

/// The signal in the slot that a decision rule reads, or `Config` where the
/// signals have no such slot.
pub open spec fn chosen(signals: Seq<Action>, slot: int) -> Result<Action, BacktestError> {
    if 0 <= slot < signals.len() {
        Ok(signals[slot])
    } else {
        Err(BacktestError::Config)
    }
}

impl Ledger {
    /// The ledger after acting on `action` at the bar `kline`: nothing on no
    /// signal; on a buy or a sell, the quantity that `stake_size` gives for
    /// the available fund and the bar's closing price is opened or closed at
    /// that price, for the fee that `trading_fee` gives, at the bar's start
    /// time. The strength of the signal does not matter.
    pub open spec fn trade(
        self,
        kline: BinanceKline,
        action: Action,
        stake_size: StakeSize,
        trading_fee: TradingFee,
    ) -> Result<Ledger, BacktestError> {
        match action {
            Action::NoSignal => Ok(self),
            _ => match stake_size.quantity_for(self.available_fund, kline.close@) {
                None => Err(BacktestError::Computation),
                Some(quantity) => match trading_fee.fee_for(kline.close@, quantity@) {
                    None => Err(BacktestError::Computation),
                    Some(fee) => match action {
                        Action::Buy(_) => self.open(
                            kline.start_time as int,
                            quantity@,
                            kline.close@,
                            fee@,
                        ),
                        _ => self.close(kline.start_time as int, quantity@, kline.close@, fee@),
                    },
                },
            },
        }
    }

    /// The ledger after one trade session: the signal in the slot `slot` of
    /// `signals` is acted on.
    pub open spec fn session(
        self,
        kline: BinanceKline,
        signals: Seq<Action>,
        slot: int,
        stake_size: StakeSize,
        trading_fee: TradingFee,
    ) -> Result<Ledger, BacktestError> {
        match chosen(signals, slot) {
            Ok(action) => self.trade(kline, action, stake_size, trading_fee),
            Err(e) => Err(e),
        }
    }
}

/// The signal in the slot `slot` of `signals`, or `Config` where there is no
/// such slot.
pub fn choose_signal(signals: &[Action], slot: usize) -> (r: Result<Action, BacktestError>)
    ensures
        r == chosen(signals@, slot as int),
{
    if slot < signals.len() {
        Ok(signals[slot])
    } else {
        Err(BacktestError::Config)
    }
}

/// Acts on one signal at the bar `kline`.
pub fn trade(
    account: &mut Account,
    kline: &BinanceKline,
    action: Action,
    stake_size: StakeSize,
    trading_fee: TradingFee,
) -> (r: Result<(), BacktestError>)
    ensures
        follows(
            *old(account),
            *final(account),
            r,
            old(account)@.trade(*kline, action, stake_size, trading_fee),
        ),
{
    if let Action::NoSignal = action {
        return Ok(());
    }
    let quantity = match stake_size.quantity(account.available_fund, kline.close) {
        Ok(q) => q,
        Err(e) => {
            return Err(e);
        },
    };
    let fee = match trading_fee.fee(kline.close, quantity) {
        Ok(f) => f,
        Err(e) => {
            return Err(e);
        },
    };
    match action {
        Action::Buy(_) => account.open(kline.start_time, quantity, kline.close, fee),
        _ => account.close(kline.start_time, quantity, kline.close, fee),
    }
}

/// A trader: a signal source, a decision rule that reads one slot of its
/// signals, a stake size and a trading fee.
pub trait GenericTrader: Sized {
    type Indicator: BinanceIndicatorInstance;

    /// The stake size, as a value.
    spec fn stake(&self) -> StakeSize;

    /// The trading fee, as a value.
    spec fn fee(&self) -> TradingFee;

    /// The signal source, as a value.
    spec fn source(&self) -> Self::Indicator;

    /// The slot of the signals that the decision rule reads.
    spec fn slot() -> int;

    /// The stake size of the trader.
    fn stake_size(&self) -> (r: StakeSize)
        ensures
            r == self.stake(),
    ;

    /// The trading fee of the trader.
    fn trading_fee(&self) -> (r: TradingFee)
        ensures
            r == self.fee(),
    ;

    /// The signal source of the trader, to advance it. Stake size and
    /// trading fee stay as they are, whatever is done to the source.
    fn indicator(&mut self) -> (r: &mut Self::Indicator)
        ensures
            *r == old(self).source(),
            final(self).source() == *final(r),
            final(self).stake() == old(self).stake(),
            final(self).fee() == old(self).fee(),
    ;

    /// The decision rule: the signal in the slot that the trader reads, or
    /// `Config` where the signals have no such slot.
    fn determine_trade(signals: &[Action]) -> (r: Result<Action, BacktestError>)
        ensures
            r == chosen(signals@, Self::slot()),
    ;

    /// Advances the signal source by the bar `kline` and acts on the signal
    /// that the decision rule picks. Whatever the source answers, the
    /// account is left as the ledger's session on that answer says.
    fn next_trade_session(&mut self, account: &mut Account, kline: &BinanceKline) -> (r: Result<
        (),
        BacktestError,
    >)
        requires
            old(self).source().wf(),
        ensures
            final(self).source().wf(),
            final(self).stake() == old(self).stake(),
            final(self).fee() == old(self).fee(),
            exists|signals: Seq<Action>| #[trigger]
                session_of::<Self::Indicator>(
                    old(self).source().model(),
                    final(self).source().model(),
                    *old(account),
                    *final(account),
                    *kline,
                    signals,
                    Self::slot(),
                    old(self).stake(),
                    old(self).fee(),
                    r,
                ),
    {
        let signals = self.indicator().next_binance_kline(kline);
        let stake_size = self.stake_size();
        let trading_fee = self.trading_fee();
        let result = match Self::determine_trade(signals.as_slice()) {
            Ok(action) => trade(account, kline, action, stake_size, trading_fee),
            Err(e) => Err(e),
        };
        assert(session_of::<Self::Indicator>(
            old(self).source().model(),
            self.source().model(),
            *old(account),
            *account,
            *kline,
            signals@,
            Self::slot(),
            old(self).stake(),
            old(self).fee(),
            result,
        ));
        result
    }
}

/// Whether one trade session took a signal source and an account from their
/// states before to their states after with the result `result`, the source
/// having answered `signals`.
pub open spec fn session_of<I: BinanceIndicatorInstance>(
    source_before: I::Model,
    source_after: I::Model,
    account_before: Account,
    account_after: Account,
    kline: BinanceKline,
    signals: Seq<Action>,
    slot: int,
    stake_size: StakeSize,
    trading_fee: TradingFee,
    result: Result<(), BacktestError>,
) -> bool {
    &&& I::steps(source_before, kline, signals, source_after)
    &&& follows(
        account_before,
        account_after,
        result,
        account_before@.session(kline, signals, slot, stake_size, trading_fee),
    )
}

} // verus!
