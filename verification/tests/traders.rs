use backtester::account::{Account, BuySellIndicator, Position, TimeValue, Trade};
use backtester::data::BinanceKline;
use backtester::decimal::Decimal;
use backtester::error::BacktestError;
use backtester::indicators::{Action, BinanceIndicatorInstance, Sma2Pair, SmaPair};
use backtester::traders::{
    choose_signal, trade, DCATrader, GenericTrader, HODLTrader, MACDTrader, SMA2Trader, SMATrader,
    StakeSize, TradingFee, FIXED_STAKE,
};
use chrono::NaiveDate;

fn timestamp(year: i32, month: u32, day: u32, hour: u32) -> i64 {
    NaiveDate::from_ymd_opt(year, month, day)
        .and_then(|d| d.and_hms_opt(hour, 0, 0))
        .expect("cannot create timestamp")
        .and_utc()
        .timestamp()
}

fn amount(text: &str) -> Decimal {
    Decimal::parse(text).expect("not an amount")
}

fn bar(start_time: i64, close: &str) -> BinanceKline {
    let close = amount(close);
    BinanceKline {
        start_time,
        open: close,
        close,
        high: close,
        low: close,
        volume: amount("1"),
        end_time: start_time + 3599,
    }
}

fn new_account() -> Account {
    Account::new(amount("1000"), Position { quantity: amount("0"), cost: amount("0") }, 0)
}

fn fee() -> TradingFee {
    TradingFee::PercentageFee(amount("0.005"))
}

struct Scripted {
    next: usize,
    script: Vec<Vec<Action>>,
}

impl BinanceIndicatorInstance for Scripted {
    type Model = ();

    fn next_binance_kline(&mut self, _candle: &BinanceKline) -> Vec<Action> {
        let r = self.script[self.next].clone();
        self.next += 1;
        r
    }
}

#[test]
fn policies_refuse_what_is_not_greater_than_zero() {
    assert_eq!(StakeSize::fix_percentage(amount("1")), Ok(StakeSize::FixPercentage(amount("1"))));
    assert_eq!(StakeSize::fix_percentage(amount("0")), Err(BacktestError::Config));
    assert_eq!(StakeSize::fix_percentage(amount("-0.5")), Err(BacktestError::Config));
    assert_eq!(StakeSize::fix_amount(amount("100")), Ok(StakeSize::FixAmount(amount("100"))));
    assert_eq!(StakeSize::fix_amount(amount("0")), Err(BacktestError::Config));
    assert_eq!(StakeSize::fix_amount(amount("-100")), Err(BacktestError::Config));
    assert_eq!(
        TradingFee::percentage_fee(amount("0.005")),
        Ok(TradingFee::PercentageFee(amount("0.005")))
    );
    assert_eq!(TradingFee::percentage_fee(amount("0")), Err(BacktestError::Config));
    assert_eq!(TradingFee::percentage_fee(amount("-0.005")), Err(BacktestError::Config));
}

#[test]
fn fixed_amount_buys_the_amount_at_the_price() {
    let stake = StakeSize::FixAmount(amount("100"));
    assert_eq!(stake.quantity(amount("1000"), amount("4000")), Ok(amount("0.025")));
    assert_eq!(stake.quantity(amount("-5"), amount("4000")), Ok(amount("0.025")));
    assert_eq!(stake.quantity(amount("1000"), amount("3")), Ok(amount("33.33333333")));
    assert_eq!(stake.quantity(amount("1000"), amount("0")), Err(BacktestError::Computation));
    assert_eq!(
        stake.quantity(amount("1000"), amount("0.00000001")),
        Ok(amount("10000000000"))
    );
    assert_eq!(
        StakeSize::FixAmount(amount("1000")).quantity(amount("1"), amount("0.00000001")),
        Err(BacktestError::Computation)
    );
    assert_eq!(FIXED_STAKE, amount("100").raw());
}

#[test]
fn fixed_percentage_buys_a_share_of_the_fund_at_the_price() {
    let all = StakeSize::FixPercentage(amount("1"));
    assert_eq!(all.quantity(amount("1000"), amount("4000")), Ok(amount("0.25")));
    let half = StakeSize::FixPercentage(amount("0.5"));
    assert_eq!(half.quantity(amount("1000"), amount("3")), Ok(amount("166.66666666")));
    assert_eq!(half.quantity(amount("-1000"), amount("3")), Ok(amount("-166.66666666")));
    assert_eq!(half.quantity(amount("1000"), amount("0")), Err(BacktestError::Computation));
    assert_eq!(
        all.quantity(Decimal::from_raw(i64::MAX), amount("0.5")),
        Err(BacktestError::Computation)
    );
}

#[test]
fn percentage_fee_is_a_share_of_price_times_quantity() {
    assert_eq!(fee().fee(amount("4000"), amount("0.025")), Ok(amount("0.5")));
    assert_eq!(fee().fee(amount("20"), amount("100")), Ok(amount("10")));
    assert_eq!(fee().fee(amount("3"), amount("0.00000033")), Ok(amount("0")));
    assert_eq!(fee().fee(amount("4000"), amount("-0.025")), Ok(amount("-0.5")));
    assert_eq!(
        fee().fee(Decimal::from_raw(i64::MAX), amount("2")),
        Err(BacktestError::Computation)
    );
    assert_eq!(
        TradingFee::PercentageFee(amount("3")).fee(Decimal::from_raw(i64::MAX), amount("0.5")),
        Err(BacktestError::Computation)
    );
}

#[test]
fn the_decision_rule_reads_one_slot() {
    let signals = [Action::Buy(1), Action::Sell(2)];
    assert_eq!(choose_signal(&signals, 0), Ok(Action::Buy(1)));
    assert_eq!(choose_signal(&signals, 1), Ok(Action::Sell(2)));
    assert_eq!(choose_signal(&signals, 2), Err(BacktestError::Config));
    assert_eq!(choose_signal(&[], 0), Err(BacktestError::Config));
    assert_eq!(HODLTrader::determine_trade(&signals), Ok(Action::Buy(1)));
    assert_eq!(DCATrader::determine_trade(&signals), Ok(Action::Buy(1)));
    assert_eq!(SMATrader::determine_trade(&signals), Ok(Action::Buy(1)));
    assert_eq!(SMA2Trader::determine_trade(&signals), Ok(Action::Buy(1)));
    assert_eq!(MACDTrader::<Scripted>::determine_trade(&signals), Ok(Action::Sell(2)));
    assert_eq!(HODLTrader::determine_trade(&[]), Err(BacktestError::Config));
    assert_eq!(MACDTrader::<Scripted>::determine_trade(&signals[..1]), Err(BacktestError::Config));
}

#[test]
fn a_buy_opens_what_the_stake_gives_for_the_fee() {
    let mut account = new_account();
    let kline = bar(timestamp(2021, 11, 1, 4), "4000");
    trade(&mut account, &kline, Action::Buy(1), StakeSize::FixAmount(amount("100")), fee()).unwrap();
    assert_eq!(account.position, Position { quantity: amount("0.025"), cost: amount("4000") });
    assert_eq!(account.available_fund, amount("899.5"));
    assert_eq!(
        account.trade_history,
        vec![Trade {
            timestamp: kline.start_time,
            buy_sell_indicator: BuySellIndicator::Buy,
            quantity: amount("0.025"),
            price: amount("4000"),
            fee: amount("0.5")
        }]
    );
    assert_eq!(account.profit_and_loss_history.len(), 1);
}

#[test]
fn the_strength_of_a_signal_does_not_change_the_size() {
    let kline = bar(timestamp(2021, 11, 1, 4), "4000");
    let mut weak = new_account();
    let mut strong = new_account();
    trade(&mut weak, &kline, Action::Buy(1), StakeSize::FixAmount(amount("100")), fee()).unwrap();
    trade(&mut strong, &kline, Action::Buy(255), StakeSize::FixAmount(amount("100")), fee()).unwrap();
    assert_eq!(weak.position, strong.position);
    assert_eq!(weak.available_fund, strong.available_fund);
    assert_eq!(weak.trade_history, strong.trade_history);
}

#[test]
fn a_sale_closes_what_the_stake_gives_for_the_fee() {
    let mut account =
        Account::new(amount("1000"), Position { quantity: amount("1"), cost: amount("3000") }, 0);
    let kline = bar(timestamp(2021, 11, 1, 4), "4000");
    trade(&mut account, &kline, Action::Sell(1), StakeSize::FixAmount(amount("100")), fee()).unwrap();
    assert_eq!(account.position, Position { quantity: amount("0.975"), cost: amount("3000") });
    assert_eq!(account.available_fund, amount("1099.5"));
    assert_eq!(
        account.profit_and_loss_history.last(),
        Some(&TimeValue {
            timestamp: kline.start_time,
            realised_pnl: amount("25"),
            unrealised_pnl: amount("-25")
        })
    );
    assert_eq!(account.trade_history.len(), 1);
    assert_eq!(account.trade_history[0].buy_sell_indicator, BuySellIndicator::Sell);
}

#[test]
fn no_signal_changes_nothing() {
    let mut account = new_account();
    let kline = bar(timestamp(2021, 11, 1, 4), "4000");
    trade(&mut account, &kline, Action::NoSignal, StakeSize::FixAmount(amount("100")), fee()).unwrap();
    assert_eq!(account.available_fund, amount("1000"));
    assert_eq!(account.position.quantity, amount("0"));
    assert!(account.trade_history.is_empty());
    assert_eq!(account.profit_and_loss_history.len(), 1);
}

#[test]
fn a_trade_at_the_price_zero_is_a_computation_error() {
    let mut account = new_account();
    let kline = bar(timestamp(2021, 11, 1, 4), "0");
    let r = trade(&mut account, &kline, Action::Buy(1), StakeSize::FixAmount(amount("100")), fee());
    assert_eq!(r, Err(BacktestError::Computation));
    assert!(account.trade_history.is_empty());
    assert_eq!(account.available_fund, amount("1000"));
}

#[test]
fn a_sale_that_sells_back_all_that_a_buy_bought_is_no_error() {
    let mut account = new_account();
    let kline = bar(timestamp(2021, 11, 1, 4), "4000");
    let stake = StakeSize::FixAmount(amount("100"));
    trade(&mut account, &kline, Action::Buy(1), stake, fee()).unwrap();
    trade(&mut account, &kline, Action::Sell(1), stake, fee()).unwrap();
    assert_eq!(account.position.quantity, amount("0"));
    assert_eq!(account.available_fund, amount("999"));
    assert_eq!(
        trade(&mut account, &kline, Action::Sell(1), stake, fee()),
        Ok(())
    );
    assert_eq!(
        trade(&mut account, &kline, Action::Buy(1), stake, fee()),
        Err(BacktestError::Computation)
    );
}

#[test]
fn traders_need_a_first_bar() {
    assert_eq!(HODLTrader::new(&[], fee()).err(), Some(BacktestError::Config));
    assert_eq!(DCATrader::new(&[], fee()).err(), Some(BacktestError::Config));
    assert_eq!(SMATrader::new(&[], fee()).err(), Some(BacktestError::Config));
    assert_eq!(SMA2Trader::new(&[], fee()).err(), Some(BacktestError::Config));
    let source = Scripted { next: 0, script: vec![] };
    assert_eq!(
        MACDTrader::new(&[], source, fee(), StakeSize::FixAmount(amount("1"))).err(),
        Some(BacktestError::Config)
    );
}

#[test]
fn traders_refuse_a_fee_that_is_not_greater_than_zero() {
    let bars = [bar(timestamp(2021, 11, 1, 4), "4000"), bar(timestamp(2021, 11, 1, 5), "4000")];
    for share in ["0", "-0.005"] {
        let free = TradingFee::PercentageFee(amount(share));
        assert!(!free.is_valid());
        assert_eq!(HODLTrader::new(&bars, free).err(), Some(BacktestError::Config));
        assert_eq!(DCATrader::new(&bars, free).err(), Some(BacktestError::Config));
        assert_eq!(SMATrader::new(&bars, free).err(), Some(BacktestError::Config));
        assert_eq!(SMA2Trader::new(&bars, free).err(), Some(BacktestError::Config));
        let source = Scripted { next: 0, script: vec![] };
        assert_eq!(
            MACDTrader::new(&bars, source, free, StakeSize::FixAmount(amount("1"))).err(),
            Some(BacktestError::Config)
        );
    }
    assert!(fee().is_valid());
    for stake in [StakeSize::FixAmount(amount("0")), StakeSize::FixPercentage(amount("-1"))] {
        assert!(!stake.is_valid());
        let source = Scripted { next: 0, script: vec![] };
        assert_eq!(MACDTrader::new(&bars, source, fee(), stake).err(), Some(BacktestError::Config));
    }
    assert!(StakeSize::FixAmount(amount("0.00000001")).is_valid());
    assert!(StakeSize::FixPercentage(amount("1")).is_valid());
}

#[test]
fn traders_come_with_their_stakes() {
    let bars = [bar(timestamp(2021, 11, 1, 4), "4000"), bar(timestamp(2021, 11, 1, 5), "4000")];
    let hodl = HODLTrader::new(&bars, fee()).unwrap();
    assert_eq!(hodl.stake_size(), StakeSize::FixPercentage(amount("1")));
    assert_eq!(hodl.trading_fee(), fee());
    assert_eq!(DCATrader::new(&bars, fee()).unwrap().stake_size(), StakeSize::FixAmount(amount("100")));
    assert_eq!(SMATrader::new(&bars, fee()).unwrap().stake_size(), StakeSize::FixAmount(amount("100")));
    assert_eq!(SMA2Trader::new(&bars, fee()).unwrap().stake_size(), StakeSize::FixAmount(amount("100")));
    let source = Scripted { next: 0, script: vec![] };
    let macd = MACDTrader::new(&bars, source, fee(), StakeSize::FixAmount(amount("7"))).unwrap();
    assert_eq!(macd.stake_size(), StakeSize::FixAmount(amount("7")));
    assert_eq!(macd.trading_fee(), fee());
}

#[test]
fn windows_of_width_zero_are_refused() {
    let bars = vec![bar(timestamp(2021, 11, 1, 4), "4000"); 20];
    assert_eq!(
        SMATrader::with_windows(&bars, fee(), SmaPair::new(0, 2)).err(),
        Some(BacktestError::Config)
    );
    assert_eq!(
        SMATrader::with_windows(&bars, fee(), SmaPair::new(2, 0)).err(),
        Some(BacktestError::Config)
    );
    assert!(SMATrader::with_windows(&bars, fee(), SmaPair::new(5, 20)).is_ok());
    assert_eq!(
        SMA2Trader::with_windows(&bars, fee(), Sma2Pair::new(0, 2)).err(),
        Some(BacktestError::Config)
    );
    assert_eq!(
        SMA2Trader::with_windows(&bars, fee(), Sma2Pair::new(2, 0)).err(),
        Some(BacktestError::Config)
    );
    assert!(SMA2Trader::with_windows(&bars, fee(), Sma2Pair::new(5, 20)).is_ok());
}

#[test]
fn windows_wider_than_the_feed_are_refused() {
    let bars = vec![bar(timestamp(2021, 11, 1, 4), "4000"); 20];
    assert!(SmaPair::new(20, 20).fits(20));
    assert!(!SmaPair::new(20, 21).fits(20));
    assert!(!SmaPair::new(0, 1).fits(20));
    assert!(Sma2Pair::new(20, 1).fits(20));
    assert!(!Sma2Pair::new(21, 1).fits(20));
    assert!(!Sma2Pair::new(1, 0).fits(20));
    assert_eq!(
        SMATrader::with_windows(&bars, fee(), SmaPair::new(5, 21)).err(),
        Some(BacktestError::Config)
    );
    assert_eq!(
        SMATrader::with_windows(&bars, fee(), SmaPair::new(21, 5)).err(),
        Some(BacktestError::Config)
    );
    assert!(SMATrader::with_windows(&bars, fee(), SmaPair::new(20, 20)).is_ok());
    assert_eq!(
        SMA2Trader::with_windows(&bars, fee(), Sma2Pair::new(5, 21)).err(),
        Some(BacktestError::Config)
    );
    assert_eq!(
        SMA2Trader::with_windows(&bars, fee(), Sma2Pair::new(usize::MAX, 5)).err(),
        Some(BacktestError::Config)
    );
    assert!(SMA2Trader::with_windows(&bars, fee(), Sma2Pair::new(20, 20)).is_ok());
    assert_eq!(SMATrader::new(&bars[..1], fee()).err(), Some(BacktestError::Config));
    assert_eq!(SMA2Trader::new(&bars[..1], fee()).err(), Some(BacktestError::Config));
    assert!(SMATrader::new(&bars[..2], fee()).is_ok());
    assert!(SMA2Trader::new(&bars[..2], fee()).is_ok());
}

#[test]
fn hodl_session_buys_with_the_whole_fund_once() {
    let bars = [bar(timestamp(2021, 11, 1, 4), "4000"), bar(timestamp(2021, 11, 1, 5), "5000")];
    let mut trader = HODLTrader::new(&bars, fee()).unwrap();
    let mut account = new_account();
    trader.next_trade_session(&mut account, &bars[0]).unwrap();
    assert_eq!(account.position, Position { quantity: amount("0.25"), cost: amount("4000") });
    assert_eq!(account.available_fund, amount("-5"));
    trader.next_trade_session(&mut account, &bars[1]).unwrap();
    assert_eq!(account.position, Position { quantity: amount("0.25"), cost: amount("4000") });
    assert_eq!(account.trade_history.len(), 1);
}

#[test]
fn macd_session_acts_on_the_second_slot() {
    let bars = [bar(timestamp(2021, 11, 1, 4), "4000")];
    let source = Scripted {
        next: 0,
        script: vec![
            vec![Action::Buy(1), Action::NoSignal],
            vec![Action::NoSignal, Action::Sell(3)],
            vec![Action::Buy(1)],
            vec![],
            vec![Action::Sell(1), Action::Buy(2), Action::Sell(3)],
        ],
    };
    let mut trader = MACDTrader::new(&bars, source, fee(), StakeSize::FixAmount(amount("100"))).unwrap();
    let mut account = new_account();
    assert_eq!(trader.next_trade_session(&mut account, &bars[0]), Ok(()));
    assert!(account.trade_history.is_empty());
    assert_eq!(trader.next_trade_session(&mut account, &bars[0]), Ok(()));
    assert_eq!(account.position.quantity, amount("-0.025"));
    assert_eq!(trader.next_trade_session(&mut account, &bars[0]), Err(BacktestError::Config));
    assert_eq!(trader.next_trade_session(&mut account, &bars[0]), Err(BacktestError::Config));
    assert_eq!(account.trade_history.len(), 1);
    assert_eq!(trader.next_trade_session(&mut account, &bars[0]), Err(BacktestError::Computation));
    assert_eq!(account.trade_history.len(), 1);
    assert_eq!(trader.indicator().next, 5);
}
