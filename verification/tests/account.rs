use backtester::account::{Account, BuySellIndicator, Position, TimeValue, Trade};
use backtester::decimal::Decimal;
use backtester::error::BacktestError;
use chrono::NaiveDate;

fn create_timestamp(year: i32, month: u32, day: u32) -> i64 {
    NaiveDate::from_ymd_opt(year, month, day)
        .and_then(|d| d.and_hms_opt(0, 0, 0))
        .expect("Cannot create timestamp")
        .and_utc()
        .timestamp()
}

fn amount(text: &str) -> Decimal {
    Decimal::parse(text).expect("not an amount")
}

fn account(fund: &str, quantity: &str, cost: &str) -> Account {
    Account::new(
        amount(fund),
        Position { quantity: amount(quantity), cost: amount(cost) },
        create_timestamp(2021, 9, 1),
    )
}

#[test]
fn test_has_position() {
    let initial_position = Position { quantity: amount("123.1"), cost: amount("10.0") };
    let start_timestamp = create_timestamp(2021, 9, 1);
    let account = Account::new(amount("1000.0"), initial_position, start_timestamp);
    assert_eq!(account.position.quantity, amount("123.1"));
}

#[test]
fn test_open() {
    let initial_position = Position { quantity: amount("100.0"), cost: amount("10.0") };
    let start_timestamp = create_timestamp(2021, 9, 1);
    let mut account = Account::new(amount("7000.0"), initial_position, start_timestamp);
    let timestamp = create_timestamp(2021, 10, 31);
    account.open(timestamp, amount("100.0"), amount("20.0"), amount("0.02")).unwrap();
    assert_eq!(account.position, Position { cost: amount("15.0"), quantity: amount("200.0") });
    assert_eq!(amount("4999.98"), account.available_fund);
    assert_eq!(
        vec![Trade {
            timestamp: create_timestamp(2021, 10, 31),
            buy_sell_indicator: BuySellIndicator::Buy,
            quantity: amount("100.0"),
            price: amount("20.0"),
            fee: amount("0.02")
        }],
        account.trade_history
    );
}

#[test]
fn test_close() {
    let initial_position = Position { quantity: amount("100.0"), cost: amount("10.0") };
    let start_timestamp = create_timestamp(2021, 9, 1);
    let mut account = Account::new(amount("1000.0"), initial_position, start_timestamp);
    let timestamp = create_timestamp(2021, 10, 31);
    account.close(timestamp, amount("50.0"), amount("20.0"), amount("0.02")).unwrap();
    assert_eq!(account.position, Position { cost: amount("10.0"), quantity: amount("50.0") });
    assert_eq!(account.available_fund, amount("1999.98"));
    assert_eq!(
        vec![Trade {
            timestamp: create_timestamp(2021, 10, 31),
            buy_sell_indicator: BuySellIndicator::Sell,
            quantity: amount("50.0"),
            price: amount("20.0"),
            fee: amount("0.02")
        }],
        account.trade_history
    );
}

#[test]
fn test_mark_to_market() {
    let initial_position = Position { quantity: amount("100.0"), cost: amount("10.0") };
    let start_timestamp = create_timestamp(2021, 9, 1);
    let mut account = Account::new(amount("5000.0"), initial_position, start_timestamp);
    let timestamp = create_timestamp(2021, 10, 31);
    account.mark_to_market(timestamp, amount("20.0")).unwrap();

    let latest_pnl = account.profit_and_loss_history.last().expect("No PnL history");
    assert_eq!(
        *latest_pnl,
        TimeValue { timestamp, realised_pnl: amount("0."), unrealised_pnl: amount("1000.") }
    );
}

#[test]
fn new_account_is_seeded_with_one_flat_valuation() {
    let a = account("1000", "0", "0");
    assert_eq!(
        a.profit_and_loss_history,
        vec![TimeValue {
            timestamp: create_timestamp(2021, 9, 1),
            realised_pnl: amount("0"),
            unrealised_pnl: amount("0")
        }]
    );
    assert!(a.trade_history.is_empty());
    assert_eq!(a.available_fund, amount("1000"));
}

#[test]
fn close_records_realised_and_unrealised_profit() {
    let mut a = account("1000", "100", "10");
    a.close(create_timestamp(2021, 10, 31), amount("50"), amount("20"), amount("0.02")).unwrap();
    assert_eq!(
        *a.profit_and_loss_history.last().unwrap(),
        TimeValue {
            timestamp: create_timestamp(2021, 10, 31),
            realised_pnl: amount("500"),
            unrealised_pnl: amount("-500")
        }
    );
    assert_eq!(a.profit_and_loss_history.len(), 2);
}

#[test]
fn close_after_mark_to_market_moves_profit_between_the_two() {
    let mut a = account("0", "100", "10");
    a.mark_to_market(1, amount("20")).unwrap();
    a.close(2, amount("40"), amount("20"), amount("0")).unwrap();
    let last = *a.profit_and_loss_history.last().unwrap();
    assert_eq!(last.realised_pnl, amount("400"));
    assert_eq!(last.unrealised_pnl, amount("600"));
    a.mark_to_market(3, amount("25")).unwrap();
    let last = *a.profit_and_loss_history.last().unwrap();
    assert_eq!(last.realised_pnl, amount("400"));
    assert_eq!(last.unrealised_pnl, amount("900"));
}

#[test]
fn quantity_is_what_was_opened_less_what_was_closed() {
    let mut a = account("100000", "5", "10");
    a.open(1, amount("2.5"), amount("11"), amount("0.1")).unwrap();
    a.close(2, amount("1.25"), amount("12"), amount("0.1")).unwrap();
    a.open(3, amount("0.75"), amount("13"), amount("0.1")).unwrap();
    a.close(4, amount("10"), amount("14"), amount("0.1")).unwrap();
    assert_eq!(a.position.quantity, amount("-3"));
    assert_eq!(a.trade_history.len(), 4);
    assert_eq!(a.profit_and_loss_history.len(), 3);
}

#[test]
fn histories_grow_by_one_where_they_grow() {
    let mut a = account("1000", "1", "1");
    a.open(1, amount("1"), amount("1"), amount("0")).unwrap();
    assert_eq!((a.profit_and_loss_history.len(), a.trade_history.len()), (1, 1));
    a.close(2, amount("1"), amount("1"), amount("0")).unwrap();
    assert_eq!((a.profit_and_loss_history.len(), a.trade_history.len()), (2, 2));
    a.mark_to_market(3, amount("1")).unwrap();
    assert_eq!((a.profit_and_loss_history.len(), a.trade_history.len()), (3, 2));
}

#[test]
fn open_to_zero_quantity_is_a_computation_error() {
    let mut a = account("1000", "100", "10");
    let r = a.open(1, amount("-100"), amount("20"), amount("0.02"));
    assert_eq!(r, Err(BacktestError::Computation));
    assert_eq!(a.position, Position { quantity: amount("100"), cost: amount("10") });
    assert_eq!(a.available_fund, amount("1000"));
    assert!(a.trade_history.is_empty());
}

#[test]
fn open_from_nothing_takes_the_price_as_cost() {
    let mut a = account("1000", "0", "0");
    a.open(1, amount("0.5"), amount("3000"), amount("7.5")).unwrap();
    assert_eq!(a.position, Position { quantity: amount("0.5"), cost: amount("3000") });
    assert_eq!(a.available_fund, amount("-507.5"));
}

#[test]
fn average_cost_is_rounded_toward_zero() {
    let mut a = account("1000", "1", "1");
    a.open(1, amount("2"), amount("2"), amount("0")).unwrap();
    assert_eq!(a.position.cost, amount("1.66666666"));
    let mut b = account("1000", "1", "-1");
    b.open(1, amount("2"), amount("-2"), amount("0")).unwrap();
    assert_eq!(b.position.cost, amount("-1.66666666"));
}

#[test]
fn close_without_history_is_a_state_error() {
    let mut a = account("1000", "100", "10");
    a.profit_and_loss_history.clear();
    assert_eq!(a.close(1, amount("1"), amount("1"), amount("0")), Err(BacktestError::State));
    assert_eq!(a.mark_to_market(1, amount("1")), Err(BacktestError::State));
    assert!(a.trade_history.is_empty());
    assert_eq!(a.position.quantity, amount("100"));
}

#[test]
fn out_of_range_results_are_computation_errors() {
    let big = Decimal::from_raw(i64::MAX);
    let mut a = Account::new(big, Position { quantity: big, cost: big }, 0);
    assert_eq!(a.open(1, big, big, big), Err(BacktestError::Computation));
    assert_eq!(a.close(1, Decimal::from_raw(-1), big, big), Err(BacktestError::Computation));
    assert_eq!(a.mark_to_market(1, Decimal::from_raw(i64::MIN)), Err(BacktestError::Computation));
    assert_eq!(a.available_fund, big);
    assert_eq!(a.profit_and_loss_history.len(), 1);
    assert!(a.trade_history.is_empty());
}

#[test]
fn overselling_drives_the_quantity_below_zero() {
    let mut a = account("0", "1", "10");
    a.close(1, amount("3"), amount("10"), amount("0")).unwrap();
    assert_eq!(a.position.quantity, amount("-2"));
    assert_eq!(a.position.cost, amount("10"));
    assert_eq!(a.available_fund, amount("30"));
}

#[test]
fn failures_describe_themselves() {
    assert_eq!(BacktestError::Data.message(), "invalid market data");
    assert_eq!(BacktestError::Config.message(), "invalid strategy configuration");
    assert_eq!(BacktestError::State.message(), "no valuation history");
    assert_eq!(BacktestError::Computation.message(), "numerically undefined result");
}
