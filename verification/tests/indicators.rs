use backtester::calendar::{in_same_month, is_new_month, month_of};
use backtester::data::BinanceKline;
use backtester::decimal::Decimal;
use backtester::error::BacktestError;
use backtester::indicators::average::{crossover_action, is_above, mean_of, sum_of};
use backtester::indicators::sma::{SMAInstance, Sma};
use backtester::indicators::sma2::{SMA2Instance, Sma2};
use backtester::indicators::{Action, BinanceIndicatorInstance, Dca, Hodl, Sma2Pair, SmaPair};
use chrono::NaiveDate;

fn timestamp(year: i32, month: u32, day: u32, hour: u32) -> i64 {
    NaiveDate::from_ymd_opt(year, month, day)
        .and_then(|d| d.and_hms_opt(hour, 0, 0))
        .expect("cannot create timestamp")
        .and_utc()
        .timestamp()
}

fn amount(text: &str) -> Decimal {
    Decimal::parse(text).expect("not an amount")
}

fn bar(start_time: i64, close: &str) -> BinanceKline {
    let close = amount(close);
    BinanceKline {
        start_time,
        open: close,
        close,
        high: close,
        low: close,
        volume: amount("1"),
        end_time: start_time + 3599,
    }
}

struct Scripted {
    next: usize,
    script: Vec<Vec<Action>>,
}

impl BinanceIndicatorInstance for Scripted {
    type Model = ();

    fn next_binance_kline(&mut self, _candle: &BinanceKline) -> Vec<Action> {
        let r = self.script[self.next].clone();
        self.next += 1;
        r
    }
}

#[test]
fn month_of_a_timestamp_is_its_calendar_month() {
    assert_eq!(month_of(1635739200), Some((2021, 11)));
    assert_eq!(month_of(946_684_800), Some((2000, 1)));
    assert_eq!(month_of(timestamp(2024, 2, 29, 23)), Some((2024, 2)));
    assert_eq!(month_of(timestamp(1969, 12, 31, 23)), Some((1969, 12)));
    assert_eq!(month_of(0), Some((1970, 1)));
    assert_eq!(month_of(-1), Some((1969, 12)));
    assert_eq!(month_of(i64::MAX), None);
    assert_eq!(month_of(i64::MIN), None);
}

#[test]
fn same_month_goes_by_year_and_month() {
    assert!(in_same_month(timestamp(2021, 11, 1, 0), timestamp(2021, 11, 30, 23)));
    assert!(!in_same_month(timestamp(2021, 11, 30, 23), timestamp(2021, 12, 1, 0)));
    assert!(!in_same_month(timestamp(2021, 11, 1, 0), timestamp(2022, 11, 1, 0)));
    assert!(in_same_month(i64::MAX, i64::MIN));
    assert!(!in_same_month(i64::MAX, 0));
}

#[test]
fn the_first_bar_opens_a_month() {
    assert!(is_new_month(None, timestamp(2021, 11, 15, 0)));
    assert!(is_new_month(None, i64::MAX));
    assert!(!is_new_month(Some(timestamp(2021, 11, 1, 0)), timestamp(2021, 11, 15, 0)));
    assert!(is_new_month(Some(timestamp(2021, 11, 30, 23)), timestamp(2021, 12, 1, 0)));
    assert!(is_new_month(Some(timestamp(2020, 11, 15, 0)), timestamp(2021, 11, 15, 0)));
}

#[test]
fn hodl_buys_once() {
    let first = bar(timestamp(2021, 11, 1, 4), "4000");
    let mut source = Hodl.init(&first).unwrap();
    assert_eq!(source.next_binance_kline(&first), vec![Action::Buy(1)]);
    assert_eq!(source.next_binance_kline(&first), vec![Action::NoSignal]);
    assert_eq!(source.next_binance_kline(&bar(timestamp(2022, 1, 1, 0), "1")), vec![Action::NoSignal]);
}

#[test]
fn dca_buys_at_each_change_of_month() {
    let first = bar(timestamp(2021, 11, 1, 4), "4000");
    let mut source = Dca.init(&first).unwrap();
    assert_eq!(source.next_binance_kline(&first), vec![Action::Buy(1)]);
    assert_eq!(source.next_binance_kline(&bar(timestamp(2021, 11, 1, 5), "1")), vec![Action::NoSignal]);
    assert_eq!(source.next_binance_kline(&bar(timestamp(2021, 11, 30, 23), "1")), vec![Action::NoSignal]);
    assert_eq!(source.next_binance_kline(&bar(timestamp(2021, 12, 1, 0), "1")), vec![Action::Buy(1)]);
    assert_eq!(source.next_binance_kline(&bar(timestamp(2022, 12, 1, 0), "1")), vec![Action::Buy(1)]);
    assert_eq!(source.next_binance_kline(&bar(timestamp(2022, 12, 9, 0), "1")), vec![Action::NoSignal]);
    assert_eq!(source.next_binance_kline(&bar(timestamp(2023, 1, 1, 0), "1")), vec![Action::Buy(1)]);
}

#[test]
fn dca_buys_on_the_first_bar_whatever_its_month() {
    for month in 1..=12 {
        let first = bar(timestamp(2022, month, 5, 0), "4000");
        let mut source = Dca.init(&first).unwrap();
        assert_eq!(source.next_binance_kline(&first), vec![Action::Buy(1)]);
        assert_eq!(source.next_binance_kline(&first), vec![Action::NoSignal]);
    }
    let first = bar(timestamp(2000, 1, 1, 0), "4000");
    let mut source = Dca.init(&first).unwrap();
    assert_eq!(source.next_binance_kline(&first), vec![Action::Buy(1)]);
}

#[test]
fn sums_and_means_of_prices() {
    let prices = vec![amount("1"), amount("2"), amount("4")];
    assert_eq!(sum_of(&prices), 700_000_000);
    assert_eq!(mean_of(&prices), Some(amount("2.33333333")));
    assert_eq!(mean_of(&vec![amount("-1"), amount("-2"), amount("-4")]), Some(amount("-2.33333333")));
    assert_eq!(mean_of(&Vec::new()), None);
    let extremes = vec![Decimal::from_raw(i64::MAX), Decimal::from_raw(i64::MAX)];
    assert_eq!(sum_of(&extremes), 2 * (i64::MAX as i128));
    assert_eq!(mean_of(&extremes), Some(Decimal::from_raw(i64::MAX)));
}

#[test]
fn a_missing_mean_is_below_every_mean() {
    let one = Some(amount("1"));
    let two = Some(amount("2"));
    assert!(is_above(&two, &one));
    assert!(!is_above(&one, &two));
    assert!(!is_above(&one, &one));
    assert!(is_above(&one, &None));
    assert!(!is_above(&None, &one));
    assert!(!is_above(&None, &None));
}

#[test]
fn crossover_signals_at_a_change_of_month_only() {
    let one = Some(amount("1"));
    let two = Some(amount("2"));
    assert_eq!(crossover_action(true, &two, &one), Action::NoSignal);
    assert_eq!(crossover_action(false, &two, &one), Action::Buy(1));
    assert_eq!(crossover_action(false, &one, &two), Action::Sell(1));
    assert_eq!(crossover_action(false, &one, &one), Action::NoSignal);
    assert_eq!(crossover_action(false, &one, &None), Action::Buy(1));
    assert_eq!(crossover_action(false, &None, &one), Action::Sell(1));
    assert_eq!(crossover_action(false, &None, &None), Action::NoSignal);
}

#[test]
fn sma_starts_with_a_full_window() {
    let mut sma = Sma::new(3, amount("1.0")).unwrap();
    assert_eq!(sma.next(amount("1.0")), amount("1"));
    assert_eq!(sma.next(amount("2.0")), amount("1.33333333"));
    assert_eq!(sma.next(amount("3.0")), amount("2.0"));
    assert_eq!(sma.next(amount("4.0")), amount("3.0"));
    assert_eq!(Sma::new(0, amount("1.0")).err(), Some(BacktestError::Config));
    let mut widest = Sma::new(255, amount("2")).unwrap();
    assert_eq!(widest.next(amount("257")), amount("3"));
}

#[test]
fn sma2_has_no_mean_before_its_window_is_full() {
    let mut sma = Sma2::new(3, amount("1.0"));
    assert_eq!(sma.moving_average(), None);
    assert_eq!(sma.update_price(amount("2.0")), None);
    assert_eq!(sma.update_price(amount("3.0")), Some(amount("2.0")));
    assert_eq!(sma.update_price(amount("4.0")), Some(amount("3.0")));
    assert_eq!(sma.update_price(amount("4.0")), Some(amount("3.66666666")));
    assert_eq!(sma.moving_average(), Some(amount("3.66666666")));
    let mut one = Sma2::new(1, amount("9"));
    assert_eq!(one.moving_average(), Some(amount("9")));
    assert_eq!(one.update_price(amount("5")), Some(amount("5")));
    let mut none = Sma2::new(0, amount("9"));
    assert_eq!(none.moving_average(), None);
    assert_eq!(none.update_price(amount("5")), None);
}

#[test]
fn sma_source_follows_the_crossing_of_its_means() {
    let first = bar(timestamp(2021, 11, 1, 0), "10");
    let mut source = SmaPair::new(1, 2).init(&first).unwrap();
    assert_eq!(source.next_binance_kline(&first), vec![Action::NoSignal]);
    assert_eq!(source.next_binance_kline(&bar(timestamp(2021, 12, 1, 0), "12")), vec![Action::Buy(1)]);
    assert_eq!(source.next_binance_kline(&bar(timestamp(2021, 12, 2, 0), "8")), vec![Action::NoSignal]);
    assert_eq!(source.next_binance_kline(&bar(timestamp(2022, 1, 1, 0), "6")), vec![Action::Sell(1)]);
    assert_eq!(SmaPair::new(0, 2).init(&first).err(), Some(BacktestError::Config));
    assert_eq!(SmaPair::new(1, 0).init(&first).err(), Some(BacktestError::Config));
    assert_eq!(SMAInstance::new(SmaPair::new(0, 0), amount("1")).err(), Some(BacktestError::Config));
}

#[test]
fn sma2_source_follows_the_crossing_of_its_means() {
    let first = bar(timestamp(2021, 11, 1, 0), "10");
    let mut source = Sma2Pair::new(1, 2).init(&first).unwrap();
    assert_eq!(source.next_binance_kline(&first), vec![Action::NoSignal]);
    assert_eq!(source.next_binance_kline(&bar(timestamp(2021, 12, 1, 0), "12")), vec![Action::Buy(1)]);
    assert_eq!(source.next_binance_kline(&bar(timestamp(2021, 12, 2, 0), "8")), vec![Action::NoSignal]);
    assert_eq!(source.next_binance_kline(&bar(timestamp(2022, 1, 1, 0), "6")), vec![Action::Sell(1)]);
    assert_eq!(Sma2Pair::new(0, 2).init(&first).err(), Some(BacktestError::Config));
    assert_eq!(Sma2Pair::new(1, 0).init(&first).err(), Some(BacktestError::Config));
    assert_eq!(SMA2Instance::new(Sma2Pair::new(0, 0), amount("1")).err(), Some(BacktestError::Config));
}

#[test]
fn sma2_source_buys_while_its_long_window_fills() {
    let first = bar(timestamp(2021, 11, 1, 0), "10");
    let mut source = Sma2Pair::new(1, 3).init(&first).unwrap();
    assert_eq!(source.next_binance_kline(&first), vec![Action::Buy(1)]);
    assert_eq!(source.next_binance_kline(&bar(timestamp(2021, 12, 1, 0), "1")), vec![Action::Sell(1)]);
    let mut wide = Sma2Pair::new(3, 1).init(&first).unwrap();
    assert_eq!(wide.next_binance_kline(&first), vec![Action::Sell(1)]);
}

#[test]
fn a_source_of_the_caller_can_be_plugged_in() {
    let mut s = Scripted { next: 0, script: vec![vec![Action::Sell(2)], vec![]] };
    assert_eq!(s.next_binance_kline(&bar(0, "1")), vec![Action::Sell(2)]);
    assert_eq!(s.next_binance_kline(&bar(0, "1")), vec![]);
}

#[test]
fn sources_keep_their_configuration() {
    let first = bar(timestamp(2021, 11, 1, 0), "10");
    let hodl = Hodl.init(&first).unwrap();
    let _: &Hodl = hodl.config();
    let dca = Dca.init(&first).unwrap();
    let _: &Dca = dca.config();
    let sma = SmaPair::new(3, 7).init(&first).unwrap();
    assert!(sma.config().fits(7));
    assert!(!sma.config().fits(6));
    let sma2 = Sma2Pair::new(3, 7).init(&first).unwrap();
    assert!(sma2.config().fits(7));
    assert!(!sma2.config().fits(6));
}
