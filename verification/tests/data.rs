use backtester::data::binance::{
    is_in_time_order, is_ordered_by_start, parse_binance_kline, parse_kline, parse_klines,
};
use backtester::data::text::{field_end, find_comma, find_newline, parse_decimal, parse_integer};
use backtester::data::BinanceKline;
use backtester::decimal::Decimal;
use backtester::error::BacktestError;
use chrono::NaiveDate;

fn create_timestamp(year: i32, month: u32, day: u32, hour: u32, minute: u32, second: u32) -> i64 {
    NaiveDate::from_ymd_opt(year, month, day)
        .and_then(|d| d.and_hms_opt(hour, minute, second))
        .expect("cannot create timestamp")
        .and_utc()
        .timestamp()
}

fn amount(text: &str) -> Decimal {
    Decimal::parse(text).expect("not an amount")
}

#[test]
fn test_parse_binance_kline() {
    let test_string = "1635739200000,4191.50000000,4320.00000000,4146.30000000,4302.93000000,88831.99690000,1635753599999,376834938.78850900,216236,45666.95420000,193846769.34658200,0";
    let result = parse_binance_kline(test_string).unwrap();
    let expected = BinanceKline {
        start_time: create_timestamp(2021, 11, 01, 4, 0, 0),
        open: amount("4191.5"),
        close: amount("4320.0"),
        high: amount("4146.3"),
        low: amount("4302.93"),
        volume: amount("88831.9969"),
        end_time: create_timestamp(2021, 11, 01, 7, 59, 59),
    };

    assert_eq!(result, Some(expected));
}

#[test]
fn a_line_without_a_comma_holds_no_bar() {
    assert_eq!(parse_binance_kline(""), Ok(None));
    assert_eq!(parse_binance_kline("open_time"), Ok(None));
    assert_eq!(parse_binance_kline("1635739200000"), Ok(None));
}

#[test]
fn seven_fields_are_enough() {
    let r = parse_binance_kline("1000,1,2,3,4,5,2999").unwrap().unwrap();
    assert_eq!(r.start_time, 1);
    assert_eq!(r.end_time, 2);
    assert_eq!(r.open, amount("1"));
    assert_eq!(r.close, amount("2"));
    assert_eq!(r.high, amount("3"));
    assert_eq!(r.low, amount("4"));
    assert_eq!(r.volume, amount("5"));
    assert_eq!(parse_kline(b"1000,1,2,3,4,5,2999,"), parse_kline(b"1000,1,2,3,4,5,2999"));
}

#[test]
fn milliseconds_are_rounded_toward_zero() {
    let r = parse_binance_kline("-1500,1,2,3,4,5,-999").unwrap().unwrap();
    assert_eq!(r.start_time, -1);
    assert_eq!(r.end_time, 0);
}

#[test]
fn a_line_with_a_missing_or_unreadable_field_is_refused() {
    for line in [
        ",",
        "1000,1,2,3,4,5",
        "1000,1,2,3,4,5,",
        "1000,1,2,3,4,,2999",
        "x,1,2,3,4,5,2999",
        "1000.5,1,2,3,4,5,2999",
        "1000,1,2,3,4,5,2999.0",
        "1000,1,2,3,4,five,2999",
        "1000,1e3,2,3,4,5,2999",
        "1000, 1,2,3,4,5,2999",
        "1000,1,2,3,4,5,99999999999999999999",
        "1000,1,2,3,4,92233720369,2999",
    ] {
        assert_eq!(parse_binance_kline(line), Err(BacktestError::Data), "{:?}", line);
    }
}

#[test]
fn a_time_that_the_calendar_does_not_reach_is_refused() {
    assert_eq!(
        parse_binance_kline("9223372036854775807,1,2,3,4,5,2999"),
        Err(BacktestError::Data)
    );
    assert_eq!(
        parse_binance_kline("1000,1,2,3,4,5,-9223372036854775808"),
        Err(BacktestError::Data)
    );
}

#[test]
fn whole_numbers_are_read_with_their_sign() {
    let line = b"x-12,+7,007,9223372036854775807,-9223372036854775808,9223372036854775808,-,1-";
    assert_eq!(parse_integer(line, 1, 4), Some(-12));
    assert_eq!(parse_integer(line, 5, 7), Some(7));
    assert_eq!(parse_integer(line, 8, 11), Some(7));
    assert_eq!(parse_integer(line, 12, 31), Some(i64::MAX));
    assert_eq!(parse_integer(line, 32, 52), Some(i64::MIN));
    assert_eq!(parse_integer(line, 53, 72), None);
    assert_eq!(parse_integer(line, 73, 74), None);
    assert_eq!(parse_integer(line, 75, 77), None);
    assert_eq!(parse_integer(line, 3, 3), None);
}

#[test]
fn amounts_are_read_between_two_places() {
    let line = b"ab12.5cd";
    assert_eq!(parse_decimal(line, 2, 6), Some(amount("12.5")));
    assert_eq!(parse_decimal(line, 2, 4), Some(amount("12")));
    assert_eq!(parse_decimal(line, 4, 6), Some(amount("0.5")));
    assert_eq!(parse_decimal(line, 1, 6), None);
    assert_eq!(parse_decimal(line, 2, 7), None);
    assert_eq!(parse_decimal(line, 4, 5), None);
}

#[test]
fn fields_end_at_commas() {
    let line = b"ab,,cd";
    assert_eq!(find_comma(line, 0), 2);
    assert_eq!(find_comma(line, 2), 2);
    assert_eq!(find_comma(line, 3), 3);
    assert_eq!(find_comma(line, 4), 6);
    assert_eq!(find_comma(line, 9), 6);
    assert_eq!(field_end(line, 0), (2, Some(3)));
    assert_eq!(field_end(line, 3), (3, Some(4)));
    assert_eq!(field_end(line, 4), (6, None));
    assert_eq!(field_end(line, 6), (6, None));
}

#[test]
fn a_text_holds_the_bars_of_its_lines_in_order() {
    let text = "1000,1,2,3,4,5,2999\n3000,6,7,8,9,10,4999\n";
    let bars = parse_klines(text).unwrap();
    assert_eq!(bars.len(), 2);
    assert_eq!(Some(bars[0]), parse_binance_kline("1000,1,2,3,4,5,2999").unwrap());
    assert_eq!(Some(bars[1]), parse_binance_kline("3000,6,7,8,9,10,4999").unwrap());
    assert_eq!(bars[1].close, amount("7"));
    assert_eq!(parse_klines("1000,1,2,3,4,5,2999\n3000,6,7,8,9,10,4999"), Ok(bars.clone()));
    assert_eq!(parse_klines("\n\n1000,1,2,3,4,5,2999\n\nend\n3000,6,7,8,9,10,4999"), Ok(bars));
}

#[test]
fn a_text_without_bars_holds_none() {
    assert_eq!(parse_klines(""), Ok(Vec::new()));
    assert_eq!(parse_klines("\n"), Ok(Vec::new()));
    assert_eq!(parse_klines("no bar here\nnor here"), Ok(Vec::new()));
}

#[test]
fn one_line_that_is_refused_has_the_text_refused() {
    assert_eq!(parse_klines("1000,1,2,3,4,5,2999\n3000,6,7\n"), Err(BacktestError::Data));
    assert_eq!(
        parse_klines("open_time,open,high,low,close,volume,close_time\n1000,1,2,3,4,5,2999"),
        Err(BacktestError::Data)
    );
    assert_eq!(parse_klines("1000,1,2,3,4,5,2999\r\n"), Err(BacktestError::Data));
    assert_eq!(parse_klines("1000,1,2,3,4,5,2999,0\r\n").map(|b| b.len()), Ok(1));
}

#[test]
fn lines_end_at_the_end_of_line() {
    let text = b"ab\n\ncd";
    assert_eq!(find_newline(text, 0), 2);
    assert_eq!(find_newline(text, 2), 2);
    assert_eq!(find_newline(text, 3), 3);
    assert_eq!(find_newline(text, 4), 6);
    assert_eq!(find_newline(text, 7), 6);
}

#[test]
fn bars_are_in_time_order_where_none_overlaps_the_next() {
    let bar = |start_time: i64, end_time: i64| BinanceKline {
        start_time,
        open: amount("1"),
        close: amount("1"),
        high: amount("1"),
        low: amount("1"),
        volume: amount("1"),
        end_time,
    };
    assert!(is_in_time_order(&[]));
    assert!(is_in_time_order(&[bar(0, 9)]));
    assert!(is_in_time_order(&[bar(0, 9), bar(10, 19), bar(19, 19), bar(19, 30)]));
    assert!(!is_in_time_order(&[bar(9, 0)]));
    assert!(!is_in_time_order(&[bar(0, 9), bar(8, 19)]));
    assert!(!is_in_time_order(&[bar(0, 9), bar(10, 19), bar(5, 30)]));
    assert!(!is_in_time_order(&[bar(10, 19), bar(0, 9)]));

    assert!(is_ordered_by_start(&[]));
    assert!(is_ordered_by_start(&[bar(9, 0)]));
    assert!(is_ordered_by_start(&[bar(0, 9), bar(0, 9), bar(8, 19)]));
    assert!(!is_ordered_by_start(&[bar(10, 19), bar(0, 9)]));
    assert!(!is_ordered_by_start(&[bar(0, 9), bar(10, 19), bar(9, 30)]));
}
