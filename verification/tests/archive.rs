use backtester::data::archive::{advance_date, binance_data_url, is_current_month, Date};
use backtester::error::BacktestError;

fn date(year: i32, month: u32, day: u32) -> Date {
    Date { year, month, day }
}

#[test]
fn a_month_that_is_over_has_one_archive() {
    let today = date(2024, 3, 15);
    assert_eq!(
        binance_data_url("ETHUSDT", "1h", 2021, 11, 7, &today),
        "https://data.binance.vision/data/spot/monthly/klines/ETHUSDT/1h/ETHUSDT-1h-2021-11.zip"
    );
    assert_eq!(
        binance_data_url("BTCUSDT", "15m", 2024, 2, 29, &today),
        "https://data.binance.vision/data/spot/monthly/klines/BTCUSDT/15m/BTCUSDT-15m-2024-02.zip"
    );
    assert_eq!(
        binance_data_url("ETHUSDT", "1h", 2023, 3, 15, &today),
        "https://data.binance.vision/data/spot/monthly/klines/ETHUSDT/1h/ETHUSDT-1h-2023-03.zip"
    );
}

#[test]
fn the_running_month_has_an_archive_for_each_day() {
    let today = date(2024, 3, 15);
    assert_eq!(
        binance_data_url("ETHUSDT", "1h", 2024, 3, 5, &today),
        "https://data.binance.vision/data/spot/daily/klines/ETHUSDT/1h/ETHUSDT-1h-2024-03-05.zip"
    );
    assert_eq!(
        binance_data_url("ETHUSDT", "1h", 2024, 3, 31, &date(2024, 3, 1)),
        "https://data.binance.vision/data/spot/daily/klines/ETHUSDT/1h/ETHUSDT-1h-2024-03-31.zip"
    );
}

#[test]
fn numbers_in_an_address_are_written_in_full() {
    let today = date(2024, 3, 15);
    assert_eq!(
        binance_data_url("", "", 5, 123, 0, &today),
        "https://data.binance.vision/data/spot/monthly/klines///--5-123.zip"
    );
    assert_eq!(
        binance_data_url("A", "b", -5, 0, 0, &date(-5, 0, 9)),
        "https://data.binance.vision/data/spot/daily/klines/A/b/A-b--5-00-00.zip"
    );
    assert_eq!(
        binance_data_url("A", "b", i32::MIN, u32::MAX, 100, &date(i32::MIN, u32::MAX, 1)),
        "https://data.binance.vision/data/spot/daily/klines/A/b/A-b--2147483648-4294967295-100.zip"
    );
    assert_eq!(
        binance_data_url("A", "b", i32::MAX, 10, 9, &today),
        "https://data.binance.vision/data/spot/monthly/klines/A/b/A-b-2147483647-10.zip"
    );
}

#[test]
fn the_current_month_is_the_month_of_today() {
    let today = date(2024, 3, 15);
    assert!(is_current_month(2024, 3, &today));
    assert!(!is_current_month(2023, 3, &today));
    assert!(!is_current_month(2024, 4, &today));
}

#[test]
fn a_month_that_is_over_is_followed_by_the_next_month() {
    let today = date(2024, 3, 15);
    assert_eq!(advance_date(date(2024, 1, 17), &today), Ok(date(2024, 2, 1)));
    assert_eq!(advance_date(date(2024, 2, 1), &today), Ok(date(2024, 3, 1)));
    assert_eq!(advance_date(date(2023, 12, 5), &today), Ok(date(2024, 1, 1)));
    assert_eq!(advance_date(date(2023, 3, 15), &today), Ok(date(2023, 4, 1)));
    assert_eq!(advance_date(date(2024, 4, 30), &today), Ok(date(2024, 5, 1)));
}

#[test]
fn a_day_of_the_running_month_is_followed_by_the_next_day() {
    let today = date(2024, 3, 15);
    assert_eq!(advance_date(date(2024, 3, 1), &today), Ok(date(2024, 3, 2)));
    assert_eq!(advance_date(date(2024, 3, 31), &today), Ok(date(2024, 4, 1)));
    assert_eq!(advance_date(date(2024, 2, 28), &date(2024, 2, 10)), Ok(date(2024, 2, 29)));
    assert_eq!(advance_date(date(2023, 2, 28), &date(2023, 2, 10)), Ok(date(2023, 3, 1)));
    assert_eq!(advance_date(date(2023, 12, 31), &date(2023, 12, 1)), Ok(date(2024, 1, 1)));
}

#[test]
fn a_date_that_the_calendar_does_not_have_is_refused() {
    assert_eq!(advance_date(date(2024, 2, 30), &date(2024, 2, 10)), Err(BacktestError::Data));
    assert_eq!(advance_date(date(2024, 0, 1), &date(2024, 0, 1)), Err(BacktestError::Data));
    assert_eq!(advance_date(date(300000, 5, 1), &date(2024, 3, 15)), Err(BacktestError::Data));
    assert_eq!(advance_date(date(300000, 12, 1), &date(2024, 3, 15)), Err(BacktestError::Data));
    assert_eq!(advance_date(date(i32::MAX, 12, 1), &date(2024, 3, 15)), Err(BacktestError::Data));
    assert_eq!(advance_date(date(i32::MAX, 13, 1), &date(2024, 3, 15)), Err(BacktestError::Data));
}

#[test]
fn a_date_that_is_wrong_in_a_month_that_is_over_is_followed_by_the_next_month() {
    assert_eq!(advance_date(date(2024, 2, 30), &date(2024, 3, 15)), Ok(date(2024, 3, 1)));
    assert_eq!(advance_date(date(2024, 13, 1), &date(2024, 3, 15)), Ok(date(2025, 1, 1)));
}
