//! Where the archives of bars are found, and in which order they are read.
//!
//! The bars of a month that is over lie in one archive for the month. The
//! bars of the month that is running lie in one archive for each day. So the
//! address of an archive, and the date to go on with after it, depend on the
//! date of today, which the caller hands over.

use crate::error::BacktestError;
use vstd::prelude::*;

verus! {

/// A day of the calendar, by its year, its month from 1 and its day from 1.
#[derive(Clone, Copy, Debug, PartialEq, Eq, Structural)]
pub struct Date {
    pub year: i32,
    pub month: u32,
    pub day: u32,
}

/// Whether the calendar has the day `day` in the month `month` of the year
/// `year`, within the years that it reaches.
pub uninterp spec fn date_exists(year: i32, month: u32, day: u32) -> bool;

/// The day after the given one, by year, month and day; `None` where the
/// given day does not exist or is the last one that the calendar reaches.
pub uninterp spec fn day_after(year: i32, month: u32, day: u32) -> Option<(i32, u32, u32)>;

/// The character of the digit `d`.
pub open spec fn digit_char(d: int) -> char {
    if d == 0 {
        '0'
    } else if d == 1 {
        '1'
    } else if d == 2 {
        '2'
    } else if d == 3 {
        '3'
    } else if d == 4 {
        '4'
    } else if d == 5 {
        '5'
    } else if d == 6 {
        '6'
    } else if d == 7 {
        '7'
    } else if d == 8 {
        '8'
    } else {
        '9'
    }
}

/// The decimal digits of `n`, without leading zeros.
pub open spec fn decimal_text(n: nat) -> Seq<char>
    decreases n,
{
    if n < 10 {
        seq![digit_char(n as int)]
    } else {
        decimal_text(n / 10).push(digit_char((n % 10) as int))
    }
}

/// The decimal digits of `n`, with a leading zero where there is one digit
/// only.
pub open spec fn two_digit_text(n: nat) -> Seq<char> {
    if n < 10 {
        seq!['0'].push(digit_char(n as int))
    } else {
        decimal_text(n)
    }
}

/// The decimal digits of a year, behind a minus sign where it is negative.
pub open spec fn year_text(year: int) -> Seq<char> {
    if year < 0 {
        seq!['-'] + decimal_text((-year) as nat)
    } else {
        decimal_text(year as nat)
    }
}

/// The name of the archive of a day, or of a month.
pub open spec fn archive_name(
    symbol: Seq<char>,
    interval: Seq<char>,
    year: i32,
    month: u32,
    day: u32,
    daily: bool,
) -> Seq<char> {
    let month_name = symbol + "-"@ + interval + "-"@ + year_text(year as int) + "-"@
        + two_digit_text(month as nat);
    if daily {
        month_name + "-"@ + two_digit_text(day as nat) + ".zip"@
    } else {
        month_name + ".zip"@
    }
}

/// The address of the archive of a day, or of a month.
pub open spec fn archive_url(
    symbol: Seq<char>,
    interval: Seq<char>,
    year: i32,
    month: u32,
    day: u32,
    daily: bool,
) -> Seq<char> {
    "https://data.binance.vision/data/spot/"@ + (if daily {
        "daily"@
    } else {
        "monthly"@
    }) + "/klines/"@ + symbol + "/"@ + interval + "/"@ + archive_name(
        symbol,
        interval,
        year,
        month,
        day,
        daily,
    )
}

/// Whether `year` and `month` name the month of `today`.
pub open spec fn current_month(year: i32, month: u32, today: Date) -> bool {
    year == today.year && month == today.month
}

/// The date to go on with after the archive of `current`: within the month
/// of today the next day, else the first day of the next month. `Data` where
/// the calendar has no such date.
pub open spec fn date_after(current: Date, today: Date) -> Result<Date, BacktestError> {
    if current_month(current.year, current.month, today) {
        match day_after(current.year, current.month, current.day) {
            Some((year, month, day)) => Ok(Date { year, month, day }),
            None => Err(BacktestError::Data),
        }
    } else if current.month < 12 {
        if date_exists(current.year, (current.month + 1) as u32, 1) {
            Ok(Date { year: current.year, month: (current.month + 1) as u32, day: 1 })
        } else {
            Err(BacktestError::Data)
        }
    } else {
        if current.year < i32::MAX && date_exists((current.year + 1) as i32, 1, 1) {
            Ok(Date { year: (current.year + 1) as i32, month: 1, day: 1 })
        } else {
            Err(BacktestError::Data)
        }
    }
}

/// Trusted: `chrono::NaiveDate::from_ymd_opt`, asked whether it gives a
/// date. The answer is a function of the three numbers alone and is named
/// `date_exists`.
#[verifier::external_body]
fn chrono_date_exists(year: i32, month: u32, day: u32) -> (r: bool)
    ensures
        r == date_exists(year, month, day),
{
    chrono::NaiveDate::from_ymd_opt(year, month, day).is_some()
}

/// Trusted: `chrono::NaiveDate::from_ymd_opt`, then `NaiveDate::succ_opt`,
/// taken apart into year, month and day. The result is a function of the
/// three numbers alone and is named `day_after`; chrono documents that a
/// month is numbered from 1 to 12 and a day from 1 to 31.
#[verifier::external_body]
fn chrono_day_after(year: i32, month: u32, day: u32) -> (r: Option<(i32, u32, u32)>)
    ensures
        r == day_after(year, month, day),
        r matches Some((_, m, d)) ==> 1 <= m <= 12 && 1 <= d <= 31,
{
    match chrono::NaiveDate::from_ymd_opt(year, month, day) {
        Some(date) => match date.succ_opt() {
            Some(next) => Some(
                (
                    chrono::Datelike::year(&next),
                    chrono::Datelike::month(&next),
                    chrono::Datelike::day(&next),
                ),
            ),
            None => None,
        },
        None => None,
    }
}

/// Whether `year` and `month` name the month of `today`.
pub fn is_current_month(year: i32, month: u32, today: &Date) -> (r: bool)
    ensures
        r == current_month(year, month, *today),
{
    year == today.year && month == today.month
}

/// Appends the character of the digit `d`.
fn push_digit(text: &mut String, d: u32)
    requires
        d < 10,
    ensures
        final(text)@ == old(text)@.push(digit_char(d as int)),
{
    proof {
        reveal_strlit("0");
        reveal_strlit("1");
        reveal_strlit("2");
        reveal_strlit("3");
        reveal_strlit("4");
        reveal_strlit("5");
        reveal_strlit("6");
        reveal_strlit("7");
        reveal_strlit("8");
        reveal_strlit("9");
    }
    let digit = if d == 0 {
        "0"
    } else if d == 1 {
        "1"
    } else if d == 2 {
        "2"
    } else if d == 3 {
        "3"
    } else if d == 4 {
        "4"
    } else if d == 5 {
        "5"
    } else if d == 6 {
        "6"
    } else if d == 7 {
        "7"
    } else if d == 8 {
        "8"
    } else {
        "9"
    };
    text.append(digit);
    assert(text@ =~= old(text)@.push(digit_char(d as int)));
}

/// Appends the decimal digits of `n`.
fn push_decimal(text: &mut String, n: u32)
    ensures
        final(text)@ == old(text)@ + decimal_text(n as nat),
    decreases n,
{
    if n >= 10 {
        push_decimal(text, n / 10);
    }
    push_digit(text, n % 10);
    assert(text@ =~= old(text)@ + decimal_text(n as nat));
}

/// Appends the decimal digits of `n`, with a leading zero where there is one
/// digit only.
fn push_two_digits(text: &mut String, n: u32)
    ensures
        final(text)@ == old(text)@ + two_digit_text(n as nat),
{
    if n < 10 {
        push_digit(text, 0);
        push_digit(text, n);
    } else {
        push_decimal(text, n);
    }
    assert(text@ =~= old(text)@ + two_digit_text(n as nat));
}

/// Appends the decimal digits of a year, behind a minus sign where it is
/// negative.
fn push_year(text: &mut String, year: i32)
    ensures
        final(text)@ == old(text)@ + year_text(year as int),
{
    if year < 0 {
        proof {
            reveal_strlit("-");
        }
        text.append("-");
        push_decimal(text, (0 - (year as i64)) as u32);
    } else {
        push_decimal(text, year as u32);
    }
    assert(text@ =~= old(text)@ + year_text(year as int));
}

/// The name of the archive of a day, or of a month.
fn push_archive_name(
    text: &mut String,
    symbol: &str,
    interval: &str,
    year: i32,
    month: u32,
    day: u32,
    daily: bool,
)
    ensures
        final(text)@ == old(text)@ + archive_name(symbol@, interval@, year, month, day, daily),
{
    text.append(symbol);
    text.append("-");
    text.append(interval);
    text.append("-");
    push_year(text, year);
    text.append("-");
    push_two_digits(text, month);
    if daily {
        text.append("-");
        push_two_digits(text, day);
    }
    text.append(".zip");
    assert(text@ =~= old(text)@ + archive_name(symbol@, interval@, year, month, day, daily));
}

/// The address of the archive that holds the bars of the given day: the
/// archive of the day within the month of today, else the archive of the
/// month.
pub fn binance_data_url(
    symbol: &str,
    interval: &str,
    year: i32,
    month: u32,
    day: u32,
    today: &Date,
) -> (r: String)
    ensures
        r@ == archive_url(
            symbol@,
            interval@,
            year,
            month,
            day,
            current_month(year, month, *today),
        ),
{
    let daily = is_current_month(year, month, today);
    let mut url = String::from_str("https://data.binance.vision/data/spot/");
    if daily {
        url.append("daily");
    } else {
        url.append("monthly");
    }
    url.append("/klines/");
    url.append(symbol);
    url.append("/");
    url.append(interval);
    url.append("/");
    push_archive_name(&mut url, symbol, interval, year, month, day, daily);
    assert(url@ =~= archive_url(symbol@, interval@, year, month, day, daily));
    url
}

/// The date to go on with after the archive of `current_date`: within the
/// month of today the next day, else the first day of the next month. `Data`
/// where the calendar has no such date.
pub fn advance_date(current_date: Date, today: &Date) -> (r: Result<Date, BacktestError>)
    ensures
        r == date_after(current_date, *today),
{
    if !is_current_month(current_date.year, current_date.month, today) {
        if current_date.month < 12 {
            if chrono_date_exists(current_date.year, current_date.month + 1, 1) {
                Ok(Date { year: current_date.year, month: current_date.month + 1, day: 1 })
            } else {
                Err(BacktestError::Data)
            }
        } else {
            if current_date.year < i32::MAX && chrono_date_exists(current_date.year + 1, 1, 1) {
                Ok(Date { year: current_date.year + 1, month: 1, day: 1 })
            } else {
                Err(BacktestError::Data)
            }
        }
    } else {
        match chrono_day_after(current_date.year, current_date.month, current_date.day) {
            Some((year, month, day)) => Ok(Date { year, month, day }),
            None => Err(BacktestError::Data),
        }
    }
}

} // verus!
