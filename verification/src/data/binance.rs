//! Market bars, and the lines that they are read from.
//!
//! A line holds the fields of a bar between commas: the start time in
//! milliseconds since the Unix epoch, then five amounts, then the end time in
//! milliseconds. Fields behind these are not read.

use crate::calendar::{month_of, utc_month};
use crate::data::text::{
    comma_from, decimal_of, field, field_end, field_from, field_start, find_comma, find_newline,
    integer_of, lemma_newline_bounds, newline_from, parse_decimal, parse_integer, place,
};
use crate::decimal::{trunc_div, Decimal};
use crate::error::BacktestError;
use vstd::prelude::*;
use vstd::slice::slice_subrange;
use vstd::string::StringSliceAdditionalSpecFns;

verus! {

/// One fixed-interval price record. The timestamps are seconds since the Unix
/// epoch.
#[derive(Clone, Copy, Debug, PartialEq, Eq, Structural)]
pub struct BinanceKline {
    pub start_time: i64,
    pub open: Decimal,
    pub close: Decimal,
    pub high: Decimal,
    pub low: Decimal,
    pub volume: Decimal,
    pub end_time: i64,
}

/// Whether the bars are ordered by their start times: none starts before the
/// one before it.
pub open spec fn ordered_by_start(bars: Seq<BinanceKline>) -> bool {
    forall|i: int, j: int|
        0 <= i < j < bars.len() ==> (#[trigger] bars[i]).start_time <= (#[trigger] bars[j]).start_time
}

/// Whether the bars are ordered by their start times.
pub fn is_ordered_by_start(klines: &[BinanceKline]) -> (r: bool)
    ensures
        r == ordered_by_start(klines@),
{
    let mut i: usize = 1;
    while i < klines.len()
        invariant
            1 <= i,
            forall|a: int, b: int|
                0 <= a < b < i && b < klines@.len() ==> (#[trigger] klines@[a]).start_time <= (
                #[trigger] klines@[b]).start_time,
        decreases klines@.len() - i,
    {
        if klines[i - 1].start_time > klines[i].start_time {
            assert(!(klines@[i - 1].start_time <= klines@[i as int].start_time));
            return false;
        }
        assert forall|a: int, b: int| 0 <= a < b < i + 1 && b < klines@.len() implies (
        #[trigger] klines@[a]).start_time <= (#[trigger] klines@[b]).start_time by {
            if b == i && a < i - 1 {
                assert(klines@[a].start_time <= klines@[i - 1].start_time);
            }
        }
        i = i + 1;
    }
    true
}

/// Bars in time order are ordered by their start times.
pub proof fn lemma_time_order_orders_starts(bars: Seq<BinanceKline>)
    requires
        in_time_order(bars),
    ensures
        ordered_by_start(bars),
{
    assert forall|i: int, j: int| 0 <= i < j < bars.len() implies (#[trigger] bars[i]).start_time <= (
    #[trigger] bars[j]).start_time by {
        assert(bars[i].start_time <= bars[i].end_time);
    }
}

/// Whether the bars are in time order: none ends before it starts, and none
/// starts before the one before it has ended.
pub open spec fn in_time_order(bars: Seq<BinanceKline>) -> bool {
    &&& forall|i: int| 0 <= i < bars.len() ==> (#[trigger] bars[i]).start_time <= bars[i].end_time
    &&& forall|i: int, j: int|
        0 <= i < j < bars.len() ==> (#[trigger] bars[i]).end_time <= (#[trigger] bars[j]).start_time
}

/// Whether the bars are in time order.
pub fn is_in_time_order(klines: &[BinanceKline]) -> (r: bool)
    ensures
        r == in_time_order(klines@),
{
    let mut i: usize = 0;
    while i < klines.len()
        invariant
            0 <= i <= klines@.len(),
            forall|k: int| 0 <= k < i ==> (#[trigger] klines@[k]).start_time <= klines@[k].end_time,
            forall|a: int, b: int|
                0 <= a < b < i ==> (#[trigger] klines@[a]).end_time <= (
                #[trigger] klines@[b]).start_time,
        decreases klines@.len() - i,
    {
        if klines[i].start_time > klines[i].end_time {
            return false;
        }
        if i > 0 && klines[i - 1].end_time > klines[i].start_time {
            assert(!(klines@[i - 1].end_time <= klines@[i as int].start_time));
            return false;
        }
        assert forall|a: int, b: int| 0 <= a < b < i + 1 implies (#[trigger] klines@[a]).end_time <= (
        #[trigger] klines@[b]).start_time by {
            if b == i && a < i - 1 {
                assert(klines@[a].end_time <= klines@[i - 1].start_time);
                assert(klines@[i - 1].start_time <= klines@[i - 1].end_time);
            }
        }
        i = i + 1;
    }
    true
}

/// The seconds since the Unix epoch that a field of milliseconds stands for:
/// the milliseconds divided by 1000 and rounded toward zero. `None` where the
/// field is missing, is no whole number, or names an instant that the
/// calendar does not reach.
pub open spec fn seconds_in(text: Option<Seq<u8>>) -> Option<i64> {
    match text {
        Some(t) => match integer_of(t) {
            Some(millis) => {
                let secs = trunc_div(millis as int, 1000) as i64;
                if utc_month(secs) is Some {
                    Some(secs)
                } else {
                    None
                }
            },
            None => None,
        },
        None => None,
    }
}

/// The amount that a field writes; `None` where the field is missing or
/// writes no amount.
pub open spec fn amount_in(text: Option<Seq<u8>>) -> Option<Decimal> {
    match text {
        Some(t) => decimal_of(t),
        None => None,
    }
}

/// The bar that a line writes. A line without a comma writes none. A line
/// with one writes the bar of its first seven fields, read in the order
/// start time, open, close, high, low, volume, end time; it is refused with
/// `Data` where one of them is missing or cannot be read.
pub open spec fn kline_of(line: Seq<u8>) -> Result<Option<BinanceKline>, BacktestError> {
    if comma_from(line, 0) >= line.len() {
        Ok(None)
    } else {
        match (
            seconds_in(field(line, 0)),
            amount_in(field(line, 1)),
            amount_in(field(line, 2)),
            amount_in(field(line, 3)),
            amount_in(field(line, 4)),
            amount_in(field(line, 5)),
            seconds_in(field(line, 6)),
        ) {
            (
                Some(start_time),
                Some(open),
                Some(close),
                Some(high),
                Some(low),
                Some(volume),
                Some(end_time),
            ) => Ok(Some(BinanceKline { start_time, open, close, high, low, volume, end_time })),
            _ => Err(BacktestError::Data),
        }
    }
}

/// Reads the field of milliseconds that starts at `start`, and finds the
/// start of the field behind it.
fn seconds_field(line: &[u8], start: Option<usize>) -> (r: (Option<i64>, Option<usize>))
    requires
        start matches Some(s) ==> s <= line@.len(),
    ensures
        r.0 == seconds_in(field_from(line@, place(start, line@.len()))),
        place(r.1, line@.len()) == comma_from(line@, place(start, line@.len())) + 1,
        r.1 matches Some(s) ==> s <= line@.len(),
{
    match start {
        None => (None, None),
        Some(s) => {
            let (end, next) = field_end(line, s);
            let secs = match parse_integer(line, s, end) {
                Some(millis) => {
                    match millis.checked_div(1000) {
                        Some(secs) => {
                            if month_of(secs).is_some() {
                                Some(secs)
                            } else {
                                None
                            }
                        },
                        None => None,
                    }
                },
                None => None,
            };
            (secs, next)
        },
    }
}

/// Reads the field of an amount that starts at `start`, and finds the start
/// of the field behind it.
fn amount_field(line: &[u8], start: Option<usize>) -> (r: (Option<Decimal>, Option<usize>))
    requires
        start matches Some(s) ==> s <= line@.len(),
    ensures
        r.0 == amount_in(field_from(line@, place(start, line@.len()))),
        place(r.1, line@.len()) == comma_from(line@, place(start, line@.len())) + 1,
        r.1 matches Some(s) ==> s <= line@.len(),
{
    match start {
        None => (None, None),
        Some(s) => {
            let (end, next) = field_end(line, s);
            (parse_decimal(line, s, end), next)
        },
    }
}

/// Reads the bar that the bytes `line` write.
pub fn parse_kline(line: &[u8]) -> (r: Result<Option<BinanceKline>, BacktestError>)
    ensures
        r == kline_of(line@),
{
    if find_comma(line, 0) >= line.len() {
        return Ok(None);
    }
    let (start_time, next) = seconds_field(line, Some(0));
    assert(place(next, line@.len()) == field_start(line@, 1));
    let (open, next) = amount_field(line, next);
    assert(place(next, line@.len()) == field_start(line@, 2));
    let (close, next) = amount_field(line, next);
    assert(place(next, line@.len()) == field_start(line@, 3));
    let (high, next) = amount_field(line, next);
    assert(place(next, line@.len()) == field_start(line@, 4));
    let (low, next) = amount_field(line, next);
    assert(place(next, line@.len()) == field_start(line@, 5));
    let (volume, next) = amount_field(line, next);
    assert(place(next, line@.len()) == field_start(line@, 6));
    let (end_time, _) = seconds_field(line, next);
    match (start_time, open, close, high, low, volume, end_time) {
        (
            Some(start_time),
            Some(open),
            Some(close),
            Some(high),
            Some(low),
            Some(volume),
            Some(end_time),
        ) => Ok(Some(BinanceKline { start_time, open, close, high, low, volume, end_time })),
        _ => Err(BacktestError::Data),
    }
}

/// Reads the bar that the line `data` writes.
pub fn parse_binance_kline(data: &str) -> (r: Result<Option<BinanceKline>, BacktestError>)
    ensures
        r == kline_of(data.spec_bytes()),
{
    parse_kline(data.as_bytes())
}

/// The bars so far, followed by the bars that the rest of a text writes, or
/// the failure to read the rest.
pub open spec fn followed_by(
    bars: Seq<BinanceKline>,
    rest: Result<Seq<BinanceKline>, BacktestError>,
) -> Result<Seq<BinanceKline>, BacktestError> {
    match rest {
        Ok(more) => Ok(bars + more),
        Err(e) => Err(e),
    }
}

/// The bars that the lines of `text` from the place `from` on write, in
/// their order. A line ends at an end of line or at the end of the text; the
/// text behind its last end of line is a line too. The first line that is
/// refused has the whole text refused.
pub open spec fn klines_from(text: Seq<u8>, from: int) -> Result<Seq<BinanceKline>, BacktestError>
    decreases text.len() + 1 - from,
{
    if from < 0 || from > text.len() {
        Ok(Seq::empty())
    } else {
        let end = newline_from(text, from);
        proof {
            lemma_newline_bounds(text, from);
        }
        match kline_of(text.subrange(from, end)) {
            Err(e) => Err(e),
            Ok(Some(bar)) => followed_by(seq![bar], klines_from(text, end + 1)),
            Ok(None) => klines_from(text, end + 1),
        }
    }
}

/// The bars that the lines of `text` write, in their order.
pub open spec fn klines_of(text: Seq<u8>) -> Result<Seq<BinanceKline>, BacktestError> {
    klines_from(text, 0)
}

/// The bars that a result holds, as a sequence.
pub open spec fn bars_read(result: Result<Vec<BinanceKline>, BacktestError>) -> Result<
    Seq<BinanceKline>,
    BacktestError,
> {
    match result {
        Ok(bars) => Ok(bars@),
        Err(e) => Err(e),
    }
}

/// Bars read one after the other are the bars read together.
proof fn lemma_followed_by_one(
    before: Seq<BinanceKline>,
    bar: BinanceKline,
    rest: Result<Seq<BinanceKline>, BacktestError>,
)
    ensures
        followed_by(before, followed_by(seq![bar], rest)) == followed_by(before.push(bar), rest),
{
    if rest is Ok {
        assert(before + (seq![bar] + rest->Ok_0) =~= before.push(bar) + rest->Ok_0);
    }
}

/// Nothing follows where nothing is left.
proof fn lemma_followed_by_nothing(before: Seq<BinanceKline>)
    ensures
        followed_by(before, Ok(Seq::empty())) == Ok::<Seq<BinanceKline>, BacktestError>(before),
{
    assert(before + Seq::<BinanceKline>::empty() =~= before);
}

/// Reads the bars that the lines of `content` write, in their order. The
/// first line that is refused has the whole text refused.
pub fn parse_klines(content: &str) -> (r: Result<Vec<BinanceKline>, BacktestError>)
    ensures
        bars_read(r) == klines_of(content.spec_bytes()),
{
    let text = content.as_bytes();
    let mut bars: Vec<BinanceKline> = Vec::new();
    let mut start: usize = 0;
    let mut more = true;
    proof {
        let all = klines_from(text@, 0);
        if all is Ok {
            assert(Seq::<BinanceKline>::empty() + all->Ok_0 =~= all->Ok_0);
        }
    }
    while more
        invariant
            text@ == content.spec_bytes(),
            start <= text@.len(),
            more ==> klines_of(text@) == followed_by(bars@, klines_from(text@, start as int)),
            !more ==> klines_of(text@) == Ok::<Seq<BinanceKline>, BacktestError>(bars@),
        decreases
                (if more {
                    text@.len() - start + 1
                } else {
                    0
                }),
    {
        let end = find_newline(text, start);
        let ghost before = bars@;
        let ghost rest = klines_from(text@, end + 1);
        let ghost line = kline_of(text@.subrange(start as int, end as int));
        assert(klines_from(text@, start as int) == (match line {
            Err(e) => Err::<Seq<BinanceKline>, BacktestError>(e),
            Ok(Some(bar)) => followed_by(seq![bar], rest),
            Ok(None) => rest,
        }));
        match parse_kline(slice_subrange(text, start, end)) {
            Err(e) => {
                return Err(e);
            },
            Ok(Some(bar)) => {
                bars.push(bar);
                proof {
                    lemma_followed_by_one(before, bar, rest);
                }
            },
            Ok(None) => {},
        }
        assert(klines_of(text@) == followed_by(bars@, rest));
        if end < text.len() {
            start = end + 1;
        } else {
            more = false;
            proof {
                assert(rest == Ok::<Seq<BinanceKline>, BacktestError>(Seq::empty()));
                lemma_followed_by_nothing(bars@);
            }
        }
    }
    Ok(bars)
}

} // verus!
