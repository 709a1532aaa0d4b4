//! Numbers and fields in lines of text.
//!
//! A line is a sequence of bytes. Its fields are what stands between its
//! commas. A whole number is an optional sign and one digit or more. An
//! amount is an optional sign, digits, and optionally a point and more
//! digits, with at least one digit in all; it has no exponent.

use crate::decimal::{fits, narrow, narrowed, Decimal, SCALE};
use vstd::prelude::*;
use vstd::string::StringSliceAdditionalSpecFns;

verus! {

/// The byte of a comma.
pub const COMMA: u8 = 44;

/// The byte that ends a line.
pub const NEWLINE: u8 = 10;

/// The byte of a point.
pub const POINT: u8 = 46;

/// The byte of a minus sign.
pub const MINUS: u8 = 45;

/// The byte of a plus sign.
pub const PLUS: u8 = 43;

/// Whether `b` is a decimal digit.
pub open spec fn is_digit(b: u8) -> bool {
    48 <= b <= 57
}

/// Whether every byte of `s` is a decimal digit.
pub open spec fn all_digits(s: Seq<u8>) -> bool {
    forall|i: int| 0 <= i < s.len() ==> is_digit(#[trigger] s[i])
}

/// The number that the digits `s` write.
pub open spec fn digits_value(s: Seq<u8>) -> int
    decreases s.len(),
{
    if s.len() == 0 {
        0
    } else {
        digits_value(s.drop_last()) * 10 + (s.last() - 48)
    }
}

/// Ten to the power `n`.
pub open spec fn pow10(n: nat) -> int
    decreases n,
{
    if n == 0 {
        1
    } else {
        10 * pow10((n - 1) as nat)
    }
}

/// The place of the first comma of `line` at or after `from`, or the length
/// of the line where there is none.
pub open spec fn comma_from(line: Seq<u8>, from: int) -> int
    decreases line.len() - from,
{
    if from < 0 || from >= line.len() {
        line.len() as int
    } else if line[from] == COMMA {
        from
    } else {
        comma_from(line, from + 1)
    }
}

/// The place of the first end of line of `text` at or after `from`, or the
/// length of the text where there is none.
pub open spec fn newline_from(text: Seq<u8>, from: int) -> int
    decreases text.len() - from,
{
    if from < 0 || from >= text.len() {
        text.len() as int
    } else if text[from] == NEWLINE {
        from
    } else {
        newline_from(text, from + 1)
    }
}

/// A line ends at or behind the place where it starts, within the text.
pub proof fn lemma_newline_bounds(text: Seq<u8>, from: int)
    requires
        0 <= from <= text.len(),
    ensures
        from <= newline_from(text, from) <= text.len(),
    decreases text.len() - from,
{
    if from < text.len() && text[from] != NEWLINE {
        lemma_newline_bounds(text, from + 1);
    }
}

/// Where the field `k` of `line` starts: the first field at the start of the
/// line, each other one behind the comma that ends the field before it. A
/// place beyond the end of the line means that the line has no such field.
pub open spec fn field_start(line: Seq<u8>, k: nat) -> int
    decreases k,
{
    if k == 0 {
        0
    } else {
        comma_from(line, field_start(line, (k - 1) as nat)) + 1
    }
}

/// The field `k` of `line`, without its commas; `None` where the line has
/// fewer fields.
pub open spec fn field(line: Seq<u8>, k: nat) -> Option<Seq<u8>> {
    let start = field_start(line, k);
    if start > line.len() {
        None
    } else {
        Some(line.subrange(start, comma_from(line, start)))
    }
}

/// Whether `s` starts with a minus sign, and the number of bytes that its
/// sign takes: a minus or a plus sign takes one, no sign takes none.
pub open spec fn sign_of(s: Seq<u8>) -> (bool, int) {
    if s.len() > 0 && s[0] == MINUS {
        (true, 1)
    } else if s.len() > 0 && s[0] == PLUS {
        (false, 1)
    } else {
        (false, 0)
    }
}

/// The number `magnitude` with its sign.
pub open spec fn signed(negative: bool, magnitude: int) -> int {
    if negative {
        -magnitude
    } else {
        magnitude
    }
}

/// The whole number that `s` writes: an optional sign, then one digit or
/// more and nothing else. `None` where `s` is not of that form or the number
/// does not fit 64 bits.
pub open spec fn integer_of(s: Seq<u8>) -> Option<i64> {
    let (negative, skip) = sign_of(s);
    let digits = s.skip(skip);
    if digits.len() == 0 || !all_digits(digits) || !fits(signed(negative, digits_value(digits))) {
        None
    } else {
        Some(signed(negative, digits_value(digits)) as i64)
    }
}

/// The place of the first point of `s`, or the length of `s` where there is
/// none.
pub open spec fn point_in(s: Seq<u8>) -> int
    decreases s.len(),
{
    if s.len() == 0 {
        0
    } else if s[0] == POINT {
        0
    } else {
        1 + point_in(s.skip(1))
    }
}

/// The raw units that the digits `s` behind a point write: the first eight
/// of them count, the ones after them are dropped.
pub open spec fn fraction_value(s: Seq<u8>) -> int {
    if s.len() >= 8 {
        digits_value(s.take(8))
    } else {
        digits_value(s) * pow10((8 - s.len()) as nat)
    }
}

/// The amount with the digits `whole` before the point and `fraction` behind
/// it: `None` where there is no digit at all, where a byte is not a digit, or
/// where the amount is out of range.
pub open spec fn amount_of_parts(whole: Seq<u8>, fraction: Seq<u8>, negative: bool) -> Option<
    Decimal,
> {
    if whole.len() + fraction.len() == 0 || !all_digits(whole) || !all_digits(fraction) {
        None
    } else {
        narrowed(signed(negative, digits_value(whole) * SCALE + fraction_value(fraction)))
    }
}

/// The amount that `body` writes without a sign: digits, and optionally a
/// point and more digits.
pub open spec fn amount_of(body: Seq<u8>, negative: bool) -> Option<Decimal> {
    let point = point_in(body);
    amount_of_parts(
        body.take(point),
        if point < body.len() {
            body.skip(point + 1)
        } else {
            Seq::<u8>::empty()
        },
        negative,
    )
}

/// The amount that `s` writes: an optional sign, digits, and optionally a
/// point and more digits, with at least one digit in all. Digits behind the
/// eighth place after the point are dropped. `None` where `s` is not of that
/// form or the amount is out of range.
pub open spec fn decimal_of(s: Seq<u8>) -> Option<Decimal> {
    let (negative, skip) = sign_of(s);
    amount_of(s.skip(skip), negative)
}

/// The number of the digits grows with each digit that is added.
proof fn lemma_digits_push(s: Seq<u8>, i: int)
    requires
        0 <= i < s.len(),
        is_digit(s[i]),
    ensures
        digits_value(s.take(i + 1)) == digits_value(s.take(i)) * 10 + (s[i] - 48),
        digits_value(s.take(i + 1)) >= digits_value(s.take(i)) * 10,
{
    assert(s.take(i + 1).drop_last() =~= s.take(i));
}

/// The number of digits is not negative.
proof fn lemma_digits_nonnegative(s: Seq<u8>)
    requires
        all_digits(s),
    ensures
        digits_value(s) >= 0,
    decreases s.len(),
{
    if s.len() > 0 {
        assert(all_digits(s.drop_last())) by {
            assert forall|i: int| 0 <= i < s.drop_last().len() implies is_digit(
                #[trigger] s.drop_last()[i],
            ) by {
                assert(s.drop_last()[i] == s[i]);
            }
        }
        lemma_digits_nonnegative(s.drop_last());
    }
}

/// The place of the first comma of `line` at or after `from`, or the length
/// of the line.
pub fn find_comma(line: &[u8], from: usize) -> (r: usize)
    ensures
        r == comma_from(line@, from as int),
        from <= line@.len() ==> from <= r <= line@.len(),
{
    if from >= line.len() {
        return line.len();
    }
    let mut i: usize = from;
    while i < line.len() && line[i] != COMMA
        invariant
            from <= i <= line@.len(),
            comma_from(line@, from as int) == comma_from(line@, i as int),
        decreases line@.len() - i,
    {
        i = i + 1;
    }
    i
}

/// The place of the first end of line of `text` at or after `from`, or the
/// length of the text.
pub fn find_newline(text: &[u8], from: usize) -> (r: usize)
    ensures
        r == newline_from(text@, from as int),
        from <= text@.len() ==> from <= r <= text@.len(),
{
    if from >= text.len() {
        return text.len();
    }
    let mut i: usize = from;
    while i < text.len() && text[i] != NEWLINE
        invariant
            from <= i <= text@.len(),
            newline_from(text@, from as int) == newline_from(text@, i as int),
        decreases text@.len() - i,
    {
        i = i + 1;
    }
    i
}

/// The place of the first point of `line` between `from` and `to`, or `to`.
fn find_point(line: &[u8], from: usize, to: usize) -> (r: usize)
    requires
        from <= to <= line@.len(),
    ensures
        from <= r <= to,
        r - from == point_in(line@.subrange(from as int, to as int)),
{
    let mut i: usize = from;
    let ghost s = line@.subrange(from as int, to as int);
    proof {
        assert(s.skip(0) =~= s);
    }
    while i < to && line[i] != POINT
        invariant
            from <= i <= to <= line@.len(),
            s == line@.subrange(from as int, to as int),
            point_in(s) == (i - from) + point_in(s.skip(i - from)),
        decreases to - i,
    {
        proof {
            let rest = s.skip(i - from);
            assert(rest[0] == line@[i as int]);
            assert(rest.skip(1) =~= s.skip(i + 1 - from));
        }
        i = i + 1;
    }
    proof {
        let rest = s.skip(i - from);
        if i < to {
            assert(rest[0] == line@[i as int]);
        } else {
            assert(rest.len() == 0);
        }
    }
    i
}

/// The number that the bytes of `line` between `from` and `to` write, where
/// they are all digits and the number is at most `limit`; `None` else.
fn parse_digits(line: &[u8], from: usize, to: usize, limit: u64) -> (r: Option<u64>)
    requires
        from <= to <= line@.len(),
        limit <= 0x8000_0000_0000_0000,
    ensures
        r is Some <==> all_digits(line@.subrange(from as int, to as int)) && digits_value(
            line@.subrange(from as int, to as int),
        ) <= limit,
        r is Some ==> r->Some_0 == digits_value(line@.subrange(from as int, to as int)),
{
    let ghost s = line@.subrange(from as int, to as int);
    let mut value: u128 = 0;
    let mut i: usize = from;
    proof {
        assert(s.take(0) =~= Seq::<u8>::empty());
    }
    while i < to
        invariant
            from <= i <= to <= line@.len(),
            limit <= 0x8000_0000_0000_0000,
            s == line@.subrange(from as int, to as int),
            all_digits(s.take(i - from)),
            value <= limit ==> value == digits_value(s.take(i - from)),
            value > limit ==> value == limit + 1 && digits_value(s.take(i - from)) > limit,
        decreases to - i,
    {
        let b = line[i];
        if b < 48 || b > 57 {
            proof {
                assert(s[i - from] == b);
            }
            return None;
        }
        proof {
            assert(s[i - from] == b);
            lemma_digits_push(s, i - from);
            lemma_digits_nonnegative(s.take(i - from));
            assert forall|k: int| 0 <= k < s.take(i + 1 - from).len() implies is_digit(
                #[trigger] s.take(i + 1 - from)[k],
            ) by {
                if k < i - from {
                    assert(s.take(i + 1 - from)[k] == s.take(i - from)[k]);
                }
            }
        }
        if value <= limit as u128 {
            value = value * 10 + ((b - 48) as u128);
            if value > limit as u128 {
                value = limit as u128 + 1;
            }
        }
        i = i + 1;
    }
    proof {
        assert(s.take(to - from) =~= s);
    }
    if value > limit as u128 {
        None
    } else {
        Some(value as u64)
    }
}

/// The whole number that the bytes of `line` between `from` and `to` write.
pub fn parse_integer(line: &[u8], from: usize, to: usize) -> (r: Option<i64>)
    requires
        from <= to <= line@.len(),
    ensures
        r == integer_of(line@.subrange(from as int, to as int)),
{
    let ghost s = line@.subrange(from as int, to as int);
    let negative = from < to && line[from] == MINUS;
    let signed = negative || (from < to && line[from] == PLUS);
    let start: usize = if signed {
        from + 1
    } else {
        from
    };
    proof {
        if from < to {
            assert(s[0] == line@[from as int]);
        }
        assert(s.skip(start - from) =~= line@.subrange(start as int, to as int));
    }
    if start == to {
        return None;
    }
    let limit: u64 = if negative {
        0x8000_0000_0000_0000
    } else {
        0x7fff_ffff_ffff_ffff
    };
    proof {
        if all_digits(line@.subrange(start as int, to as int)) {
            lemma_digits_nonnegative(line@.subrange(start as int, to as int));
        }
    }
    match parse_digits(line, start, to, limit) {
        Some(magnitude) => {
            if negative {
                Some((0 - (magnitude as i128)) as i64)
            } else {
                Some(magnitude as i64)
            }
        },
        None => None,
    }
}

/// The raw units that the digits of `line` between `from` and `to` write
/// behind a point; `None` where a byte is not a digit.
fn parse_fraction(line: &[u8], from: usize, to: usize) -> (r: Option<u64>)
    requires
        from <= to <= line@.len(),
    ensures
        r is Some <==> all_digits(line@.subrange(from as int, to as int)),
        r is Some ==> r->Some_0 == fraction_value(line@.subrange(from as int, to as int)),
        r is Some ==> r->Some_0 < SCALE,
{
    let ghost s = line@.subrange(from as int, to as int);
    let mut value: u64 = 0;
    let mut i: usize = from;
    proof {
        assert(s.take(0) =~= Seq::<u8>::empty());
        lemma_pow10_bounds(0);
    }
    while i < to
        invariant
            from <= i <= to <= line@.len(),
            s == line@.subrange(from as int, to as int),
            all_digits(s.take(i - from)),
            i - from <= 8 ==> value == digits_value(s.take(i - from)) && value < pow10(
                (i - from) as nat,
            ),
            i - from > 8 ==> value == digits_value(s.take(8)) && value < pow10(8),
            pow10(8) == 100_000_000,
        decreases to - i,
    {
        let b = line[i];
        if b < 48 || b > 57 {
            proof {
                assert(s[i - from] == b);
            }
            return None;
        }
        proof {
            assert(s[i - from] == b);
            lemma_digits_push(s, i - from);
            assert forall|k: int| 0 <= k < s.take(i + 1 - from).len() implies is_digit(
                #[trigger] s.take(i + 1 - from)[k],
            ) by {
                if k < i - from {
                    assert(s.take(i + 1 - from)[k] == s.take(i - from)[k]);
                }
            }
            if i - from < 8 {
                lemma_pow10_bounds((i - from) as nat);
                assert(pow10((i + 1 - from) as nat) == 10 * pow10((i - from) as nat));
            }
        }
        if i - from < 8 {
            value = value * 10 + ((b - 48) as u64);
        }
        i = i + 1;
    }
    proof {
        assert(s.take(to - from) =~= s);
        lemma_pow10_bounds((to - from) as nat);
    }
    let digits = to - from;
    if digits >= 8 {
        Some(value)
    } else {
        let mut scaled: u64 = value;
        let mut k: usize = digits;
        proof {
            assert(pow10(0) == 1);
            assert(value * pow10(0) == value) by (nonlinear_arith)
                requires
                    pow10(0) == 1,
            ;
        }
        while k < 8
            invariant
                digits <= k <= 8,
                scaled == value * pow10((k - digits) as nat),
                scaled < pow10(k as nat),
                value < pow10(digits as nat),
                pow10(8) == 100_000_000,
            decreases 8 - k,
        {
            proof {
                lemma_pow10_bounds(k as nat);
                assert(pow10((k + 1 - digits) as nat) == 10 * pow10((k - digits) as nat));
                assert(pow10((k + 1) as nat) == 10 * pow10(k as nat));
                assert(value * (10 * pow10((k - digits) as nat)) == 10 * (value * pow10(
                    (k - digits) as nat,
                ))) by (nonlinear_arith);
            }
            scaled = scaled * 10;
            k = k + 1;
        }
        Some(scaled)
    }
}

/// The powers of ten up to the eighth.
proof fn lemma_pow10_bounds(n: nat)
    ensures
        pow10(n) >= 1,
        n <= 8 ==> pow10(n) <= 100_000_000,
        pow10(8) == 100_000_000,
    decreases n,
{
    reveal_with_fuel(pow10, 10);
    if n > 0 {
        lemma_pow10_bounds((n - 1) as nat);
    }
}

/// The amount with the digits of `line` between `start` and `point` before
/// the point and those between `fraction_start` and `to` behind it.
fn parse_parts(
    line: &[u8],
    start: usize,
    point: usize,
    fraction_start: usize,
    to: usize,
    negative: bool,
) -> (r: Option<Decimal>)
    requires
        start <= point <= fraction_start <= to <= line@.len(),
    ensures
        r == amount_of_parts(
            line@.subrange(start as int, point as int),
            line@.subrange(fraction_start as int, to as int),
            negative,
        ),
{
    let ghost whole = line@.subrange(start as int, point as int);
    if (point - start) + (to - fraction_start) == 0 {
        return None;
    }
    let raw_fraction = match parse_fraction(line, fraction_start, to) {
        Some(f) => f,
        None => {
            return None;
        },
    };
    proof {
        if all_digits(whole) {
            lemma_digits_nonnegative(whole);
        }
        lemma_whole_too_large(whole, raw_fraction as int);
    }
    let units = match parse_digits(line, start, point, 92_233_720_369) {
        Some(u) => u,
        None => {
            return None;
        },
    };
    let magnitude: i128 = (units as i128) * (SCALE as i128) + (raw_fraction as i128);
    if negative {
        narrow(0 - magnitude)
    } else {
        narrow(magnitude)
    }
}

/// The amount that the bytes of `line` between `start` and `to` write
/// without a sign.
fn parse_amount(line: &[u8], start: usize, to: usize, negative: bool) -> (r: Option<Decimal>)
    requires
        start <= to <= line@.len(),
    ensures
        r == amount_of(line@.subrange(start as int, to as int), negative),
{
    let ghost body = line@.subrange(start as int, to as int);
    let point = find_point(line, start, to);
    let fraction_start: usize = if point < to {
        point + 1
    } else {
        to
    };
    proof {
        assert(body.take(point - start) =~= line@.subrange(start as int, point as int));
        if point < to {
            assert(body.skip(point - start + 1) =~= line@.subrange(
                fraction_start as int,
                to as int,
            ));
        } else {
            assert(line@.subrange(fraction_start as int, to as int) =~= Seq::<u8>::empty());
        }
    }
    parse_parts(line, start, point, fraction_start, to, negative)
}

/// The amount that the bytes of `line` between `from` and `to` write.
pub fn parse_decimal(line: &[u8], from: usize, to: usize) -> (r: Option<Decimal>)
    requires
        from <= to <= line@.len(),
    ensures
        r == decimal_of(line@.subrange(from as int, to as int)),
{
    let ghost s = line@.subrange(from as int, to as int);
    let negative = from < to && line[from] == MINUS;
    let signed = negative || (from < to && line[from] == PLUS);
    let start: usize = if signed {
        from + 1
    } else {
        from
    };
    proof {
        if from < to {
            assert(s[0] == line@[from as int]);
        }
        assert(s.skip(start - from) =~= line@.subrange(start as int, to as int));
    }
    parse_amount(line, start, to, negative)
}

/// A whole part beyond the limit of the parser is out of range whatever
/// stands behind the point.
proof fn lemma_whole_too_large(whole: Seq<u8>, fraction: int)
    ensures
        digits_value(whole) > 92_233_720_369 && fraction >= 0 ==> !fits(
            digits_value(whole) * SCALE + fraction,
        ) && !fits(-(digits_value(whole) * SCALE + fraction)),
{
    let w = digits_value(whole);
    if w > 92_233_720_369 && fraction >= 0 {
        assert(w * SCALE >= 92_233_720_370 * 100_000_000) by (nonlinear_arith)
            requires
                w >= 92_233_720_370,
                SCALE == 100_000_000,
        ;
    }
}

/// The field of `line` that starts at `start`, without its commas; `None`
/// where `start` is beyond the end of the line.
pub open spec fn field_from(line: Seq<u8>, start: int) -> Option<Seq<u8>> {
    if start > line.len() {
        None
    } else {
        Some(line.subrange(start, comma_from(line, start)))
    }
}

/// The place that `start` stands for in a line of the length `len`: its
/// value, or the place beyond the end where there is none.
pub open spec fn place(start: Option<usize>, len: nat) -> int {
    match start {
        Some(s) => s as int,
        None => (len + 1) as int,
    }
}

/// The end of the field of `line` that starts at `start`, and the start of
/// the field behind it, where there is one.
pub fn field_end(line: &[u8], start: usize) -> (r: (usize, Option<usize>))
    requires
        start <= line@.len(),
    ensures
        r.0 == comma_from(line@, start as int),
        start <= r.0 <= line@.len(),
        place(r.1, line@.len()) == r.0 + 1,
        r.1 is Some <==> r.0 < line@.len(),
{
    let end = find_comma(line, start);
    if end < line.len() {
        (end, Some(end + 1))
    } else {
        (end, None)
    }
}

impl Decimal {
    /// The amount that `text` writes: an optional sign, digits, and
    /// optionally a point and more digits, with at least one digit in all.
    /// `None` where `text` is not of that form or the amount is out of range.
    pub fn parse(text: &str) -> (r: Option<Decimal>)
        ensures
            r == decimal_of(text.spec_bytes()),
    {
        let bytes = text.as_bytes();
        proof {
            assert(bytes@.subrange(0, bytes@.len() as int) =~= bytes@);
        }
        parse_decimal(bytes, 0, bytes.len())
    }
}

} // verus!
