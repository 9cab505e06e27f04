//! Time: the one fixed timestamp form, durations of days and clock time, and clocks.
//!
//! A timestamp is exactly twenty-four characters, `YYYY-MM-DDThh:mm:ss.mmmZ`, so its order as a
//! text is the order of the instants it names. A clock may be run ahead of the host's, never
//! behind it.

use vstd::prelude::*;

use crate::calendar::{
    civil_from_days, date_of, day_number, days_before_month, days_from_civil, days_in_month,
    earlier, is_date, lemma_date_of, lemma_day_number_injective, lemma_day_number_ordered, Date,
};
use crate::error::{fault, is_text_result, Error, Fault};
use crate::text::{
    all_digits, chars_of, debug_text, decimal, decimal_text, digit, is_digit, join2, join3, join4, join5,
    differ_at, numeral, precedes, quoted, signed, signed_text, zero_pad, zero_padded,
};

pub mod declaration;

pub use crate::clock::declaration::{declare_advance, from_config};

verus! {

/// The first instant the fixed form can express, in milliseconds from the first of January 1970.
pub const FIRST_INSTANT: i64 = -62_135_596_800_000;

/// The last instant the fixed form can express, in milliseconds from the first of January 1970.
pub const LAST_INSTANT: i64 = 253_402_300_799_999;

// -- timestamps -------------------------------------------------------------------------------

/// A number in at least `width` digits.
pub open spec fn digits(n: int, width: int) -> Seq<char> {
    zero_padded(decimal(n as nat), width)
}

/// A year in at least four places, of which a minus sign is one.
pub open spec fn year_text(year: int) -> Seq<char> {
    if year < 0 {
        seq!['-'] + digits(-year, 3)
    } else {
        digits(year, 4)
    }
}

/// The text of an instant given in milliseconds from the first of January 1970.
pub open spec fn stamp(millis: int) -> Seq<char> {
    let date = date_of(millis / 86_400_000);
    let time = millis % 86_400_000;
    year_text(date.year) + seq!['-'] + digits(date.month, 2) + seq!['-'] + digits(date.day, 2)
        + seq!['T'] + digits(time / 3_600_000, 2) + seq![':'] + digits(time / 60_000 % 60, 2)
        + seq![':'] + digits(time / 1_000 % 60, 2) + seq!['.'] + digits(time % 1_000, 3) + seq!['Z']
}

/// The number written at `from .. to` of a text.
pub open spec fn field(s: Seq<char>, from: int, to: int) -> int {
    numeral(s.subrange(from, to))
}

/// The date a text in the fixed form names.
pub open spec fn date_field(s: Seq<char>) -> Date {
    Date { year: field(s, 0, 4), month: field(s, 5, 7), day: field(s, 8, 10) }
}

/// Whether a text has the fixed form's separators and digits in their places.
pub open spec fn is_stamp_shaped(s: Seq<char>) -> bool {
    &&& s.len() == 24
    &&& s[4] == '-' && s[7] == '-' && s[10] == 'T' && s[13] == ':' && s[16] == ':' && s[19] == '.'
        && s[23] == 'Z'
    &&& all_digits(s.subrange(0, 4))
    &&& all_digits(s.subrange(5, 7))
    &&& all_digits(s.subrange(8, 10))
    &&& all_digits(s.subrange(11, 13))
    &&& all_digits(s.subrange(14, 16))
    &&& all_digits(s.subrange(17, 19))
    &&& all_digits(s.subrange(20, 23))
}

/// Whether a text names an instant in the fixed form: its shape, a date of the calendar from year
/// one on, and a time of day. A sixtieth second is none.
pub open spec fn is_timestamp(s: Seq<char>) -> bool {
    &&& is_stamp_shaped(s)
    &&& field(s, 0, 4) >= 1
    &&& is_date(date_field(s))
    &&& field(s, 11, 13) <= 23
    &&& field(s, 14, 16) <= 59
    &&& field(s, 17, 19) <= 59
}

/// The instant a timestamp names, in milliseconds from the first of January 1970.
pub open spec fn instant(s: Seq<char>) -> int {
    (day_number(date_field(s)) * 86_400 + field(s, 11, 13) * 3_600 + field(s, 14, 16) * 60 + field(
        s,
        17,
        19,
    )) * 1_000 + field(s, 20, 23)
}

/// The refusal of a text that is no timestamp.
pub open spec fn bad_timestamp(s: Seq<char>) -> Fault {
    fault("encoding-bad-timestamp"@, quoted(s))
}

/// The number written at `from .. to`, where there are only digits.
fn read_field(chars: &Vec<char>, from: usize, to: usize) -> (r: Option<i64>)
    requires
        from <= to <= chars@.len(),
        to - from <= 4,
    ensures
        r == (if all_digits(chars@.subrange(from as int, to as int)) {
            Some(field(chars@, from as int, to as int) as i64)
        } else {
            None
        }),
        r matches Some(v) ==> 0 <= v < 10_000 && v == field(chars@, from as int, to as int) && (to
            - from == 2 ==> v < 100),
{
    let mut value: i64 = 0;
    let mut i: usize = from;
    let ghost whole = chars@.subrange(from as int, to as int);
    proof {
        assert(whole.take(0) == Seq::<char>::empty());
    }
    while i < to
        invariant
            from <= i <= to <= chars@.len(),
            to - from <= 4,
            whole == chars@.subrange(from as int, to as int),
            all_digits(whole.take(i - from)),
            value == numeral(whole.take(i - from)),
            0 <= value,
            i == from ==> value == 0,
            i == from + 1 ==> value < 10,
            i == from + 2 ==> value < 100,
            i == from + 3 ==> value < 1_000,
            i == from + 4 ==> value < 10_000,
        decreases to - i,
    {
        let c: char = chars[i];
        proof {
            assert(whole[i - from] == c);
            assert(whole.take(i + 1 - from).drop_last() == whole.take(i - from));
            assert(whole.take(i + 1 - from).last() == c);
        }
        if !(c >= '0' && c <= '9') {
            return None;
        }
        proof {
            assert forall|k: int| 0 <= k < i + 1 - from implies is_digit(
                #[trigger] whole.take(i + 1 - from)[k],
            ) by {
                if k < i - from {
                    assert(whole.take(i + 1 - from)[k] == whole.take(i - from)[k]);
                }
            }
        }
        value = value * 10 + (c as u32 - 48) as i64;
        i += 1;
    }
    assert(whole.take(to - from) == whole);
    Some(value)
}

/// A two-digit number, from its digits.
proof fn lemma_field2(s: Seq<char>, from: int)
    requires
        0 <= from,
        from + 2 <= s.len(),
    ensures
        field(s, from, from + 2) == (s[from] as int - 48) * 10 + (s[from + 1] as int - 48),
{
    let t = s.subrange(from, from + 2);
    reveal_with_fuel(numeral, 3);
    assert(t.drop_last() == seq![s[from]]);
    assert(t.drop_last().drop_last() == Seq::<char>::empty());
}

/// A three-digit number, from its digits.
proof fn lemma_field3(s: Seq<char>, from: int)
    requires
        0 <= from,
        from + 3 <= s.len(),
    ensures
        field(s, from, from + 3) == (s[from] as int - 48) * 100 + (s[from + 1] as int - 48) * 10 + (
        s[from + 2] as int - 48),
{
    let t = s.subrange(from, from + 3);
    reveal_with_fuel(numeral, 2);
    assert(t.drop_last() == s.subrange(from, from + 2));
    lemma_field2(s, from);
}

/// A four-digit number, from its digits.
proof fn lemma_field4(s: Seq<char>, from: int)
    requires
        0 <= from,
        from + 4 <= s.len(),
    ensures
        field(s, from, from + 4) == (s[from] as int - 48) * 1_000 + (s[from + 1] as int - 48) * 100
            + (s[from + 2] as int - 48) * 10 + (s[from + 3] as int - 48),
{
    let t = s.subrange(from, from + 4);
    reveal_with_fuel(numeral, 2);
    assert(t.drop_last() == s.subrange(from, from + 3));
    lemma_field3(s, from);
}

/// The digits of a text in the fixed form, each by its own.
proof fn lemma_stamp_digits(s: Seq<char>)
    requires
        is_stamp_shaped(s),
    ensures
        is_digit(s[0]) && is_digit(s[1]) && is_digit(s[2]) && is_digit(s[3]),
        is_digit(s[5]) && is_digit(s[6]) && is_digit(s[8]) && is_digit(s[9]),
        is_digit(s[11]) && is_digit(s[12]) && is_digit(s[14]) && is_digit(s[15]),
        is_digit(s[17]) && is_digit(s[18]),
        is_digit(s[20]) && is_digit(s[21]) && is_digit(s[22]),
        field(s, 0, 4) == (s[0] as int - 48) * 1_000 + (s[1] as int - 48) * 100 + (s[2] as int - 48)
            * 10 + (s[3] as int - 48),
        field(s, 5, 7) == (s[5] as int - 48) * 10 + (s[6] as int - 48),
        field(s, 8, 10) == (s[8] as int - 48) * 10 + (s[9] as int - 48),
        field(s, 11, 13) == (s[11] as int - 48) * 10 + (s[12] as int - 48),
        field(s, 14, 16) == (s[14] as int - 48) * 10 + (s[15] as int - 48),
        field(s, 17, 19) == (s[17] as int - 48) * 10 + (s[18] as int - 48),
        field(s, 20, 23) == (s[20] as int - 48) * 100 + (s[21] as int - 48) * 10 + (s[22] as int
            - 48),
{
    assert(s.subrange(0, 4)[0] == s[0] && s.subrange(0, 4)[1] == s[1] && s.subrange(0, 4)[2] == s[2]
        && s.subrange(0, 4)[3] == s[3]);
    assert(s.subrange(5, 7)[0] == s[5] && s.subrange(5, 7)[1] == s[6]);
    assert(s.subrange(8, 10)[0] == s[8] && s.subrange(8, 10)[1] == s[9]);
    assert(s.subrange(11, 13)[0] == s[11] && s.subrange(11, 13)[1] == s[12]);
    assert(s.subrange(14, 16)[0] == s[14] && s.subrange(14, 16)[1] == s[15]);
    assert(s.subrange(17, 19)[0] == s[17] && s.subrange(17, 19)[1] == s[18]);
    assert(s.subrange(20, 23)[0] == s[20] && s.subrange(20, 23)[1] == s[21] && s.subrange(20, 23)[2]
        == s[22]);
    lemma_field4(s, 0);
    lemma_field2(s, 5);
    lemma_field2(s, 8);
    lemma_field2(s, 11);
    lemma_field2(s, 14);
    lemma_field2(s, 17);
    lemma_field3(s, 20);
}

/// A timestamp names an instant of the years one to 9999.
pub proof fn lemma_instant_in_range(s: Seq<char>)
    requires
        is_timestamp(s),
    ensures
        FIRST_INSTANT <= instant(s) <= LAST_INSTANT,
{
    lemma_stamp_digits(s);
    let d = date_field(s);
    let first = Date { year: 1, month: 1, day: 1 };
    let last = Date { year: 9_999, month: 12, day: 31 };
    lemma_range_days();
    if d != first {
        assert(earlier(first, d));
        lemma_day_number_ordered(first, d);
    }
    if d != last {
        assert(earlier(d, last));
        lemma_day_number_ordered(d, last);
    }
}

/// The day numbers of the first and last dates of the fixed form.
proof fn lemma_range_days()
    ensures
        day_number(Date { year: 1, month: 1, day: 1 }) == -719_162,
        day_number(Date { year: 9_999, month: 12, day: 31 }) == 2_932_896,
{
    reveal_with_fuel(days_before_month, 13);
}

/// Reads a timestamp in the fixed form, in milliseconds from the first of January 1970.
///
/// Any other shape is refused, not repaired.
pub fn parse_timestamp(text: &str) -> (r: Result<i64, Error>)
    ensures
        is_timestamp(text@) ==> (r matches Ok(m) && m == instant(text@)),
        !is_timestamp(text@) ==> (r matches Err(e) && e@ == bad_timestamp(text@)),
        r matches Ok(m) ==> FIRST_INSTANT <= m <= LAST_INSTANT,
{
    let b = chars_of(text);
    if b.len() != 24 {
        return Err(Error::new("encoding-bad-timestamp", debug_text(text)));
    }
    if !(b[4] == '-' && b[7] == '-' && b[10] == 'T' && b[13] == ':' && b[16] == ':' && b[19] == '.'
        && b[23] == 'Z') {
        return Err(Error::new("encoding-bad-timestamp", debug_text(text)));
    }
    match (
        read_field(&b, 0, 4),
        read_field(&b, 5, 7),
        read_field(&b, 8, 10),
        read_field(&b, 11, 13),
        read_field(&b, 14, 16),
        read_field(&b, 17, 19),
        read_field(&b, 20, 23),
    ) {
        (
            Some(year),
            Some(month),
            Some(day),
            Some(hour),
            Some(minute),
            Some(second),
            Some(millis),
        ) => {
            if year < 1 || month < 1 || month > 12 || day < 1 || day > days_in_month(year, month) {
                return Err(Error::new("encoding-bad-timestamp", debug_text(text)));
            }
            if hour > 23 || minute > 59 || second > 59 {
                return Err(Error::new("encoding-bad-timestamp", debug_text(text)));
            }
            proof {
                assert(is_timestamp(text@));
                lemma_instant_in_range(text@);
            }
            let days: i64 = days_from_civil(year, month, day);
            Ok((days * 86_400 + hour * 3_600 + minute * 60 + second) * 1_000 + millis)
        },
        _ => Err(Error::new("encoding-bad-timestamp", debug_text(text))),
    }
}

/// A number in at least `width` digits.
fn digits_text(n: i64, width: usize) -> (r: String)
    requires
        n >= 0,
    ensures
        r@ == digits(n as int, width as int),
{
    zero_pad(decimal_text(n as u64), width)
}

/// Renders an instant, given in milliseconds from the first of January 1970, in the fixed form.
pub fn format_millis(millis: i64) -> (r: String)
    ensures
        r@ == stamp(millis as int),
{
    let day_index: i64 = millis.checked_div_euclid(86_400_000).unwrap();
    let time: i64 = millis.checked_rem_euclid(86_400_000).unwrap();
    let (year, month, day) = civil_from_days(day_index);
    let mut out = if year < 0 {
        let mut negative = String::new();
        negative.push('-');
        let magnitude = digits_text(-year, 3);
        negative.push_str(magnitude.as_str());
        assert(negative@ == seq!['-'] + magnitude@);
        negative
    } else {
        digits_text(year, 4)
    };
    out.push('-');
    out.push_str(digits_text(month, 2).as_str());
    out.push('-');
    out.push_str(digits_text(day, 2).as_str());
    out.push('T');
    out.push_str(digits_text(time / 3_600_000, 2).as_str());
    out.push(':');
    out.push_str(digits_text(time / 60_000 % 60, 2).as_str());
    out.push(':');
    out.push_str(digits_text(time / 1_000 % 60, 2).as_str());
    out.push('.');
    out.push_str(digits_text(time % 1_000, 3).as_str());
    out.push('Z');
    assert(out@ == stamp(millis as int));
    out
}

/// What shifting a text by a number of seconds gives: the timestamp so much later, where the text
/// is a timestamp and the result is still in the fixed form's range.
pub open spec fn shifted(s: Seq<char>, seconds: int) -> Result<Seq<char>, Fault> {
    if !is_timestamp(s) {
        Err(bad_timestamp(s))
    } else if FIRST_INSTANT <= instant(s) + seconds * 1_000 <= LAST_INSTANT {
        Ok(stamp(instant(s) + seconds * 1_000))
    } else {
        Err(
            fault(
                "encoding-bad-timestamp"@,
                quoted(s) + " shifted by "@ + signed(seconds) + "s leaves the representable range"@,
            ),
        )
    }
}

/// Shifts a timestamp by whole seconds, staying in the fixed form.
pub fn shift(text: &str, seconds: i64) -> (r: Result<String, Error>)
    ensures
        is_text_result(r, shifted(text@, seconds as int)),
{
    let millis: i64 = parse_timestamp(text)?;
    if let Some(delta) = seconds.checked_mul(1_000) {
        if let Some(moved) = millis.checked_add(delta) {
            if FIRST_INSTANT <= moved && moved <= LAST_INSTANT {
                return Ok(format_millis(moved));
            }
        }
    }
    Err(
        Error::new(
            "encoding-bad-timestamp",
            join4(
                debug_text(text).as_str(),
                " shifted by ",
                signed_text(seconds).as_str(),
                "s leaves the representable range",
            ),
        ),
    )
}

/// A two-digit rendering, digit by digit.
proof fn lemma_digits2(n: int)
    requires
        0 <= n < 100,
    ensures
        digits(n, 2) == seq![digit(n / 10), digit(n % 10)],
{
    reveal_with_fuel(decimal, 2);
    reveal_with_fuel(zero_padded, 2);
}

/// A three-digit rendering, digit by digit.
proof fn lemma_digits3(n: int)
    requires
        0 <= n < 1_000,
    ensures
        digits(n, 3) == seq![digit(n / 100), digit(n / 10 % 10), digit(n % 10)],
{
    reveal_with_fuel(decimal, 3);
    reveal_with_fuel(zero_padded, 3);
}

/// A four-digit rendering, digit by digit.
proof fn lemma_digits4(n: int)
    requires
        0 <= n < 10_000,
    ensures
        digits(n, 4) == seq![
            digit(n / 1_000),
            digit(n / 100 % 10),
            digit(n / 10 % 10),
            digit(n % 10),
        ],
{
    reveal_with_fuel(decimal, 4);
    reveal_with_fuel(zero_padded, 4);
}

/// An instant of the years one to 9999 falls on a date of those years.
proof fn lemma_date_in_range(millis: int)
    requires
        FIRST_INSTANT <= millis <= LAST_INSTANT,
    ensures
        is_date(date_of(millis / 86_400_000)),
        day_number(date_of(millis / 86_400_000)) == millis / 86_400_000,
        1 <= date_of(millis / 86_400_000).year <= 9_999,
{
    let number = millis / 86_400_000;
    let d = date_of(number);
    lemma_date_of(number);
    lemma_range_days();
    let first = Date { year: 1, month: 1, day: 1 };
    let last = Date { year: 9_999, month: 12, day: 31 };
    if d.year < 1 {
        lemma_day_number_ordered(d, first);
    }
    if d.year > 9_999 {
        lemma_day_number_ordered(last, d);
    }
}

/// The text of an instant of the years one to 9999, character by character.
proof fn lemma_stamp_text(millis: int)
    requires
        FIRST_INSTANT <= millis <= LAST_INSTANT,
    ensures
        ({
            let d = date_of(millis / 86_400_000);
            let time = millis % 86_400_000;
            let h = time / 3_600_000;
            let m = time / 60_000 % 60;
            let s = time / 1_000 % 60;
            let f = time % 1_000;
            stamp(millis) == spelled(d.year, d.month, d.day, h, m, s, f)
        }),
{
    lemma_date_in_range(millis);
    let d = date_of(millis / 86_400_000);
    let time = millis % 86_400_000;
    lemma_digits4(d.year);
    lemma_digits2(d.month);
    lemma_digits2(d.day);
    lemma_digits2(time / 3_600_000);
    lemma_digits2(time / 60_000 % 60);
    lemma_digits2(time / 1_000 % 60);
    lemma_digits3(time % 1_000);
}

/// A number below ten thousand is the sum of its digits by place.
proof fn lemma_places(n: int)
    requires
        0 <= n < 10_000,
    ensures
        0 <= n / 1_000 <= 9,
        0 <= n / 100 % 10 <= 9,
        0 <= n / 10 % 10 <= 9,
        0 <= n % 10 <= 9,
        n == n / 1_000 * 1_000 + n / 100 % 10 * 100 + n / 10 % 10 * 10 + n % 10,
        n < 1_000 ==> n / 100 % 10 == n / 100,
        n < 100 ==> n / 10 % 10 == n / 10,
{
    assert(n / 100 == n / 10 / 10);
    assert(n / 1_000 == n / 100 / 10);
}

/// A time of day in milliseconds is the sum of its parts.
proof fn lemma_time_parts(time: int)
    requires
        0 <= time < 86_400_000,
    ensures
        0 <= time / 3_600_000 <= 23,
        0 <= time / 60_000 % 60 <= 59,
        0 <= time / 1_000 % 60 <= 59,
        0 <= time % 1_000 <= 999,
        time == (time / 3_600_000 * 3_600 + time / 60_000 % 60 * 60 + time / 1_000 % 60) * 1_000
            + time % 1_000,
{
    assert(time / 60_000 == time / 1_000 / 60);
    assert(time / 3_600_000 == time / 1_000 / 60 / 60);
}

/// The parts of a time of day are those it was put together from.
proof fn lemma_time_split(h: int, m: int, s: int, f: int)
    requires
        0 <= h <= 23,
        0 <= m <= 59,
        0 <= s <= 59,
        0 <= f <= 999,
    ensures
        ({
            let time = (h * 3_600 + m * 60 + s) * 1_000 + f;
            &&& 0 <= time < 86_400_000
            &&& time / 3_600_000 == h
            &&& time / 60_000 % 60 == m
            &&& time / 1_000 % 60 == s
            &&& time % 1_000 == f
        }),
{
    let time = (h * 3_600 + m * 60 + s) * 1_000 + f;
    assert(time / 1_000 == h * 3_600 + m * 60 + s);
    assert(time / 60_000 == h * 60 + m);
}

/// The characters of a timestamp with the given fields.
spec fn spelled(y: int, mo: int, d: int, h: int, mi: int, se: int, f: int) -> Seq<char> {
    seq![
        digit(y / 1_000),
        digit(y / 100 % 10),
        digit(y / 10 % 10),
        digit(y % 10),
        '-',
        digit(mo / 10),
        digit(mo % 10),
        '-',
        digit(d / 10),
        digit(d % 10),
        'T',
        digit(h / 10),
        digit(h % 10),
        ':',
        digit(mi / 10),
        digit(mi % 10),
        ':',
        digit(se / 10),
        digit(se % 10),
        '.',
        digit(f / 100),
        digit(f / 10 % 10),
        digit(f % 10),
        'Z',
    ]
}

/// A spelled timestamp has the form, and its fields are those it was spelled from.
proof fn lemma_spelled(y: int, mo: int, d: int, h: int, mi: int, se: int, f: int)
    requires
        0 <= y < 10_000,
        0 <= mo < 100,
        0 <= d < 100,
        0 <= h < 100,
        0 <= mi < 100,
        0 <= se < 100,
        0 <= f < 1_000,
    ensures
        ({
            let s = spelled(y, mo, d, h, mi, se, f);
            &&& is_stamp_shaped(s)
            &&& field(s, 0, 4) == y
            &&& field(s, 5, 7) == mo
            &&& field(s, 8, 10) == d
            &&& field(s, 11, 13) == h
            &&& field(s, 14, 16) == mi
            &&& field(s, 17, 19) == se
            &&& field(s, 20, 23) == f
        }),
{
    let s = spelled(y, mo, d, h, mi, se, f);
    lemma_places(y);
    lemma_places(mo);
    lemma_places(d);
    lemma_places(h);
    lemma_places(mi);
    lemma_places(se);
    lemma_places(f);
    assert(is_stamp_shaped(s));
    lemma_stamp_digits(s);
}

/// A rendered instant reads back as itself: every instant of the years one to 9999 renders to a
/// timestamp, and that timestamp names it.
pub proof fn lemma_format_then_parse(millis: int)
    requires
        FIRST_INSTANT <= millis <= LAST_INSTANT,
    ensures
        is_timestamp(stamp(millis)),
        instant(stamp(millis)) == millis,
{
    lemma_date_in_range(millis);
    lemma_stamp_text(millis);
    let s = stamp(millis);
    let d = date_of(millis / 86_400_000);
    let time = millis % 86_400_000;
    let h = time / 3_600_000;
    let mi = time / 60_000 % 60;
    let se = time / 1_000 % 60;
    let f = time % 1_000;
    lemma_time_parts(time);
    lemma_spelled(d.year, d.month, d.day, h, mi, se, f);
    assert(s == spelled(d.year, d.month, d.day, h, mi, se, f));
    assert(date_field(s) == d);
    let n = day_number(d);
    assert(instant(s) == (n * 86_400 + h * 3_600 + mi * 60 + se) * 1_000 + f);
    assert(millis == n * 86_400_000 + time);
}

/// A two-digit number renders to the two digits it was read from.
proof fn lemma_same_digits2(a: char, b: char)
    requires
        is_digit(a),
        is_digit(b),
    ensures
        ({
            let n = (a as int - 48) * 10 + (b as int - 48);
            digit(n / 10) == a && digit(n % 10) == b
        }),
{
    let (x, y) = (a as int - 48, b as int - 48);
    let n = x * 10 + y;
    assert(n / 10 == x);
}

/// A three-digit number renders to the three digits it was read from.
proof fn lemma_same_digits3(a: char, b: char, c: char)
    requires
        is_digit(a),
        is_digit(b),
        is_digit(c),
    ensures
        ({
            let n = (a as int - 48) * 100 + (b as int - 48) * 10 + (c as int - 48);
            digit(n / 100) == a && digit(n / 10 % 10) == b && digit(n % 10) == c
        }),
{
    let (x, y, z) = (a as int - 48, b as int - 48, c as int - 48);
    let n = x * 100 + y * 10 + z;
    assert(n / 10 == x * 10 + y);
    assert(n / 100 == x);
}

/// A four-digit number renders to the four digits it was read from.
proof fn lemma_same_digits4(a: char, b: char, c: char, d: char)
    requires
        is_digit(a),
        is_digit(b),
        is_digit(c),
        is_digit(d),
    ensures
        ({
            let n = (a as int - 48) * 1_000 + (b as int - 48) * 100 + (c as int - 48) * 10 + (
            d as int - 48);
            digit(n / 1_000) == a && digit(n / 100 % 10) == b && digit(n / 10 % 10) == c && digit(
                n % 10,
            ) == d
        }),
{
    let (w, x, y, z) = (a as int - 48, b as int - 48, c as int - 48, d as int - 48);
    let n = w * 1_000 + x * 100 + y * 10 + z;
    assert(n / 10 == w * 100 + x * 10 + y);
    assert(n / 100 == w * 10 + x);
    assert(n / 1_000 == w);
}

/// A text of the fixed form is the spelling of its own fields.
proof fn lemma_respelled(s: Seq<char>)
    requires
        is_stamp_shaped(s),
    ensures
        spelled(
            field(s, 0, 4),
            field(s, 5, 7),
            field(s, 8, 10),
            field(s, 11, 13),
            field(s, 14, 16),
            field(s, 17, 19),
            field(s, 20, 23),
        ) == s,
{
    lemma_stamp_digits(s);
    lemma_same_digits4(s[0], s[1], s[2], s[3]);
    lemma_same_digits2(s[5], s[6]);
    lemma_same_digits2(s[8], s[9]);
    lemma_same_digits2(s[11], s[12]);
    lemma_same_digits2(s[14], s[15]);
    lemma_same_digits2(s[17], s[18]);
    lemma_same_digits3(s[20], s[21], s[22]);
}

/// A timestamp has exactly one spelling: rendering the instant it names gives it back.
pub proof fn lemma_parse_then_format(s: Seq<char>)
    requires
        is_timestamp(s),
    ensures
        stamp(instant(s)) == s,
{
    lemma_instant_in_range(s);
    lemma_stamp_digits(s);
    let millis = instant(s);
    let n = day_number(date_field(s));
    let (h, mi, se, f) = (field(s, 11, 13), field(s, 14, 16), field(s, 17, 19), field(s, 20, 23));
    let time = (h * 3_600 + mi * 60 + se) * 1_000 + f;
    lemma_time_split(h, mi, se, f);
    assert(millis == n * 86_400_000 + time);
    assert(millis / 86_400_000 == n);
    assert(millis % 86_400_000 == time);
    lemma_date_in_range(millis);
    lemma_day_number_injective(date_of(n), date_field(s));
    lemma_stamp_text(millis);
    lemma_respelled(s);
}

/// Two timestamps agreeing before a place and differing there name instants in that order.
proof fn lemma_differ_at(a: Seq<char>, b: Seq<char>, k: int)
    requires
        is_timestamp(a),
        is_timestamp(b),
        differ_at(a, b, k),
    ensures
        instant(a) < instant(b),
{
    lemma_stamp_digits(a);
    lemma_stamp_digits(b);
    assert(0 <= k < 24);
    let da = date_field(a);
    let db = date_field(b);
    if k < 10 {
        assert(a[4] == b[4] && a[7] == b[7]);
        if k < 4 {
            assert(da.year < db.year);
        } else if k < 7 {
            assert(da.year == db.year && da.month < db.month);
        } else {
            assert(da.year == db.year && da.month == db.month && da.day < db.day);
        }
        assert(earlier(da, db));
        lemma_day_number_ordered(da, db);
    } else {
        assert(da.year == db.year && da.month == db.month && da.day == db.day);
        assert(day_number(da) == day_number(db));
        if k < 13 {
            assert(field(a, 11, 13) < field(b, 11, 13));
        } else if k < 16 {
            assert(field(a, 11, 13) == field(b, 11, 13));
            assert(field(a, 14, 16) < field(b, 14, 16));
        } else if k < 19 {
            assert(field(a, 11, 13) == field(b, 11, 13));
            assert(field(a, 14, 16) == field(b, 14, 16));
            assert(field(a, 17, 19) < field(b, 17, 19));
        } else {
            assert(field(a, 11, 13) == field(b, 11, 13));
            assert(field(a, 14, 16) == field(b, 14, 16));
            assert(field(a, 17, 19) == field(b, 17, 19));
            assert(field(a, 20, 23) < field(b, 20, 23));
        }
    }
}

/// Of two different timestamps one comes first as a text.
proof fn lemma_one_precedes(a: Seq<char>, b: Seq<char>, k: int)
    requires
        a.len() == b.len(),
        0 <= k <= a.len(),
        forall|i: int| 0 <= i < k ==> a[i] == b[i],
        a != b,
    ensures
        precedes(a, b) || precedes(b, a),
    decreases a.len() - k,
{
    if k == a.len() {
        assert(a =~= b);
    } else if a[k] == b[k] {
        lemma_one_precedes(a, b, k + 1);
    } else if a[k] < b[k] {
        assert(differ_at(a, b, k));
    } else {
        assert(differ_at(b, a, k));
    }
}

/// The order of timestamps as texts is the order of the instants they name.
pub proof fn lemma_lexical_order_is_chronological(a: Seq<char>, b: Seq<char>)
    requires
        is_timestamp(a),
        is_timestamp(b),
    ensures
        precedes(a, b) <==> instant(a) < instant(b),
{
    if precedes(a, b) {
        let k = choose|k: int| #[trigger] differ_at(a, b, k);
        lemma_differ_at(a, b, k);
    }
    if instant(a) < instant(b) {
        assert(a != b);
        lemma_one_precedes(a, b, 0);
        if precedes(b, a) {
            let k = choose|k: int| #[trigger] differ_at(b, a, k);
            lemma_differ_at(b, a, k);
        }
    }
}

/// Shifting by nothing changes nothing, and two shifts in a row are one shift by their sum.
pub proof fn lemma_shifts_add(s: Seq<char>, first: int, second: int)
    requires
        is_timestamp(s),
        shifted(s, first) is Ok,
    ensures
        shifted(s, 0) == Ok::<Seq<char>, Fault>(s),
        shifted(s, first + second) is Ok <==> shifted(shifted(s, first)->Ok_0, second) is Ok,
        shifted(s, first + second) is Ok ==> shifted(shifted(s, first)->Ok_0, second) == shifted(
            s,
            first + second,
        ),
{
    lemma_parse_then_format(s);
    lemma_instant_in_range(s);
    lemma_format_then_parse(instant(s) + first * 1_000);
}

// -- durations --------------------------------------------------------------------------------

/// What reading a run of components has come to: the seconds so far and the text still unread, or
/// a figure too large to hold.
pub enum Scan {
    /// The seconds so far, and what is left to read.
    Fits(int, Seq<char>),
    /// A figure beyond what a signed sixty-four-bit integer holds.
    Overflows,
}

/// How many characters of a text, from its start, are digits.
pub open spec fn run_length(s: Seq<char>) -> int
    decreases s.len(),
{
    if s.len() == 0 || !is_digit(s[0]) {
        0
    } else {
        1 + run_length(s.drop_first())
    }
}

/// Reads one optional component, a run of digits and its unit, off the start of a text.
pub open spec fn component(scan: Scan, unit: char, scale: int) -> Scan {
    match scan {
        Scan::Overflows => Scan::Overflows,
        Scan::Fits(total, s) => {
            let n = run_length(s);
            let figure = numeral(s.take(n));
            if n == 0 {
                scan
            } else if figure > i64::MAX {
                Scan::Overflows
            } else if n == s.len() || s[n] != unit {
                scan
            } else if total + figure * scale > i64::MAX {
                Scan::Overflows
            } else {
                Scan::Fits(total + figure * scale, s.skip(n + 1))
            }
        },
    }
}

/// Where a text first has a character, or its length.
pub open spec fn first_index(s: Seq<char>, c: char) -> int
    decreases s.len(),
{
    if s.len() == 0 || s[0] == c {
        0
    } else {
        1 + first_index(s.drop_first(), c)
    }
}

/// What a duration text, `P[nD][T[nH][nM][nS]]` with at least one component, and one after a `T`,
/// comes to in seconds. Years, months and weeks have no place in it, nor has a sign.
pub open spec fn duration(s: Seq<char>) -> Result<int, Fault> {
    let bad: Result<int, Fault> = Err(fault("encoding-bad-duration"@, quoted(s)));
    let overflow: Result<int, Fault> = Err(
        fault("encoding-bad-duration"@, quoted(s) + " overflows"@),
    );
    let rest = s.skip(1);
    let t = first_index(rest, 'T');
    if s.len() < 2 || s[0] != 'P' || t + 1 == rest.len() {
        bad
    } else {
        match component(Scan::Fits(0, rest.take(t)), 'D', 86_400) {
            Scan::Overflows => overflow,
            Scan::Fits(days, left) => if left.len() > 0 {
                bad
            } else if t == rest.len() {
                Ok(days)
            } else {
                let hours = component(Scan::Fits(days, rest.skip(t + 1)), 'H', 3_600);
                match component(component(hours, 'M', 60), 'S', 1) {
                    Scan::Overflows => overflow,
                    Scan::Fits(total, left) => if left.len() > 0 {
                        bad
                    } else {
                        Ok(total)
                    },
                }
            },
        }
    }
}

/// A longer run of digits is no smaller a number.
proof fn lemma_numeral_grows(s: Seq<char>, k: int)
    requires
        all_digits(s),
        0 <= k <= s.len(),
    ensures
        0 <= numeral(s.take(k)) <= numeral(s),
    decreases s.len(),
{
    if k == s.len() {
        assert(s.take(k) == s);
        if s.len() > 0 {
            assert(s.drop_last() == s.take(s.len() - 1));
            lemma_numeral_grows(s.drop_last(), s.len() - 1);
        }
    } else {
        assert(s.take(k) == s.drop_last().take(k));
        lemma_numeral_grows(s.drop_last(), k);
        assert(is_digit(s.last()));
    }
}

/// The digits at the start of a text are digits, and the next character is none.
proof fn lemma_run_length(s: Seq<char>)
    ensures
        0 <= run_length(s) <= s.len(),
        all_digits(s.take(run_length(s))),
        run_length(s) < s.len() ==> !is_digit(s[run_length(s)]),
    decreases s.len(),
{
    if s.len() > 0 && is_digit(s[0]) {
        lemma_run_length(s.drop_first());
        let n = run_length(s.drop_first());
        assert forall|i: int| 0 <= i < n + 1 implies is_digit(#[trigger] s.take(n + 1)[i]) by {
            if i > 0 {
                assert(s.drop_first().take(n)[i - 1] == s[i]);
            }
        }
    }
}

/// A run of digits is as long as it is: digits, then something else.
proof fn lemma_run_length_is(s: Seq<char>, n: int)
    requires
        0 <= n <= s.len(),
        all_digits(s.take(n)),
        n < s.len() ==> !is_digit(s[n]),
    ensures
        run_length(s) == n,
    decreases s.len(),
{
    if n > 0 {
        assert(s.take(n)[0] == s[0]);
        assert(s.drop_first().take(n - 1) == s.take(n).skip(1));
        lemma_run_length_is(s.drop_first(), n - 1);
    }
}

/// The first place of a character is the place where it first is.
proof fn lemma_first_index_is(s: Seq<char>, c: char, n: int)
    requires
        0 <= n <= s.len(),
        forall|i: int| 0 <= i < n ==> s[i] != c,
        n < s.len() ==> s[n] == c,
    ensures
        first_index(s, c) == n,
    decreases s.len(),
{
    if n > 0 {
        lemma_first_index_is(s.drop_first(), c, n - 1);
    }
}

/// A component never makes the count of seconds smaller.
proof fn lemma_component_grows(scan: Scan, unit: char, scale: int)
    requires
        scale >= 0,
        scan matches Scan::Fits(total, _) ==> total >= 0,
    ensures
        component(scan, unit, scale) matches Scan::Fits(total, _) ==> total >= 0,
{
    if let Scan::Fits(total, s) = scan {
        lemma_run_length(s);
        let run = s.take(run_length(s));
        lemma_numeral_grows(run, 0);
        assert(0 <= numeral(run) * scale) by (nonlinear_arith)
            requires
                0 <= numeral(run),
                0 <= scale,
        ;
    }
}

/// A duration points forward or nowhere: no text is a negative one.
pub proof fn lemma_durations_are_not_negative(s: Seq<char>)
    ensures
        duration(s) matches Ok(seconds) ==> 0 <= seconds <= i64::MAX,
{
    let rest = s.skip(1);
    let t = first_index(rest, 'T');
    let days = component(Scan::Fits(0, rest.take(t)), 'D', 86_400);
    lemma_component_grows(Scan::Fits(0, rest.take(t)), 'D', 86_400);
    if let Scan::Fits(total, _) = days {
        let start = Scan::Fits(total, rest.skip(t + 1));
        let hours = component(start, 'H', 3_600);
        let minutes = component(hours, 'M', 60);
        lemma_component_grows(start, 'H', 3_600);
        lemma_component_grows(hours, 'M', 60);
        lemma_component_grows(minutes, 'S', 1);
    }
}

/// Where reading stands: the seconds so far and the place of the next character, or an overflow.
enum Step {
    Fits(i64, usize),
    Overflows,
}

/// What a step stands for, reading up to `end`.
spec fn scan_of(step: Step, chars: Seq<char>, end: int) -> Scan {
    match step {
        Step::Fits(total, at) => Scan::Fits(total as int, chars.subrange(at as int, end)),
        Step::Overflows => Scan::Overflows,
    }
}

/// Whether a step stands inside the text.
spec fn step_within(step: Step, end: int) -> bool {
    step matches Step::Fits(total, at) ==> total >= 0 && at <= end
}

/// Reads one optional component at a place of the text, up to `end`.
fn read_component(chars: &Vec<char>, step: Step, end: usize, unit: char, scale: i64) -> (r: Step)
    requires
        end <= chars@.len(),
        step_within(step, end as int),
        1 <= scale <= 86_400,
    ensures
        step_within(r, end as int),
        scan_of(r, chars@, end as int) == component(
            scan_of(step, chars@, end as int),
            unit,
            scale as int,
        ),
{
    match step {
        Step::Overflows => Step::Overflows,
        Step::Fits(total, at) => {
            let ghost s = chars@.subrange(at as int, end as int);
            let mut figure: i64 = 0;
            let mut i: usize = at;
            proof {
                lemma_run_length(s);
                assert(s.take(0) == Seq::<char>::empty());
            }
            while i < end && '0' <= chars[i] && chars[i] <= '9'
                invariant
                    at <= i <= end <= chars@.len(),
                    s == chars@.subrange(at as int, end as int),
                    all_digits(s.take(i - at)),
                    figure == numeral(s.take(i - at)),
                    figure >= 0,
                    step == Step::Fits(total, at),
                decreases end - i,
            {
                let ghost longer = s.take(i + 1 - at);
                proof {
                    assert(longer.drop_last() == s.take(i - at));
                    assert(longer.last() == chars@[i as int]);
                    assert forall|k: int| 0 <= k < longer.len() implies is_digit(
                        #[trigger] longer[k],
                    ) by {
                        if k < i - at {
                            assert(longer[k] == s.take(i - at)[k]);
                        }
                    }
                }
                let value: i64 = (chars[i] as u32 - 48) as i64;
                let next: Option<i64> = match figure.checked_mul(10) {
                    Some(tens) => tens.checked_add(value),
                    None => None,
                };
                match next {
                    Some(v) => {
                        figure = v;
                    },
                    None => {
                        proof {
                            lemma_run_length(s);
                            let n = run_length(s);
                            if n < i + 1 - at {
                                assert(longer[n] == s[n]);
                                assert(is_digit(longer[n]));
                            }
                            assert(numeral(longer) == figure * 10 + value);
                            assert(numeral(longer) > i64::MAX);
                            assert(s.take(n).take(i + 1 - at) == longer);
                            lemma_numeral_grows(s.take(n), i + 1 - at);
                        }
                        return Step::Overflows;
                    },
                }
                i += 1;
            }
            proof {
                lemma_run_length_is(s, i - at);
            }
            if i == at || i == end || chars[i] != unit {
                return Step::Fits(total, at);
            }
            let seconds: Option<i64> = match figure.checked_mul(scale) {
                Some(v) => total.checked_add(v),
                None => None,
            };
            match seconds {
                Some(sum) => {
                    assert(s.skip(i - at + 1) == chars@.subrange(i + 1, end as int));
                    Step::Fits(sum, i + 1)
                },
                None => {
                    proof {
                        assert(0 <= figure * scale);
                    }
                    Step::Overflows
                },
            }
        },
    }
}

/// Reads a duration restricted to `P[nD][T[nH][nM][nS]]` into seconds.
///
/// Months and years are refused: their length is ambiguous.
pub fn parse_duration_seconds(text: &str) -> (r: Result<i64, Error>)
    ensures
        match duration(text@) {
            Ok(seconds) => r matches Ok(v) && v == seconds,
            Err(f) => r matches Err(e) && e@ == f,
        },
        r matches Ok(v) ==> v >= 0,
{
    let chars = chars_of(text);
    let end: usize = chars.len();
    if end < 2 || chars[0] != 'P' {
        return Err(Error::new("encoding-bad-duration", debug_text(text)));
    }
    let ghost rest = text@.skip(1);
    let mut t: usize = 1;
    while t < end && chars[t] != 'T'
        invariant
            1 <= t <= end == chars@.len(),
            chars@ == text@,
            rest == text@.skip(1),
            forall|i: int| 0 <= i < t - 1 ==> rest[i] != 'T',
        decreases end - t,
    {
        t += 1;
    }
    proof {
        lemma_first_index_is(rest, 'T', t - 1);
    }
    if t < end && t == end - 1 {
        return Err(Error::new("encoding-bad-duration", debug_text(text)));
    }
    assert(rest.take(t - 1) == chars@.subrange(1, t as int));
    match read_component(&chars, Step::Fits(0, 1), t, 'D', 86_400) {
        Step::Overflows => Err(
            Error::new("encoding-bad-duration", join2(debug_text(text).as_str(), " overflows")),
        ),
        Step::Fits(days, at) => {
            if at < t {
                return Err(Error::new("encoding-bad-duration", debug_text(text)));
            }
            if t == end {
                return Ok(days);
            }
            assert(rest.skip(t as int) == chars@.subrange(t + 1, end as int));
            let hours = read_component(&chars, Step::Fits(days, t + 1), end, 'H', 3_600);
            let minutes = read_component(&chars, hours, end, 'M', 60);
            match read_component(&chars, minutes, end, 'S', 1) {
                Step::Overflows => Err(
                    Error::new(
                        "encoding-bad-duration",
                        join2(debug_text(text).as_str(), " overflows"),
                    ),
                ),
                Step::Fits(total, at) => {
                    if at < end {
                        return Err(Error::new("encoding-bad-duration", debug_text(text)));
                    }
                    Ok(total)
                },
            }
        },
    }
}

/// `at` moved forward by a duration, in the fixed timestamp form.
pub fn add_duration(at: &str, duration_text: &str) -> (r: Result<String, Error>)
    ensures
        is_text_result(
            r,
            match duration(duration_text@) {
                Ok(seconds) => shifted(at@, seconds),
                Err(f) => Err(f),
            },
        ),
{
    let seconds: i64 = parse_duration_seconds(duration_text)?;
    shift(at, seconds)
}

// -- clocks -----------------------------------------------------------------------------------

/// A source of the current instant.
pub trait Clock: Send + Sync + std::fmt::Debug {
    /// Whether the clock may now read this text.
    spec fn reads(&self, text: Seq<char>) -> bool;

    /// The current instant, in the fixed timestamp form.
    fn now(&self) -> (r: String)
        ensures
            self.reads(r@),
    ;
}

/// The host clock.
#[derive(Debug, Clone, Copy, Default)]
pub struct SystemClock;

/// `SystemTime::duration_since(UNIX_EPOCH)` of the present moment, in milliseconds; nothing where
/// the host's clock stands before 1970. What it reads depends on the host, so nothing is claimed
/// of it.
#[verifier::external_body]
fn host_millis() -> (r: Option<u128>)
{
    std::time::SystemTime::now().duration_since(std::time::UNIX_EPOCH).ok().map(|d| d.as_millis())
}

/// Whether a text is the rendering of some instant from 1970 on.
pub open spec fn is_host_reading(text: Seq<char>) -> bool {
    exists|millis: int| 0 <= millis <= i64::MAX && text == #[trigger] stamp(millis)
}

impl Clock for SystemClock {
    open spec fn reads(&self, text: Seq<char>) -> bool {
        is_host_reading(text)
    }

    fn now(&self) -> (r: String) {
        let millis: i64 = clamp_millis(host_millis());
        format_millis(millis)
    }
}

/// The reading of a host clock as a count of milliseconds: zero before 1970, and no more than the
/// count can hold.
pub fn clamp_millis(millis: Option<u128>) -> (r: i64)
    ensures
        r == (match millis {
            None => 0,
            Some(m) => if m > i64::MAX {
                i64::MAX as int
            } else {
                m as int
            },
        }),
{
    match millis {
        None => 0,
        Some(m) => {
            if m > i64::MAX as u128 {
                i64::MAX
            } else {
                m as i64
            }
        },
    }
}

/// A clock that stands still until moved.
#[derive(Debug)]
pub struct FixedClock {
    millis: i64,
}

impl FixedClock {
    /// The instant the clock stands at, in milliseconds from the first of January 1970.
    pub closed spec fn stands_at(&self) -> int {
        self.millis as int
    }

    /// A clock reading `at`.
    pub fn new(at: &str) -> (r: Result<FixedClock, Error>)
        ensures
            is_timestamp(at@) ==> (r matches Ok(clock) && clock.stands_at() == instant(at@)),
            !is_timestamp(at@) ==> (r matches Err(e) && e@ == bad_timestamp(at@)),
    {
        let millis: i64 = parse_timestamp(at)?;
        Ok(FixedClock { millis })
    }

    /// Moves the clock by a whole number of seconds, which may be negative.
    pub fn advance_seconds(&mut self, seconds: i64)
        requires
            i64::MIN <= seconds * 1_000 <= i64::MAX,
            i64::MIN <= old(self).stands_at() + seconds * 1_000 <= i64::MAX,
        ensures
            final(self).stands_at() == old(self).stands_at() + seconds * 1_000,
    {
        self.millis = self.millis + seconds * 1_000;
    }
}

impl Clock for FixedClock {
    open spec fn reads(&self, text: Seq<char>) -> bool {
        text == stamp(self.stands_at())
    }

    fn now(&self) -> (r: String) {
        format_millis(self.millis)
    }
}

/// The largest advance a clock will take: ten years of three hundred and sixty-five days.
pub const MAX_CLOCK_ADVANCE_SECONDS: i64 = 3_650 * 86_400;

/// The reason code under which an advanced clock declares itself into the record stream.
pub const CLOCK_ADVANCE_DECLARED: &'static str = "clock-advance-in-force";

/// The refusal code for every way of asking for a clock that will not be run.
pub const CLOCK_ADVANCE_REFUSED: &'static str = "clock-advance-refused";

/// The sentence an operator copies into the configuration for an advance to be honoured.
pub const CLOCK_ADVANCE_ACKNOWLEDGEMENT: &'static str =
    "records emitted by this deployment are not evidence of when anything happened";

/// The last instant the fixed form can express, and where an advance saturates.
pub const LAST_REPRESENTABLE_INSTANT: &'static str = "9999-12-31T23:59:59.999Z";

/// A clock advance: how far forward, and the duration exactly as written.
#[derive(Debug)]
pub struct ClockAdvance {
    /// The advance in whole seconds.
    pub seconds: i64,
    /// The duration as it was written, for the record and the banner.
    pub duration: String,
}

/// A clock advanced by a fixed offset from another clock.
///
/// The offset moves time forward only: an advanced clock never reads earlier than the clock it
/// wraps, so it can bring a deadline forward and can never lengthen anybody's authority.
#[derive(Debug)]
pub struct AdvancedClock<C: Clock> {
    base: C,
    advance: ClockAdvance,
}

/// What an advanced clock reads when the clock underneath reads `base`: so much later, or the last
/// instant of the fixed form where that leaves its range.
pub open spec fn advanced(base: Seq<char>, seconds: int) -> Seq<char> {
    match shifted(base, seconds) {
        Ok(t) => t,
        Err(_) => LAST_REPRESENTABLE_INSTANT@,
    }
}

/// What is said of an advance that is not a clock's to take.
pub open spec fn advance_fault(seconds: int) -> Option<Fault> {
    if seconds <= 0 {
        Some(
            fault(
                CLOCK_ADVANCE_REFUSED@,
                "an advance must be strictly positive, "@ + signed(seconds)
                    + " is not — this clock moves forward or it does not move"@,
            ),
        )
    } else if seconds > MAX_CLOCK_ADVANCE_SECONDS {
        Some(
            fault(
                CLOCK_ADVANCE_REFUSED@,
                "an advance of "@ + signed(seconds) + "s exceeds the bound of "@ + signed(
                    MAX_CLOCK_ADVANCE_SECONDS as int,
                ) + "s"@,
            ),
        )
    } else {
        None
    }
}

/// What an advanced clock says of itself.
pub open spec fn banner_text(
    duration: Seq<char>,
    seconds: int,
    now: Seq<char>,
    base: Seq<char>,
) -> Seq<char> {
    "THE CLOCK IS ADVANCED BY "@ + duration + " ("@ + signed(seconds) + "s). It reads "@ + now
        + " while the host reads "@ + base + ". "@ + CLOCK_ADVANCE_ACKNOWLEDGEMENT@ + "."@
}

impl<C: Clock> AdvancedClock<C> {
    /// The clock underneath.
    pub closed spec fn beneath(&self) -> C {
        self.base
    }

    /// How far ahead the clock is, in seconds.
    pub closed spec fn seconds(&self) -> int {
        self.advance.seconds as int
    }

    /// The advance as it was written.
    pub closed spec fn written(&self) -> Seq<char> {
        self.advance.duration@
    }

    /// Whatever clock there is, its advance is one that a clock may take.
    #[verifier::type_invariant]
    spec fn moves_forward(self) -> bool {
        advance_fault(self.advance.seconds as int) is None
    }

    /// A clock reading `base` moved forward by `advance`.
    pub fn new(base: C, advance: ClockAdvance) -> (r: Result<AdvancedClock<C>, Error>)
        ensures
            match advance_fault(advance.seconds as int) {
                Some(f) => r matches Err(e) && e@ == f,
                None => r matches Ok(clock) && clock.beneath() == base && clock.seconds()
                    == advance.seconds && clock.written() == advance.duration@,
            },
    {
        if advance.seconds <= 0 {
            return Err(
                Error::new(
                    CLOCK_ADVANCE_REFUSED,
                    join3(
                        "an advance must be strictly positive, ",
                        signed_text(advance.seconds).as_str(),
                        " is not — this clock moves forward or it does not move",
                    ),
                ),
            );
        }
        if advance.seconds > MAX_CLOCK_ADVANCE_SECONDS {
            return Err(
                Error::new(
                    CLOCK_ADVANCE_REFUSED,
                    join5(
                        "an advance of ",
                        signed_text(advance.seconds).as_str(),
                        "s exceeds the bound of ",
                        signed_text(MAX_CLOCK_ADVANCE_SECONDS).as_str(),
                        "s",
                    ),
                ),
            );
        }
        Ok(AdvancedClock { base, advance })
    }

    /// The advance in force.
    pub fn advance(&self) -> (r: &ClockAdvance)
        ensures
            r.seconds == self.seconds(),
            r.duration@ == self.written(),
            advance_fault(r.seconds as int) is None,
    {
        proof {
            use_type_invariant(self);
        }
        &self.advance
    }

    /// The clock underneath, given back.
    pub fn into_base(self) -> (r: C)
        ensures
            r == self.beneath(),
    {
        self.base
    }

    /// What the clock underneath reads, unmoved.
    pub fn base_now(&self) -> (r: String)
        ensures
            self.beneath().reads(r@),
    {
        self.base.now()
    }

    /// The line said on every start while the advance is in force.
    pub fn banner(&self) -> (r: String)
        ensures
            exists|now: Seq<char>, base: Seq<char>|
                self.reads(now) && self.beneath().reads(base) && r@ == #[trigger] banner_text(
                    self.written(),
                    self.seconds(),
                    now,
                    base,
                ),
    {
        let now = self.now();
        let base = self.base_now();
        let mut out = join5(
            "THE CLOCK IS ADVANCED BY ",
            self.advance.duration.as_str(),
            " (",
            signed_text(self.advance.seconds).as_str(),
            "s). It reads ",
        );
        out.push_str(now.as_str());
        out.push_str(" while the host reads ");
        out.push_str(base.as_str());
        out.push_str(". ");
        out.push_str(CLOCK_ADVANCE_ACKNOWLEDGEMENT);
        out.push_str(".");
        assert(out@ == banner_text(self.written(), self.seconds(), now@, base@));
        out
    }
}

impl<C: Clock> Clock for AdvancedClock<C> {
    open spec fn reads(&self, text: Seq<char>) -> bool {
        exists|base: Seq<char>|
            self.beneath().reads(base) && text == #[trigger] advanced(base, self.seconds())
    }

    fn now(&self) -> (r: String) {
        let base = self.base.now();
        let r = match shift(base.as_str(), self.advance.seconds) {
            Ok(moved) => moved,
            Err(_) => LAST_REPRESENTABLE_INSTANT.to_owned(),
        };
        assert(r@ == advanced(base@, self.seconds()));
        r
    }
}

/// The last instant of the fixed form is spelled as it is named.
proof fn lemma_last_instant()
    ensures
        is_timestamp(LAST_REPRESENTABLE_INSTANT@),
        instant(LAST_REPRESENTABLE_INSTANT@) == LAST_INSTANT,
{
    reveal_strlit("9999-12-31T23:59:59.999Z");
    let s = LAST_REPRESENTABLE_INSTANT@;
    assert(is_stamp_shaped(s));
    lemma_stamp_digits(s);
    lemma_range_days();
    assert(date_field(s) == (Date { year: 9_999, month: 12, day: 31 }));
}

/// An advanced clock never reads earlier than the clock it wraps: for every timestamp the clock
/// underneath reads, what the advanced one reads is a timestamp and names no earlier an instant,
/// nor does it come first as a text.
pub proof fn lemma_advance_never_reads_behind(base: Seq<char>, seconds: int)
    requires
        is_timestamp(base),
        advance_fault(seconds) is None,
    ensures
        is_timestamp(advanced(base, seconds)),
        instant(advanced(base, seconds)) >= instant(base),
        !precedes(advanced(base, seconds), base),
{
    lemma_instant_in_range(base);
    let moved = instant(base) + seconds * 1_000;
    if moved <= LAST_INSTANT {
        lemma_format_then_parse(moved);
    } else {
        lemma_last_instant();
    }
    lemma_lexical_order_is_chronological(advanced(base, seconds), base);
}

/// The instant behind an advanced one: so many seconds earlier, or unchanged where the fixed form
/// cannot express that.
pub fn unmoved(effective: &str, advance_seconds: i64) -> (r: String)
    requires
        advance_seconds > i64::MIN,
    ensures
        r@ == (match shifted(effective@, -advance_seconds) {
            Ok(t) => t,
            Err(_) => effective@,
        }),
{
    match shift(effective, -advance_seconds) {
        Ok(moved) => moved,
        Err(_) => effective.to_owned(),
    }
}

/// A figure with its unit behind it, or nothing where it is left out.
pub open spec fn figured(figure: Option<Seq<char>>, unit: char) -> Seq<char> {
    match figure {
        Some(f) => f.push(unit),
        None => Seq::empty(),
    }
}

/// What a figure counts, and nothing where it is left out.
pub open spec fn counted(figure: Option<Seq<char>>) -> int {
    match figure {
        Some(f) => numeral(f),
        None => 0,
    }
}

/// Whether a figure is digits, where it is there.
pub open spec fn is_figure(figure: Option<Seq<char>>) -> bool {
    figure matches Some(f) ==> f.len() > 0 && all_digits(f)
}

proof fn lemma_run_ends(f: Seq<char>, rest: Seq<char>)
    requires
        all_digits(f),
        rest.len() == 0 || !is_digit(rest[0]),
    ensures
        run_length(f + rest) == f.len(),
    decreases f.len(),
{
    if f.len() == 0 {
        assert(f + rest =~= rest);
    } else {
        assert(is_digit(f[0]));
        assert((f + rest)[0] == f[0]);
        assert((f + rest).drop_first() =~= f.drop_first() + rest);
        assert forall|i: int| 0 <= i < f.drop_first().len() implies is_digit(
            #[trigger] f.drop_first()[i],
        ) by {
            assert(is_digit(f[i + 1]));
        }
        lemma_run_ends(f.drop_first(), rest);
    }
}

proof fn lemma_numeral_is_not_negative(f: Seq<char>)
    requires
        all_digits(f),
    ensures
        numeral(f) >= 0,
    decreases f.len(),
{
    if f.len() > 0 {
        assert(is_digit(f[f.len() - 1]));
        assert forall|i: int| 0 <= i < f.drop_last().len() implies is_digit(
            #[trigger] f.drop_last()[i],
        ) by {
            assert(is_digit(f[i]));
        }
        lemma_numeral_is_not_negative(f.drop_last());
    }
}

/// A component that is there is counted, and one that is left out counts nothing.
proof fn lemma_component(
    total: int,
    figure: Option<Seq<char>>,
    unit: char,
    scale: int,
    rest: Seq<char>,
)
    requires
        is_figure(figure),
        !is_digit(unit),
        1 <= scale <= 86_400,
        0 <= total,
        total + counted(figure) * scale <= i64::MAX,
        run_length(rest) == 0 || (run_length(rest) < rest.len() && rest[run_length(rest)] != unit
            && 0 <= run_length(rest) && numeral(rest.take(run_length(rest))) <= i64::MAX),
    ensures
        component(Scan::Fits(total, figured(figure, unit) + rest), unit, scale) == Scan::Fits(
            total + counted(figure) * scale,
            rest,
        ),
        counted(figure) >= 0,
{
    match figure {
        Some(f) => {
            let s = f.push(unit) + rest;
            let after = seq![unit] + rest;
            assert(s =~= f + after);
            lemma_run_ends(f, after);
            lemma_numeral_is_not_negative(f);
            assert(s.take(f.len() as int) =~= f);
            assert(s[f.len() as int] == unit);
            assert(s.skip(f.len() as int + 1) =~= rest);
            assert(numeral(f) <= i64::MAX) by (nonlinear_arith)
                requires
                    0 <= total,
                    1 <= scale,
                    numeral(f) >= 0,
                    total + numeral(f) * scale <= i64::MAX,
            ;
        },
        None => {
            assert(figured(figure, unit) + rest =~= rest);
        },
    }
}

/// What goes on with a figure and its unit begins with that run of digits.
proof fn lemma_run_of_figures(figure: Option<Seq<char>>, unit: char, rest: Seq<char>)
    requires
        is_figure(figure),
        !is_digit(unit),
    ensures
        figure matches Some(f) ==> {
            let s = figured(figure, unit) + rest;
            &&& run_length(s) == f.len() < s.len()
            &&& s[run_length(s)] == unit
            &&& s.take(run_length(s)) == f
        },
{
    if let Some(f) = figure {
        let s = f.push(unit) + rest;
        let after = seq![unit] + rest;
        assert(s =~= f + after);
        lemma_run_ends(f, after);
        assert(s.take(f.len() as int) =~= f);
    }
}

proof fn lemma_first_index(front: Seq<char>, c: char, rest: Seq<char>)
    requires
        forall|i: int| 0 <= i < front.len() ==> #[trigger] front[i] != c,
        rest.len() == 0 || rest[0] == c,
    ensures
        first_index(front + rest, c) == front.len(),
    decreases front.len(),
{
    if front.len() == 0 {
        assert(front + rest =~= rest);
    } else {
        assert((front + rest)[0] == front[0]);
        assert((front + rest).drop_first() =~= front.drop_first() + rest);
        lemma_first_index(front.drop_first(), c, rest);
    }
}

/// The smaller three components are counted one after the other.
proof fn lemma_time_part(
    total: int,
    hours: Option<Seq<char>>,
    minutes: Option<Seq<char>>,
    seconds: Option<Seq<char>>,
)
    requires
        is_figure(hours),
        is_figure(minutes),
        is_figure(seconds),
        0 <= total,
        0 <= counted(hours),
        0 <= counted(minutes),
        0 <= counted(seconds),
        total + counted(hours) * 3_600 + counted(minutes) * 60 + counted(seconds) <= i64::MAX,
    ensures
        ({
            let time = figured(hours, 'H') + (figured(minutes, 'M') + figured(seconds, 'S'));
            component(
                component(component(Scan::Fits(total, time), 'H', 3_600), 'M', 60),
                'S',
                1,
            ) == Scan::Fits(
                total + counted(hours) * 3_600 + counted(minutes) * 60 + counted(seconds),
                Seq::empty(),
            )
        }),
{
    let none = Seq::<char>::empty();
    let last = figured(seconds, 'S');
    let late = figured(minutes, 'M') + last;
    assert(last + none =~= last);
    lemma_run_of_figures(minutes, 'M', last);
    lemma_run_of_figures(seconds, 'S', none);
    if minutes is None {
        assert(late =~= last);
    }
    assert(run_length(none) == 0);
    lemma_component(total, hours, 'H', 3_600, late);
    let first = total + counted(hours) * 3_600;
    lemma_component(first, minutes, 'M', 60, last);
    lemma_component(first + counted(minutes) * 60, seconds, 'S', 1, none);
}

/// What stands before the first `T` and what stands behind it are told apart.
proof fn lemma_told_apart(date: Seq<char>, time: Seq<char>)
    requires
        forall|i: int| 0 <= i < date.len() ==> #[trigger] date[i] != 'T',
    ensures
        ({
            let rest = (seq!['P'] + (date + (seq!['T'] + time))).skip(1);
            &&& first_index(rest, 'T') == date.len()
            &&& rest.len() == date.len() + 1 + time.len()
            &&& rest.take(date.len() as int) == date
            &&& rest.skip(date.len() as int + 1) == time
        }),
        (seq!['P'] + date).skip(1) == date,
        first_index(date, 'T') == date.len(),
{
    let tail = seq!['T'] + time;
    let rest = date + tail;
    assert((seq!['P'] + rest).skip(1) =~= rest);
    lemma_first_index(date, 'T', tail);
    assert(rest.take(date.len() as int) =~= date);
    assert(rest.skip(date.len() as int + 1) =~= time);
    lemma_first_index(date, 'T', Seq::empty());
    assert(date + Seq::<char>::empty() =~= date);
    assert((seq!['P'] + date).skip(1) =~= date);
}

/// A figure of days holds no `T`.
proof fn lemma_days_are_told(days: Option<Seq<char>>)
    requires
        is_figure(days),
    ensures
        forall|i: int| 0 <= i < figured(days, 'D').len() ==> #[trigger] figured(days, 'D')[i] != 'T',
        counted(days) >= 0,
{
    if let Some(f) = days {
        lemma_numeral_is_not_negative(f);
        assert forall|i: int| 0 <= i < f.push('D').len() implies #[trigger] f.push('D')[i]
            != 'T' by {
            if i < f.len() {
                assert(is_digit(f[i]));
            }
        }
    }
}

/// What a duration lasts: so many days, hours, minutes and seconds, in that order and each of them
/// only where it is given, the smaller three behind a `T`.
pub proof fn lemma_what_a_duration_lasts(
    days: Option<Seq<char>>,
    hours: Option<Seq<char>>,
    minutes: Option<Seq<char>>,
    seconds: Option<Seq<char>>,
)
    requires
        is_figure(days),
        is_figure(hours),
        is_figure(minutes),
        is_figure(seconds),
        counted(days) * 86_400 + counted(hours) * 3_600 + counted(minutes) * 60 + counted(seconds)
            <= i64::MAX,
    ensures
        ({
            let date = figured(days, 'D');
            let time = figured(hours, 'H') + (figured(minutes, 'M') + figured(seconds, 'S'));
            let lasts = counted(days) * 86_400 + counted(hours) * 3_600 + counted(minutes) * 60
                + counted(seconds);
            &&& time.len() > 0 ==> duration(seq!['P'] + (date + (seq!['T'] + time))) == Ok::<
                int,
                Fault,
            >(lasts)
            &&& time.len() == 0 && days is Some ==> duration(seq!['P'] + date) == Ok::<int, Fault>(
                lasts,
            )
        }),
{
    let date = figured(days, 'D');
    let time = figured(hours, 'H') + (figured(minutes, 'M') + figured(seconds, 'S'));
    let none = Seq::<char>::empty();
    lemma_days_are_told(days);
    lemma_days_are_told(hours);
    lemma_days_are_told(minutes);
    lemma_days_are_told(seconds);
    lemma_told_apart(date, time);
    assert(run_length(none) == 0);
    lemma_component(0, days, 'D', 86_400, none);
    assert(date + none =~= date);
    lemma_time_part(counted(days) * 86_400, hours, minutes, seconds);
    if time.len() == 0 {
        assert(date.take(date.len() as int) =~= date);
        assert(hours is None && minutes is None && seconds is None);
    }
}

/// A shift moves an instant by so many seconds and by nothing else, and succeeds exactly where what
/// comes out can still be written; and a later instant shifted alike is the later one.
pub proof fn lemma_shifts_move_by_seconds(s: Seq<char>, seconds: int)
    ensures
        shifted(s, seconds) is Ok <==> is_timestamp(s) && -62_135_596_800_000 <= instant(s)
            + seconds * 1_000 <= 253_402_300_799_999,
        shifted(s, seconds) matches Ok(t) ==> is_timestamp(t) && instant(t) == instant(s) + seconds
            * 1_000,
        shifted(s, seconds) matches Ok(t) && seconds > 0 ==> precedes(s, shifted(s, seconds)->Ok_0),
        shifted(s, seconds) matches Ok(t) && seconds < 0 ==> precedes(shifted(s, seconds)->Ok_0, s),
{
    if let Ok(t) = shifted(s, seconds) {
        lemma_format_then_parse(instant(s) + seconds * 1_000);
        lemma_lexical_order_is_chronological(s, t);
        lemma_lexical_order_is_chronological(t, s);
    }
}

/// A clock may be set ahead by up to ten years, and neither back nor not at all.
pub proof fn lemma_which_advances_are_allowed(seconds: int)
    ensures
        advance_fault(seconds) is None <==> 0 < seconds <= 3_650 * 86_400,
{
}

} // verus!
