//! Typed date-times for `date_created`.
//!
//! The wire format is the ISO-8601-like string `YYYY-MM-DDTHH:MM:SSZ`. It is
//! parsed into a `DateTime` when an order is persisted (an unparseable value
//! is a validation failure, not a deferred database error) and formatted back
//! to the same string when an order is read, so a stored order reproduces the
//! submitted text exactly.

use vstd::prelude::*;

verus! {

/// A calendar date and a time of day, second precision, no zone offset
/// (the wire format's trailing `Z` pins UTC).
#[derive(Clone, Copy, PartialEq, Eq, Structural)]
pub struct DateTime {
    pub year: u32,
    pub month: u32,
    pub day: u32,
    pub hour: u32,
    pub minute: u32,
    pub second: u32,
}

pub open spec fn is_leap_year(y: int) -> bool {
    (y % 4 == 0 && y % 100 != 0) || y % 400 == 0
}

pub open spec fn spec_days_in_month(y: int, m: int) -> int {
    if m == 2 {
        if is_leap_year(y) {
            29
        } else {
            28
        }
    } else if m == 4 || m == 6 || m == 9 || m == 11 {
        30
    } else {
        31
    }
}

/// The Gregorian-calendar validity of a `DateTime` with a four-digit year.
pub open spec fn dt_valid(d: DateTime) -> bool {
    &&& d.year <= 9999
    &&& 1 <= d.month <= 12
    &&& 1 <= d.day <= spec_days_in_month(d.year as int, d.month as int)
    &&& d.hour <= 23
    &&& d.minute <= 59
    &&& d.second <= 59
}

pub open spec fn digit_val(c: char) -> int {
    match c {
        '0' => 0,
        '1' => 1,
        '2' => 2,
        '3' => 3,
        '4' => 4,
        '5' => 5,
        '6' => 6,
        '7' => 7,
        '8' => 8,
        '9' => 9,
        _ => -1,
    }
}

pub open spec fn is_digit(c: char) -> bool {
    digit_val(c) >= 0
}

pub open spec fn digit_char(d: int) -> char {
    if d == 0 {
        '0'
    } else if d == 1 {
        '1'
    } else if d == 2 {
        '2'
    } else if d == 3 {
        '3'
    } else if d == 4 {
        '4'
    } else if d == 5 {
        '5'
    } else if d == 6 {
        '6'
    } else if d == 7 {
        '7'
    } else if d == 8 {
        '8'
    } else if d == 9 {
        '9'
    } else {
        ' '
    }
}

pub proof fn lemma_digit_char_val(c: char)
    requires
        is_digit(c),
    ensures
        digit_char(digit_val(c)) == c,
{
}

/// Whether `s` has the shape `YYYY-MM-DDTHH:MM:SSZ` with digits in every
/// numeric position.
pub open spec fn dt_shape(s: Seq<char>) -> bool {
    &&& s.len() == 20
    &&& is_digit(s[0])
    &&& is_digit(s[1])
    &&& is_digit(s[2])
    &&& is_digit(s[3])
    &&& s[4] == '-'
    &&& is_digit(s[5])
    &&& is_digit(s[6])
    &&& s[7] == '-'
    &&& is_digit(s[8])
    &&& is_digit(s[9])
    &&& s[10] == 'T'
    &&& is_digit(s[11])
    &&& is_digit(s[12])
    &&& s[13] == ':'
    &&& is_digit(s[14])
    &&& is_digit(s[15])
    &&& s[16] == ':'
    &&& is_digit(s[17])
    &&& is_digit(s[18])
    &&& s[19] == 'Z'
}

/// The `DateTime` spelled by a string of shape `dt_shape`, before any
/// calendar validity check.
pub open spec fn dt_of_shape(s: Seq<char>) -> DateTime
    recommends
        dt_shape(s),
{
    DateTime {
        year: (digit_val(s[0]) * 1000 + digit_val(s[1]) * 100 + digit_val(s[2]) * 10 + digit_val(
            s[3],
        )) as u32,
        month: (digit_val(s[5]) * 10 + digit_val(s[6])) as u32,
        day: (digit_val(s[8]) * 10 + digit_val(s[9])) as u32,
        hour: (digit_val(s[11]) * 10 + digit_val(s[12])) as u32,
        minute: (digit_val(s[14]) * 10 + digit_val(s[15])) as u32,
        second: (digit_val(s[17]) * 10 + digit_val(s[18])) as u32,
    }
}

/// What parsing a `date_created` string yields: `Some` exactly on strings of
/// the right shape that spell a valid calendar date and time of day.
pub open spec fn parse_datetime(s: Seq<char>) -> Option<DateTime> {
    if dt_shape(s) && dt_valid(dt_of_shape(s)) {
        Some(dt_of_shape(s))
    } else {
        None
    }
}

/// What formatting a `DateTime` yields: the unique `YYYY-MM-DDTHH:MM:SSZ`
/// spelling, zero-padded.
pub open spec fn format_datetime(d: DateTime) -> Seq<char> {
    seq![
        digit_char(d.year as int / 1000),
        digit_char((d.year as int / 100) % 10),
        digit_char((d.year as int / 10) % 10),
        digit_char(d.year as int % 10),
        '-',
        digit_char(d.month as int / 10),
        digit_char(d.month as int % 10),
        '-',
        digit_char(d.day as int / 10),
        digit_char(d.day as int % 10),
        'T',
        digit_char(d.hour as int / 10),
        digit_char(d.hour as int % 10),
        ':',
        digit_char(d.minute as int / 10),
        digit_char(d.minute as int % 10),
        ':',
        digit_char(d.second as int / 10),
        digit_char(d.second as int % 10),
        'Z',
    ]
}

fn digit_of(c: char) -> (r: Option<u32>)
    ensures
        match r {
            Some(v) => is_digit(c) && v == digit_val(c),
            None => !is_digit(c),
        },
{
    match c {
        '0' => Some(0),
        '1' => Some(1),
        '2' => Some(2),
        '3' => Some(3),
        '4' => Some(4),
        '5' => Some(5),
        '6' => Some(6),
        '7' => Some(7),
        '8' => Some(8),
        '9' => Some(9),
        _ => None,
    }
}

/// Days of the given month in the given year, February following the
/// Gregorian leap-year rule.
pub fn days_in_month(year: u32, month: u32) -> (r: u32)
    ensures
        r == spec_days_in_month(year as int, month as int),
{
    if month == 2 {
        if (year % 4 == 0 && year % 100 != 0) || year % 400 == 0 {
            29
        } else {
            28
        }
    } else if month == 4 || month == 6 || month == 9 || month == 11 {
        30
    } else {
        31
    }
}

/// Parses a `date_created` wire string of the exact shape
/// `YYYY-MM-DDTHH:MM:SSZ`; `None` on any other shape and on a date or a time
/// of day that the calendar does not have.
pub fn parse_date_created(s: &str) -> (r: Option<DateTime>)
    ensures
        r == parse_datetime(s@),
{
    if s.unicode_len() != 20 {
        return None;
    }
    let d0 = digit_of(s.get_char(0));
    let d1 = digit_of(s.get_char(1));
    let d2 = digit_of(s.get_char(2));
    let d3 = digit_of(s.get_char(3));
    let d5 = digit_of(s.get_char(5));
    let d6 = digit_of(s.get_char(6));
    let d8 = digit_of(s.get_char(8));
    let d9 = digit_of(s.get_char(9));
    let d11 = digit_of(s.get_char(11));
    let d12 = digit_of(s.get_char(12));
    let d14 = digit_of(s.get_char(14));
    let d15 = digit_of(s.get_char(15));
    let d17 = digit_of(s.get_char(17));
    let d18 = digit_of(s.get_char(18));
    let seps_ok = s.get_char(4) == '-' && s.get_char(7) == '-' && s.get_char(10) == 'T'
        && s.get_char(13) == ':' && s.get_char(16) == ':' && s.get_char(19) == 'Z';
    match (d0, d1, d2, d3, d5, d6, d8, d9, d11, d12, d14, d15, d17, d18) {
        (
            Some(y0),
            Some(y1),
            Some(y2),
            Some(y3),
            Some(mo0),
            Some(mo1),
            Some(da0),
            Some(da1),
            Some(h0),
            Some(h1),
            Some(mi0),
            Some(mi1),
            Some(se0),
            Some(se1),
        ) => {
            if !seps_ok {
                return None;
            }
            let d = DateTime {
                year: y0 * 1000 + y1 * 100 + y2 * 10 + y3,
                month: mo0 * 10 + mo1,
                day: da0 * 10 + da1,
                hour: h0 * 10 + h1,
                minute: mi0 * 10 + mi1,
                second: se0 * 10 + se1,
            };
            let valid = 1 <= d.month && d.month <= 12 && 1 <= d.day && d.day <= days_in_month(
                d.year,
                d.month,
            ) && d.hour <= 23 && d.minute <= 59 && d.second <= 59;
            if valid {
                Some(d)
            } else {
                None
            }
        },
        _ => None,
    }
}

fn push_digit(out: &mut String, v: u32)
    requires
        v <= 9,
    ensures
        final(out)@ == old(out)@.push(digit_char(v as int)),
{
    let lit: &str = match v {
        0 => "0",
        1 => "1",
        2 => "2",
        3 => "3",
        4 => "4",
        5 => "5",
        6 => "6",
        7 => "7",
        8 => "8",
        _ => "9",
    };
    proof {
        reveal_strlit("0");
        reveal_strlit("1");
        reveal_strlit("2");
        reveal_strlit("3");
        reveal_strlit("4");
        reveal_strlit("5");
        reveal_strlit("6");
        reveal_strlit("7");
        reveal_strlit("8");
        reveal_strlit("9");
    }
    out.append(lit);
    proof {
        assert(out@ =~= old(out)@.push(digit_char(v as int)));
    }
}

fn push_sep(out: &mut String, c: char)
    requires
        c == '-' || c == 'T' || c == ':' || c == 'Z',
    ensures
        final(out)@ == old(out)@.push(c),
{
    let lit: &str = match c {
        '-' => "-",
        'T' => "T",
        ':' => ":",
        _ => "Z",
    };
    proof {
        reveal_strlit("-");
        reveal_strlit("T");
        reveal_strlit(":");
        reveal_strlit("Z");
    }
    out.append(lit);
    proof {
        assert(out@ =~= old(out)@.push(c));
    }
}

fn format_date_part(d: DateTime) -> (r: String)
    requires
        dt_valid(d),
    ensures
        r@ == seq![
            digit_char(d.year as int / 1000),
            digit_char((d.year as int / 100) % 10),
            digit_char((d.year as int / 10) % 10),
            digit_char(d.year as int % 10),
            '-',
            digit_char(d.month as int / 10),
            digit_char(d.month as int % 10),
            '-',
            digit_char(d.day as int / 10),
            digit_char(d.day as int % 10),
        ],
{
    let mut out = String::new();
    push_digit(&mut out, d.year / 1000);
    push_digit(&mut out, (d.year / 100) % 10);
    push_digit(&mut out, (d.year / 10) % 10);
    push_digit(&mut out, d.year % 10);
    push_sep(&mut out, '-');
    push_digit(&mut out, d.month / 10);
    push_digit(&mut out, d.month % 10);
    push_sep(&mut out, '-');
    push_digit(&mut out, d.day / 10);
    push_digit(&mut out, d.day % 10);
    proof {
        assert(out@ =~= seq![
            digit_char(d.year as int / 1000),
            digit_char((d.year as int / 100) % 10),
            digit_char((d.year as int / 10) % 10),
            digit_char(d.year as int % 10),
            '-',
            digit_char(d.month as int / 10),
            digit_char(d.month as int % 10),
            '-',
            digit_char(d.day as int / 10),
            digit_char(d.day as int % 10),
        ]);
    }
    out
}

fn format_time_part(d: DateTime) -> (r: String)
    requires
        dt_valid(d),
    ensures
        r@ == seq![
            'T',
            digit_char(d.hour as int / 10),
            digit_char(d.hour as int % 10),
            ':',
            digit_char(d.minute as int / 10),
            digit_char(d.minute as int % 10),
            ':',
            digit_char(d.second as int / 10),
            digit_char(d.second as int % 10),
            'Z',
        ],
{
    let mut out = String::new();
    push_sep(&mut out, 'T');
    push_digit(&mut out, d.hour / 10);
    push_digit(&mut out, d.hour % 10);
    push_sep(&mut out, ':');
    push_digit(&mut out, d.minute / 10);
    push_digit(&mut out, d.minute % 10);
    push_sep(&mut out, ':');
    push_digit(&mut out, d.second / 10);
    push_digit(&mut out, d.second % 10);
    push_sep(&mut out, 'Z');
    proof {
        assert(out@ =~= seq![
            'T',
            digit_char(d.hour as int / 10),
            digit_char(d.hour as int % 10),
            ':',
            digit_char(d.minute as int / 10),
            digit_char(d.minute as int % 10),
            ':',
            digit_char(d.second as int / 10),
            digit_char(d.second as int % 10),
            'Z',
        ]);
    }
    out
}

/// Formats a `DateTime` back to its `YYYY-MM-DDTHH:MM:SSZ` spelling; this is
/// how a stored timestamp is surfaced on reads.
pub fn format_date_created(d: DateTime) -> (r: String)
    requires
        dt_valid(d),
    ensures
        r@ == format_datetime(d),
{
    let mut out = format_date_part(d);
    let time = format_time_part(d);
    out.append(time.as_str());
    proof {
        assert(out@ =~= format_datetime(d));
    }
    out
}

/// Formatting undoes parsing: a wire string that parses is reproduced
/// character for character by `format_datetime`, so a stored order returns
/// its `date_created` exactly as submitted.
pub proof fn lemma_format_parse(s: Seq<char>)
    requires
        parse_datetime(s) is Some,
    ensures
        format_datetime(parse_datetime(s)->Some_0) == s,
{
    let d = dt_of_shape(s);
    assert(d.year as int == digit_val(s[0]) * 1000 + digit_val(s[1]) * 100 + digit_val(s[2]) * 10
        + digit_val(s[3]));
    lemma_four_digits(digit_val(s[0]), digit_val(s[1]), digit_val(s[2]), digit_val(s[3]));
    lemma_two_digits(digit_val(s[5]), digit_val(s[6]));
    lemma_two_digits(digit_val(s[8]), digit_val(s[9]));
    lemma_two_digits(digit_val(s[11]), digit_val(s[12]));
    lemma_two_digits(digit_val(s[14]), digit_val(s[15]));
    lemma_two_digits(digit_val(s[17]), digit_val(s[18]));
    lemma_digit_char_val(s[0]);
    lemma_digit_char_val(s[1]);
    lemma_digit_char_val(s[2]);
    lemma_digit_char_val(s[3]);
    lemma_digit_char_val(s[5]);
    lemma_digit_char_val(s[6]);
    lemma_digit_char_val(s[8]);
    lemma_digit_char_val(s[9]);
    lemma_digit_char_val(s[11]);
    lemma_digit_char_val(s[12]);
    lemma_digit_char_val(s[14]);
    lemma_digit_char_val(s[15]);
    lemma_digit_char_val(s[17]);
    lemma_digit_char_val(s[18]);
    assert(format_datetime(d) =~= s);
}

proof fn lemma_two_digits(a: int, b: int)
    requires
        0 <= a <= 9,
        0 <= b <= 9,
    ensures
        (a * 10 + b) / 10 == a,
        (a * 10 + b) % 10 == b,
{
}

proof fn lemma_four_digits(a: int, b: int, c: int, d: int)
    requires
        0 <= a <= 9,
        0 <= b <= 9,
        0 <= c <= 9,
        0 <= d <= 9,
    ensures
        (a * 1000 + b * 100 + c * 10 + d) / 1000 == a,
        ((a * 1000 + b * 100 + c * 10 + d) / 100) % 10 == b,
        ((a * 1000 + b * 100 + c * 10 + d) / 10) % 10 == c,
        (a * 1000 + b * 100 + c * 10 + d) % 10 == d,
{
    let n = a * 1000 + b * 100 + c * 10 + d;
    assert(n / 1000 == a && (n / 100) % 10 == b && (n / 10) % 10 == c && n % 10 == d) by (
    nonlinear_arith)
        requires
            0 <= a <= 9,
            0 <= b <= 9,
            0 <= c <= 9,
            0 <= d <= 9,
            n == a * 1000 + b * 100 + c * 10 + d,
    ;
}

} // verus!
