//! How a capture time is written: the proleptic Gregorian date and the time
//! of day of an instant, rendered as `%Y-%m-%d %H:%M:%S.%3f`.
use vstd::prelude::*;
use crate::text::{decimal, digit_char};

verus! {

/// The proleptic Gregorian (year, month, day) of a day counted from
/// 1970-01-01 (day 0); earlier days are negative.
pub open spec fn civil_date(days: int) -> (int, int, int) {
    let z = days + 719468;
    let era = z / 146097;
    let doe = z - era * 146097;
    let yoe = (doe - doe / 1460 + doe / 36524 - doe / 146096) / 365;
    let doy = doe - (365 * yoe + yoe / 4 - yoe / 100);
    let mp = (5 * doy + 2) / 153;
    let day = doy - (153 * mp + 2) / 5 + 1;
    let month = if mp < 10 {
        mp + 3
    } else {
        mp - 9
    };
    let year = yoe + era * 400 + if month <= 2 {
        1int
    } else {
        0int
    };
    (year, month, day)
}

/// Two decimal digits, with a leading zero.
pub open spec fn two_digits(n: int) -> Seq<char> {
    seq![digit_char(n / 10), digit_char(n % 10)]
}

/// Three decimal digits, with leading zeros.
pub open spec fn three_digits(n: int) -> Seq<char> {
    seq![digit_char(n / 100), digit_char((n / 10) % 10), digit_char(n % 10)]
}

/// The decimal digits of `n`, zero-padded to at least four.
pub open spec fn four_or_more_digits(n: nat) -> Seq<char> {
    let d = decimal(n);
    if d.len() >= 4 {
        d
    } else {
        Seq::new((4 - d.len()) as nat, |i: int| '0') + d
    }
}

/// How `%Y` writes a year: four digits within 0 to 9999, else a sign and at
/// least four digits.
pub open spec fn year_text(year: int) -> Seq<char> {
    if 0 <= year <= 9999 {
        four_or_more_digits(year as nat)
    } else if year < 0 {
        seq!['-'] + four_or_more_digits((-year) as nat)
    } else {
        seq!['+'] + four_or_more_digits(year as nat)
    }
}

/// An instant, given in milliseconds from 1970-01-01 00:00:00, written as
/// `%Y-%m-%d %H:%M:%S.%3f` on the proleptic Gregorian calendar.
pub open spec fn rendering(millis: int) -> Seq<char> {
    let secs = millis / 1000;
    let days = secs / 86400;
    let sod = secs % 86400;
    let (year, month, day) = civil_date(days);
    year_text(year) + seq!['-'] + two_digits(month) + seq!['-'] + two_digits(day) + seq![' ']
        + two_digits(sod / 3600) + seq![':'] + two_digits((sod / 60) % 60) + seq![':'] + two_digits(
        sod % 60,
    ) + seq!['.'] + three_digits(millis % 1000)
}

/// The text shows the instant in some time zone: it is the rendering of the
/// instant moved by a whole number of seconds, less than a day either way.
pub open spec fn shows_local_time(t: Seq<char>, millis: int) -> bool {
    exists|offset: int| -86400 < offset < 86400 && t == #[trigger] rendering(millis + 1000 * offset)
}

} // verus!
