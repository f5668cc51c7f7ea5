//! Instants in UTC, their calendar fields, and the arithmetic on them.
//!
//! An instant is a count of seconds since 1970-01-01T00:00:00Z. Calendar fields follow the
//! proleptic Gregorian calendar; the conversions between the two are done by `chrono`.

use crate::text::{
    decimal, four_digits, push_decimal, push_four_digits, push_signed_decimal, push_two_digits,
    signed_decimal, zero_padded,
};
use vstd::prelude::*;
use vstd::string::*;

verus! {

/// Whether `year` is a leap year of the proleptic Gregorian calendar.
pub open spec fn is_leap_year(year: int) -> bool {
    year % 4 == 0 && (year % 100 != 0 || year % 400 == 0)
}

/// The number of days of `month` in `year`.
pub open spec fn days_in_month(year: int, month: int) -> int {
    if month == 2 {
        if is_leap_year(year) { 29 } else { 28 }
    } else if month == 4 || month == 6 || month == 9 || month == 11 {
        30
    } else {
        31
    }
}

/// The number of days of `year` that lie before the first of `month`.
pub open spec fn days_before_month(year: int, month: int) -> int {
    let common: int = if month <= 1 {
        0
    } else if month == 2 {
        31
    } else if month == 3 {
        59
    } else if month == 4 {
        90
    } else if month == 5 {
        120
    } else if month == 6 {
        151
    } else if month == 7 {
        181
    } else if month == 8 {
        212
    } else if month == 9 {
        243
    } else if month == 10 {
        273
    } else if month == 11 {
        304
    } else {
        334
    };
    if month > 2 && is_leap_year(year) { common + 1 } else { common }
}

/// The number of leap years among the years 1 to `year - 1`.
pub open spec fn leap_years_before(year: int) -> int {
    (year - 1) / 4 - (year - 1) / 100 + (year - 1) / 400
}

/// The number of days from 1970-01-01 to the first of January of `year`.
pub open spec fn days_before_year(year: int) -> int {
    365 * (year - 1970) + leap_years_before(year) - leap_years_before(1970)
}

/// The seconds from 1970-01-01T00:00:00Z to the given calendar fields.
pub open spec fn civil_seconds(
    year: int,
    month: int,
    day: int,
    hour: int,
    minute: int,
    second: int,
) -> int {
    (days_before_year(year) + days_before_month(year, month) + day - 1) * 86400 + hour * 3600
        + minute * 60 + second
}

/// The first second that `chrono` can represent.
pub open spec fn chrono_first_second() -> int {
    civil_seconds(-262143, 1, 1, 0, 0, 0)
}

/// The last second that `chrono` can represent.
pub open spec fn chrono_last_second() -> int {
    civil_seconds(262142, 12, 31, 23, 59, 59)
}

/// Calendar fields of an instant: a date of the proleptic Gregorian calendar and a time of day.
#[derive(Clone, Copy, Debug, PartialEq, Eq, Structural, Hash)]
pub struct CivilTime {
    pub year: i32,
    pub month: u32,
    pub day: u32,
    pub hour: u32,
    pub minute: u32,
    pub second: u32,
}

impl CivilTime {
    /// The fields name a day that exists and a time of day without leap second.
    pub open spec fn valid(self) -> bool {
        &&& 1 <= self.month <= 12
        &&& 1 <= self.day <= days_in_month(self.year as int, self.month as int)
        &&& self.hour <= 23
        &&& self.minute <= 59
        &&& self.second <= 59
    }

    /// The seconds from 1970-01-01T00:00:00Z to these fields.
    pub open spec fn seconds(self) -> int {
        civil_seconds(
            self.year as int,
            self.month as int,
            self.day as int,
            self.hour as int,
            self.minute as int,
            self.second as int,
        )
    }
}

/// A year as it is written in a date: four digits for the years 0 to 9999, and a sign before
/// at least four digits for the others.
pub open spec fn year_text(year: int) -> Seq<char> {
    if 0 <= year <= 9999 {
        four_digits(year as nat)
    } else if year > 0 {
        seq!['+'] + decimal(year as nat)
    } else if year > -10000 {
        seq!['-'] + four_digits((-year) as nat)
    } else {
        seq!['-'] + decimal((-year) as nat)
    }
}

impl CivilTime {
    /// The fields written as `YYYY-MM-DD HH:MM:SS`.
    pub open spec fn text(self) -> Seq<char> {
        year_text(self.year as int) + seq!['-'] + zero_padded(self.month as nat) + seq!['-']
            + zero_padded(self.day as nat) + seq![' '] + zero_padded(self.hour as nat) + seq![':']
            + zero_padded(self.minute as nat) + seq![':'] + zero_padded(self.second as nat)
    }

    /// The year as it is written in a date.
    pub fn year_to_text(&self) -> (text: String)
        ensures
            text@ == year_text(self.year as int),
    {
        proof {
            reveal_strlit("-");
            reveal_strlit("+");
        }
        let mut text = String::new();
        let year: i64 = self.year as i64;
        if 0 <= year && year <= 9999 {
            push_four_digits(&mut text, year as u32);
        } else if year > 0 {
            text.append("+");
            push_decimal(&mut text, year as u64);
        } else if year > -10000 {
            text.append("-");
            push_four_digits(&mut text, (-year) as u32);
        } else {
            text.append("-");
            push_decimal(&mut text, (-year) as u64);
        }
        assert(text@ =~= year_text(self.year as int));
        text
    }

    /// The fields written as `YYYY-MM-DD HH:MM:SS`.
    pub fn to_text(&self) -> (text: String)
        ensures
            text@ == self.text(),
    {
        proof {
            reveal_strlit("-");
            reveal_strlit(" ");
            reveal_strlit(":");
        }
        let mut text = self.year_to_text();
        text.append("-");
        push_two_digits(&mut text, self.month);
        text.append("-");
        push_two_digits(&mut text, self.day);
        text.append(" ");
        push_two_digits(&mut text, self.hour);
        text.append(":");
        push_two_digits(&mut text, self.minute);
        text.append(":");
        push_two_digits(&mut text, self.second);
        assert(text@ =~= self.text());
        text
    }
}

/// An instant in UTC, held as seconds since 1970-01-01T00:00:00Z.
#[derive(Clone, Copy, Debug, PartialEq, Eq, Structural, Hash, PartialOrd, Ord)]
pub struct Timestamp {
    pub secs: i64,
}

/// The calendar fields that `chrono` gives to the instant `secs` seconds after
/// 1970-01-01T00:00:00Z.
pub uninterp spec fn civil_of(secs: i64) -> CivilTime;

/// Calendar fields of an instant, read through `chrono::DateTime::from_timestamp`.
///
/// Trusted: `chrono` answers exactly for the seconds it can represent (the years -262143 to
/// 262142), and the fields it gives are those of the proleptic Gregorian calendar, so that they
/// count back to the same second.
#[verifier::external_body]
fn chrono_civil_from_seconds(secs: i64) -> (fields: Option<CivilTime>)
    ensures
        fields.is_some() <==> chrono_first_second() <= secs <= chrono_last_second(),
        fields matches Some(c) ==> c == civil_of(secs) && c.valid() && c.seconds() == secs,
{
    let utc = chrono::DateTime::from_timestamp(secs, 0)?.naive_utc();
    Some(
        CivilTime {
            year: chrono::Datelike::year(&utc),
            month: chrono::Datelike::month(&utc),
            day: chrono::Datelike::day(&utc),
            hour: chrono::Timelike::hour(&utc),
            minute: chrono::Timelike::minute(&utc),
            second: chrono::Timelike::second(&utc),
        },
    )
}

/// The second that `chrono` gives to calendar fields, through `NaiveDate::from_ymd_opt`,
/// `NaiveDate::and_hms_opt` and `DateTime::timestamp`.
///
/// Trusted: `chrono` accepts exactly the fields that name an existing day of a year it can
/// represent and a time of day without leap second, and counts their seconds since
/// 1970-01-01T00:00:00Z by the proleptic Gregorian calendar.
#[verifier::external_body]
fn chrono_seconds_from_civil(fields: CivilTime) -> (secs: Option<i64>)
    ensures
        secs.is_some() <==> (fields.valid() && -262143 <= fields.year <= 262142),
        secs matches Some(s) ==> s == fields.seconds(),
{
    let date = chrono::NaiveDate::from_ymd_opt(fields.year, fields.month, fields.day)?;
    let naive = date.and_hms_opt(fields.hour, fields.minute, fields.second)?;
    Some(naive.and_utc().timestamp())
}

/// The calendar fields that a clock `offset` seconds east of UTC shows at an instant, through
/// `chrono::FixedOffset::east_opt` and `chrono::TimeZone::from_utc_datetime`.
///
/// Trusted: `chrono` answers exactly for an instant it can represent and an offset of less
/// than a day; where the shifted instant is representable too, the fields are those of the
/// instant `offset` seconds later.
#[verifier::external_body]
fn chrono_local_civil(secs: i64, offset: i32) -> (fields: Option<CivilTime>)
    ensures
        fields.is_some() <==> (chrono_first_second() <= secs <= chrono_last_second() && -86400
            < offset < 86400),
        fields matches Some(c) ==> (chrono_first_second() <= secs + offset
            <= chrono_last_second() ==> c.valid() && c.seconds() == secs + offset),
{
    let utc = chrono::DateTime::from_timestamp(secs, 0)?.naive_utc();
    let zone = chrono::FixedOffset::east_opt(offset)?;
    let local = chrono::TimeZone::from_utc_datetime(&zone, &utc);
    Some(
        CivilTime {
            year: chrono::Datelike::year(&local),
            month: chrono::Datelike::month(&local),
            day: chrono::Datelike::day(&local),
            hour: chrono::Timelike::hour(&local),
            minute: chrono::Timelike::minute(&local),
            second: chrono::Timelike::second(&local),
        },
    )
}

/// The quotient of `a` by a positive `b`, rounded toward zero.
pub open spec fn div_toward_zero(a: int, b: int) -> int {
    if a >= 0 {
        a / b
    } else {
        -((-a) / b)
    }
}

/// The quotient of `a` by a positive `b`, rounded toward zero.
pub fn quotient_toward_zero(a: i64, b: i64) -> (q: i64)
    requires
        b > 0,
    ensures
        q == div_toward_zero(a as int, b as int),
{
    let wide: i128 = a as i128;
    if wide >= 0 {
        (wide / (b as i128)) as i64
    } else {
        let q: i128 = (-wide) / (b as i128);
        assert(q <= -wide) by (nonlinear_arith)
            requires
                q == (-wide) / (b as int),
                b > 0,
                -wide >= 0,
        ;
        (-q) as i64
    }
}

impl Timestamp {
    /// The instant `secs` seconds after 1970-01-01T00:00:00Z.
    pub fn new(secs: i64) -> (t: Timestamp)
        ensures
            t.secs == secs,
    {
        Timestamp { secs }
    }

    /// Whether the calendar can name this instant.
    pub open spec fn representable(self) -> bool {
        chrono_first_second() <= self.secs <= chrono_last_second()
    }

    /// Whether this instant is representable; the bounds are the first second of the year
    /// -262143 and the last second of the year 262142.
    pub fn is_representable(self) -> (yes: bool)
        ensures
            yes == self.representable(),
    {
        -8334601228800 <= self.secs && self.secs <= 8210266876799
    }

    /// The calendar fields of this instant, or `None` where the calendar cannot name it.
    pub fn civil(self) -> (fields: Option<CivilTime>)
        ensures
            fields.is_some() <==> self.representable(),
            fields matches Some(c) ==> c == civil_of(self.secs) && c.valid() && c.seconds()
                == self.secs,
    {
        chrono_civil_from_seconds(self.secs)
    }

    /// The instant that the calendar fields name, or `None` where they name none.
    pub fn from_civil(fields: CivilTime) -> (t: Option<Timestamp>)
        ensures
            t.is_some() <==> fields.valid() && -262143 <= fields.year <= 262142,
            t matches Some(ts) ==> ts.secs == fields.seconds(),
    {
        match chrono_seconds_from_civil(fields) {
            Some(secs) => Some(Timestamp { secs }),
            None => None,
        }
    }

    /// The instant at the full hour `hour` of the given day, or `None` where there is none.
    pub fn from_ymdh(year: i32, month: u32, day: u32, hour: u32) -> (t: Option<Timestamp>)
        ensures
            t == Timestamp::from_civil_spec(
                (CivilTime { year, month, day, hour, minute: 0, second: 0 }),
            ),
    {
        Timestamp::from_civil(CivilTime { year, month, day, hour, minute: 0, second: 0 })
    }

    /// What `from_civil` returns.
    pub open spec fn from_civil_spec(fields: CivilTime) -> Option<Timestamp> {
        if fields.valid() && -262143 <= fields.year <= 262142 {
            Some(Timestamp { secs: fields.seconds() as i64 })
        } else {
            None
        }
    }

    /// The calendar fields that a clock `offset` seconds east of UTC shows at this instant.
    /// `None` where the instant is not representable or the offset is a day or more.
    pub fn local_civil(self, offset: i32) -> (fields: Option<CivilTime>)
        ensures
            fields.is_some() <==> self.representable() && -86400 < offset < 86400,
            fields matches Some(c) ==> (chrono_first_second() <= self.secs + offset
                <= chrono_last_second() ==> c.valid() && c.seconds() == self.secs + offset),
    {
        chrono_local_civil(self.secs, offset)
    }

    /// This instant moved by `hours` hours, or `None` where the result overflows.
    pub fn checked_add_hours(self, hours: i64) -> (t: Option<Timestamp>)
        ensures
            t.is_some() <==> i64::MIN <= self.secs + hours * 3600 <= i64::MAX,
            t matches Some(ts) ==> ts.secs == self.secs + hours * 3600,
    {
        let total: i128 = self.secs as i128 + hours as i128 * 3600;
        if -9223372036854775808 <= total && total <= 9223372036854775807 {
            Some(Timestamp { secs: total as i64 })
        } else {
            None
        }
    }

    /// Whole hours from `earlier` to this instant, rounded toward zero.
    pub open spec fn spec_hours_since(self, earlier: Timestamp) -> int {
        div_toward_zero(self.secs - earlier.secs, 3600)
    }

    /// Whole hours from `earlier` to this instant, rounded toward zero.
    pub fn hours_since(self, earlier: Timestamp) -> (hours: i64)
        ensures
            hours == self.spec_hours_since(earlier),
    {
        let d: i128 = self.secs as i128 - earlier.secs as i128;
        if d >= 0 {
            (d / 3600) as i64
        } else {
            let q: i128 = (-d) / 3600;
            (-q) as i64
        }
    }

    /// The instant as it is shown to the user: its calendar fields as `YYYY-MM-DD HH:MM:SS`,
    /// or its seconds where the calendar cannot name it.
    pub open spec fn text(self) -> Seq<char> {
        if self.representable() {
            civil_of(self.secs).text()
        } else {
            signed_decimal(self.secs as int)
        }
    }

    /// The instant as it is shown to the user.
    pub fn to_text(self) -> (text: String)
        ensures
            text@ == self.text(),
    {
        match self.civil() {
            Some(fields) => fields.to_text(),
            None => {
                let mut text = String::new();
                push_signed_decimal(&mut text, self.secs);
                assert(text@ =~= signed_decimal(self.secs as int));
                text
            },
        }
    }

    /// Whether this instant lies before `other`.
    pub fn is_before(self, other: Timestamp) -> (yes: bool)
        ensures
            yes == (self.secs < other.secs),
    {
        self.secs < other.secs
    }
}

/// Whether a character is a decimal digit.
pub open spec fn is_digit(c: char) -> bool {
    '0' <= c <= '9'
}

/// The number that the `len` decimal digits of `text` from position `from` on stand for.
pub open spec fn number_at(text: Seq<char>, from: int, len: int) -> int
    decreases len,
{
    if len <= 0 {
        0
    } else {
        number_at(text, from, len - 1) * 10 + (text[from + len - 1] as int - '0' as int)
    }
}

/// Whether a text has the shape `YYYY-MM-DD-HH`: digits, with a hyphen between the groups.
pub open spec fn has_date_shape(text: Seq<char>) -> bool {
    &&& text.len() == 13
    &&& forall|i: int| 0 <= i < 13 && i != 4 && i != 7 && i != 10 ==> is_digit(#[trigger] text[i])
    &&& text[4] == '-'
    &&& text[7] == '-'
    &&& text[10] == '-'
}

/// The calendar fields that a text of the shape `YYYY-MM-DD-HH` holds: a full hour.
pub open spec fn date_fields(text: Seq<char>) -> CivilTime {
    CivilTime {
        year: number_at(text, 0, 4) as i32,
        month: number_at(text, 5, 2) as u32,
        day: number_at(text, 8, 2) as u32,
        hour: number_at(text, 11, 2) as u32,
        minute: 0,
        second: 0,
    }
}

/// The instant that a text names: for a text of the shape `YYYY-MM-DD-HH` whose fields name
/// an existing day and hour, the beginning of that hour in UTC; otherwise none.
pub open spec fn date_of(text: Seq<char>) -> Option<Timestamp> {
    if has_date_shape(text) && date_fields(text).valid() {
        Some(Timestamp { secs: date_fields(text).seconds() as i64 })
    } else {
        None
    }
}

/// The number that the `len` decimal digits of `text` from position `from` on stand for, or
/// `None` where one of the characters is no digit.
fn read_number(text: &str, from: usize, len: usize) -> (value: Option<u32>)
    requires
        from + len <= text@.len(),
        from <= 16,
        len <= 4,
    ensures
        value.is_some() <==> (forall|i: int|
            from <= i < from + len ==> is_digit(#[trigger] text@[i])),
        value matches Some(v) ==> v == number_at(text@, from as int, len as int),
{
    let mut value: u32 = 0;
    let mut i: usize = 0;
    while i < len
        invariant
            i <= len <= 4,
            from <= 16,
            from + len <= text@.len(),
            forall|j: int| from <= j < from + i ==> is_digit(#[trigger] text@[j]),
            value == number_at(text@, from as int, i as int),
            value < 10000,
            i == 0 ==> value == 0,
            i == 1 ==> value < 10,
            i == 2 ==> value < 100,
            i == 3 ==> value < 1000,
        decreases len - i,
    {
        let c = text.get_char(from + i);
        if !('0' <= c && c <= '9') {
            return None;
        }
        value = value * 10 + (c as u32 - '0' as u32);
        i = i + 1;
    }
    Some(value)
}

/// Reads an instant written as `YYYY-MM-DD-HH` (UTC): the beginning of that hour. `None` for
/// a text of another shape, and for fields that name no existing day or hour.
pub fn parse_date_string(dt_str: &str) -> (instant: Option<Timestamp>)
    ensures
        instant == date_of(dt_str@),
{
    if dt_str.unicode_len() != 13 {
        return None;
    }
    if dt_str.get_char(4) != '-' || dt_str.get_char(7) != '-' || dt_str.get_char(10) != '-' {
        return None;
    }
    let year = read_number(dt_str, 0, 4);
    let month = read_number(dt_str, 5, 2);
    let day = read_number(dt_str, 8, 2);
    let hour = read_number(dt_str, 11, 2);
    match (year, month, day, hour) {
        (Some(year), Some(month), Some(day), Some(hour)) => {
            assert(has_date_shape(dt_str@));
            assert(year < 10000) by {
                reveal_with_fuel(number_at, 5);
            }
            let fields = CivilTime {
                year: year as i32,
                month,
                day,
                hour,
                minute: 0,
                second: 0,
            };
            assert(fields == date_fields(dt_str@));
            Timestamp::from_civil(fields)
        },
        _ => {
            assert(!has_date_shape(dt_str@));
            None
        },
    }
}

} // verus!
