use vstd::prelude::*;
use crate::text::to_chars;

verus! {

/// A calendar date and time of day, with no time zone attached.
#[derive(Clone, Copy, Debug, PartialEq, Eq, Structural)]
pub struct CivilDateTime {
    pub year: i32,
    pub month: u32,
    pub day: u32,
    pub hour: u32,
    pub minute: u32,
    pub second: u32,
}

/// A parsed ICS date-time, tagged by whether it was anchored to UTC.
#[derive(Clone, Copy, Debug, PartialEq, Eq, Structural)]
pub enum DateTimeType {
    /// No trailing `Z`: a local (naive) date-time.
    NaiveType(CivilDateTime),
    /// A trailing `Z`: a date-time in UTC.
    UtcType(CivilDateTime),
}

/// Why a run over a calendar could not complete.
#[derive(Clone, Copy, Debug, PartialEq, Eq, Structural)]
pub enum ScheduleError {
    /// A date-time field failed positional or calendar validation.
    MalformedDateTime,
}

pub open spec fn is_leap_year(y: int) -> bool {
    (y % 4 == 0 && y % 100 != 0) || y % 400 == 0
}

pub open spec fn days_in_month(y: int, m: int) -> int {
    if m == 2 {
        if is_leap_year(y) { 29 } else { 28 }
    } else if m == 4 || m == 6 || m == 9 || m == 11 {
        30
    } else {
        31
    }
}

/// An existing date of the proleptic Gregorian calendar.
pub open spec fn valid_date(y: int, m: int, d: int) -> bool {
    1 <= m <= 12 && 1 <= d <= days_in_month(y, m)
}

pub open spec fn valid_time(h: int, mi: int, s: int) -> bool {
    0 <= h < 24 && 0 <= mi < 60 && 0 <= s < 60
}

impl CivilDateTime {
    /// An existing date and a time of day without leap second.
    pub open spec fn wf(self) -> bool {
        valid_date(self.year as int, self.month as int, self.day as int) && valid_time(
            self.hour as int,
            self.minute as int,
            self.second as int,
        )
    }

    /// Seconds since midnight.
    pub open spec fn seconds_of_day(self) -> int {
        self.hour * 3600 + self.minute * 60 + self.second
    }

    /// Whether the calendar date of `self` is strictly before that of `o`.
    pub open spec fn date_before(self, o: CivilDateTime) -> bool {
        self.year < o.year || (self.year == o.year && (self.month < o.month || (self.month
            == o.month && self.day < o.day)))
    }

    /// Whether `self` is strictly before `o`, date first, then time of day.
    pub open spec fn before(self, o: CivilDateTime) -> bool {
        self.date_before(o) || (self.year == o.year && self.month == o.month && self.day == o.day
            && self.seconds_of_day() < o.seconds_of_day())
    }
}

pub open spec fn is_digit(c: char) -> bool {
    '0' <= c <= '9'
}

pub open spec fn all_digits(t: Seq<char>) -> bool {
    forall|i: int| 0 <= i < t.len() ==> is_digit(#[trigger] t[i])
}

/// The decimal value of a run of digits.
pub open spec fn digits_value(t: Seq<char>) -> int
    decreases t.len(),
{
    if t.len() == 0 {
        0
    } else {
        digits_value(t.drop_last()) * 10 + (t.last() as int - '0' as int)
    }
}

/// The integer that `str::parse` reads from `t`: digits with an optional
/// leading `+`, or `-` where the target type is signed.
pub open spec fn field_value(t: Seq<char>, signed: bool) -> Option<int> {
    if t.len() >= 2 && t[0] == '+' && all_digits(t.drop_first()) {
        Some(digits_value(t.drop_first()))
    } else if signed && t.len() >= 2 && t[0] == '-' && all_digits(t.drop_first()) {
        Some(-digits_value(t.drop_first()))
    } else if t.len() >= 1 && all_digits(t) {
        Some(digits_value(t))
    } else {
        None
    }
}

/// The six positional fields of an ICS date-time: year `[0,4)`, month
/// `[4,6)`, day `[6,8)`, hour `[9,11)`, minute `[11,13)`, second `[13,15)`.
pub open spec fn year_field(s: Seq<char>) -> Option<int> {
    field_value(s.subrange(0, 4), true)
}

pub open spec fn month_field(s: Seq<char>) -> Option<int> {
    field_value(s.subrange(4, 6), false)
}

pub open spec fn day_field(s: Seq<char>) -> Option<int> {
    field_value(s.subrange(6, 8), false)
}

pub open spec fn hour_field(s: Seq<char>) -> Option<int> {
    field_value(s.subrange(9, 11), false)
}

pub open spec fn minute_field(s: Seq<char>) -> Option<int> {
    field_value(s.subrange(11, 13), false)
}

pub open spec fn second_field(s: Seq<char>) -> Option<int> {
    field_value(s.subrange(13, 15), false)
}

/// `YYYYMMDDTHHMMSS` (local) or `YYYYMMDDTHHMMSSZ` (UTC).
pub open spec fn has_datetime_shape(s: Seq<char>) -> bool {
    s.len() == 15 || (s.len() == 16 && s[15] == 'Z')
}

pub open spec fn fields_present(s: Seq<char>) -> bool {
    &&& year_field(s) is Some
    &&& month_field(s) is Some
    &&& day_field(s) is Some
    &&& hour_field(s) is Some
    &&& minute_field(s) is Some
    &&& second_field(s) is Some
}

pub open spec fn fields_of(s: Seq<char>) -> CivilDateTime {
    CivilDateTime {
        year: year_field(s)->0 as i32,
        month: month_field(s)->0 as u32,
        day: day_field(s)->0 as u32,
        hour: hour_field(s)->0 as u32,
        minute: minute_field(s)->0 as u32,
        second: second_field(s)->0 as u32,
    }
}

/// What an ICS date-time text denotes, or `None` where it is malformed.
pub open spec fn datetime_spec(s: Seq<char>) -> Option<DateTimeType> {
    if has_datetime_shape(s) && fields_present(s) && fields_of(s).wf() {
        if s.len() == 15 {
            Some(DateTimeType::NaiveType(fields_of(s)))
        } else {
            Some(DateTimeType::UtcType(fields_of(s)))
        }
    } else {
        None
    }
}

pub open spec fn pow10(n: nat) -> int
    decreases n,
{
    if n == 0 {
        1
    } else {
        10 * pow10((n - 1) as nat)
    }
}

/// Reads the digits of `s` in `[lo, hi)` as a number.
fn read_digits(s: &Vec<char>, lo: usize, hi: usize) -> (r: Option<u32>)
    requires
        lo <= hi <= s@.len(),
        hi - lo <= 4,
    ensures
        match r {
            Some(v) => all_digits(s@.subrange(lo as int, hi as int)) && v as int == digits_value(
                s@.subrange(lo as int, hi as int),
            ) && v < 10000,
            None => !all_digits(s@.subrange(lo as int, hi as int)),
        },
{
    let mut v: u32 = 0;
    let mut i: usize = lo;
    assert(pow10(4) == 10000) by {
        reveal_with_fuel(pow10, 5);
    }
    while i < hi
        invariant
            lo <= i <= hi,
            hi <= s@.len(),
            hi - lo <= 4,
            all_digits(s@.subrange(lo as int, i as int)),
            v as int == digits_value(s@.subrange(lo as int, i as int)),
            0 <= v < pow10((i - lo) as nat),
            pow10(4) == 10000,
        decreases hi - i,
    {
        let c = s[i];
        if !('0' <= c && c <= '9') {
            assert(s@.subrange(lo as int, hi as int)[i - lo] == c);
            return None;
        }
        let d: u32 = (c as u32) - ('0' as u32);
        proof {
            let k = (i - lo) as nat;
            assert(pow10(k) <= 1000) by {
                reveal_with_fuel(pow10, 4);
            }
            assert(s@.subrange(lo as int, i + 1).drop_last() =~= s@.subrange(lo as int, i as int));
        }
        v = v * 10 + d;
        i = i + 1;
        assert(all_digits(s@.subrange(lo as int, i as int))) by {
            assert forall|j: int| 0 <= j < i - lo implies is_digit(
                #[trigger] s@.subrange(lo as int, i as int)[j],
            ) by {
                if j < i - 1 - lo {
                    assert(s@.subrange(lo as int, i - 1)[j] == s@.subrange(lo as int, i as int)[j]);
                }
            }
        }
    }
    assert(pow10((hi - lo) as nat) <= 10000) by {
        reveal_with_fuel(pow10, 5);
    }
    Some(v)
}

/// Reads one positional field of an ICS date-time, as `str::parse` reads
/// an integer.
fn read_field(s: &Vec<char>, lo: usize, hi: usize, signed: bool) -> (r: Option<i32>)
    requires
        lo < hi <= s@.len(),
        hi - lo <= 4,
    ensures
        match field_value(s@.subrange(lo as int, hi as int), signed) {
            Some(v) => r == Some(v as i32) && -10000 < v < 10000,
            None => r is None,
        },
{
    let ghost t = s@.subrange(lo as int, hi as int);
    let c = s[lo];
    if hi - lo >= 2 && (c == '+' || (signed && c == '-')) {
        assert(t.drop_first() =~= s@.subrange(lo + 1, hi as int));
        assert(!is_digit(t[0]));
        match read_digits(s, lo + 1, hi) {
            Some(v) => {
                if c == '+' {
                    Some(v as i32)
                } else {
                    Some(-(v as i32))
                }
            },
            None => None,
        }
    } else {
        if c == '+' || c == '-' {
            assert(!is_digit(t[0]));
        }
        match read_digits(s, lo, hi) {
            Some(v) => Some(v as i32),
            None => None,
        }
    }
}

/// Relies on chrono's `NaiveDate::from_ymd_opt`: it gives a date exactly
/// when the month and day name an existing day of the proleptic Gregorian
/// calendar, for years within chrono's range.
#[verifier::external_body]
fn date_exists(year: i32, month: u32, day: u32) -> (r: bool)
    requires
        -262143 <= year <= 262142,
    ensures
        r == valid_date(year as int, month as int, day as int),
{
    chrono::NaiveDate::from_ymd_opt(year, month, day).is_some()
}

/// Relies on chrono's `NaiveTime::from_hms_opt`: it gives a time exactly
/// when hour < 24, minute < 60 and second < 60.
#[verifier::external_body]
fn time_exists(hour: u32, minute: u32, second: u32) -> (r: bool)
    ensures
        r == valid_time(hour as int, minute as int, second as int),
{
    chrono::NaiveTime::from_hms_opt(hour, minute, second).is_some()
}

/// Parses an ICS date-time given as characters.
pub fn parse_datetime_chars(s: &Vec<char>) -> (r: Result<DateTimeType, ScheduleError>)
    ensures
        match datetime_spec(s@) {
            Some(v) => r == Ok::<DateTimeType, ScheduleError>(v),
            None => r == Err::<DateTimeType, ScheduleError>(ScheduleError::MalformedDateTime),
        },
{
    let n = s.len();
    if !(n == 15 || (n == 16 && s[15] == 'Z')) {
        return Err(ScheduleError::MalformedDateTime);
    }
    let year = match read_field(s, 0, 4, true) {
        Some(v) => v,
        None => return Err(ScheduleError::MalformedDateTime),
    };
    let month = match read_field(s, 4, 6, false) {
        Some(v) => v,
        None => return Err(ScheduleError::MalformedDateTime),
    };
    let day = match read_field(s, 6, 8, false) {
        Some(v) => v,
        None => return Err(ScheduleError::MalformedDateTime),
    };
    let hour = match read_field(s, 9, 11, false) {
        Some(v) => v,
        None => return Err(ScheduleError::MalformedDateTime),
    };
    let minute = match read_field(s, 11, 13, false) {
        Some(v) => v,
        None => return Err(ScheduleError::MalformedDateTime),
    };
    let second = match read_field(s, 13, 15, false) {
        Some(v) => v,
        None => return Err(ScheduleError::MalformedDateTime),
    };
    let dt = CivilDateTime {
        year,
        month: month as u32,
        day: day as u32,
        hour: hour as u32,
        minute: minute as u32,
        second: second as u32,
    };
    assert(dt == fields_of(s@));
    if !(date_exists(year, month as u32, day as u32) && time_exists(
        hour as u32,
        minute as u32,
        second as u32,
    )) {
        return Err(ScheduleError::MalformedDateTime);
    }
    if n == 15 {
        Ok(DateTimeType::NaiveType(dt))
    } else {
        Ok(DateTimeType::UtcType(dt))
    }
}

/// Parses an ICS date-time `YYYYMMDDTHHMMSS[Z]`. Fields are read by
/// position; the character at index 8 is skipped. A trailing `Z` tags the
/// result as UTC, its absence as local. Any other length, a field that is
/// not an integer, or a date or time that does not exist is an error.
pub fn parse_ics_datetime(ics_dt: &str) -> (r: Result<DateTimeType, ScheduleError>)
    ensures
        match datetime_spec(ics_dt@) {
            Some(v) => r == Ok::<DateTimeType, ScheduleError>(v),
            None => r == Err::<DateTimeType, ScheduleError>(ScheduleError::MalformedDateTime),
        },
{
    let s = to_chars(ics_dt);
    parse_datetime_chars(&s)
}

} // verus!
