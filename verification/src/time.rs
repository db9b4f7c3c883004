//! The library's calendar date-time model: a plain value carrying year,
//! month, day, hour, minute, second and millisecond, with the Gregorian
//! validity rules, a total order, and verified parsers for the timestamp
//! shapes the export data uses.

use vstd::prelude::*;
use crate::text::{all_digits, spec_digits_value, is_digit, digit_val};

verus! {

/// A naive (zone-less) date and time.
#[derive(Clone, Copy, PartialEq, Eq, Structural, Debug)]
pub struct DateTime {
    pub year: u32,
    pub month: u8,
    pub day: u8,
    pub hour: u8,
    pub minute: u8,
    pub second: u8,
    pub millis: u16,
}

/// Gregorian leap year rule.
pub open spec fn spec_is_leap_year(year: int) -> bool {
    year % 4 == 0 && (year % 100 != 0 || year % 400 == 0)
}

/// Days in a month of the Gregorian calendar.
pub open spec fn spec_days_in_month(year: int, month: int) -> int {
    if month == 2 {
        if spec_is_leap_year(year) {
            29
        } else {
            28
        }
    } else if month == 4 || month == 6 || month == 9 || month == 11 {
        30
    } else {
        31
    }
}

impl DateTime {
    /// A well-formed date-time: a real calendar date (years up to 9999) and a
    /// real time of day.
    pub open spec fn wf(self) -> bool {
        &&& self.year <= 9999
        &&& 1 <= self.month <= 12
        &&& 1 <= self.day <= spec_days_in_month(self.year as int, self.month as int)
        &&& self.hour <= 23
        &&& self.minute <= 59
        &&& self.second <= 59
        &&& self.millis <= 999
    }

    /// A single integer that orders date-times chronologically: a mixed-radix
    /// encoding of the fields, most significant first.
    pub open spec fn key(self) -> int {
        (((((self.year * 16 + self.month) * 32 + self.day) * 32 + self.hour) * 64 + self.minute)
            * 64 + self.second) * 1024 + self.millis
    }

    /// Build a date-time, checking the calendar rules.
    pub fn new(year: u32, month: u8, day: u8, hour: u8, minute: u8, second: u8, millis: u16) -> (r:
        Option<DateTime>)
        ensures
            r is Some <==> (DateTime { year, month, day, hour, minute, second, millis }).wf(),
            r is Some ==> r->Some_0 == (DateTime { year, month, day, hour, minute, second, millis }),
    {
        if year <= 9999 && 1 <= month && month <= 12 && 1 <= day && day <= days_in_month(
            year,
            month,
        ) && hour <= 23 && minute <= 59 && second <= 59 && millis <= 999 {
            Some(DateTime { year, month, day, hour, minute, second, millis })
        } else {
            None
        }
    }

    /// Chronological comparison: whether `self` is at or before `other`.
    pub fn le(&self, other: &DateTime) -> (r: bool)
        requires
            self.wf(),
            other.wf(),
        ensures
            r == (self.key() <= other.key()),
    {
        if self.year != other.year {
            self.year < other.year
        } else if self.month != other.month {
            self.month < other.month
        } else if self.day != other.day {
            self.day < other.day
        } else if self.hour != other.hour {
            self.hour < other.hour
        } else if self.minute != other.minute {
            self.minute < other.minute
        } else if self.second != other.second {
            self.second < other.second
        } else {
            self.millis <= other.millis
        }
    }
}

/// Days in a month of the Gregorian calendar.
pub fn days_in_month(year: u32, month: u8) -> (r: u8)
    ensures
        r == spec_days_in_month(year as int, month as int),
{
    if month == 2 {
        if year % 4 == 0 && (year % 100 != 0 || year % 400 == 0) {
            29
        } else {
            28
        }
    } else if month == 4 || month == 6 || month == 9 || month == 11 {
        30
    } else {
        31
    }
}

/// The value of a run of digits is bounded by a power of ten of its length.
pub proof fn lemma_digits_value_bound(s: Seq<char>)
    requires
        all_digits(s),
        s.len() <= 4,
    ensures
        0 <= spec_digits_value(s) <= 9999,
        s.len() <= 1 ==> spec_digits_value(s) <= 9,
        s.len() <= 2 ==> spec_digits_value(s) <= 99,
        s.len() <= 3 ==> spec_digits_value(s) <= 999,
    decreases s.len(),
{
    if s.len() > 0 {
        assert(all_digits(s.drop_last())) by {
            assert(forall|i: int|
                0 <= i < s.len() - 1 ==> #[trigger] s.drop_last()[i] == s[i]);
        }
        lemma_digits_value_bound(s.drop_last());
        assert(0 <= digit_val(s.last()) <= 9);
    }
}

/// Whether the characters of `s` from `from` (inclusive) to `to` (exclusive)
/// are all digits.
pub fn check_digits(s: &str, from: usize, to: usize) -> (r: bool)
    requires
        from <= to <= s@.len(),
    ensures
        r == all_digits(s@.subrange(from as int, to as int)),
{
    let mut i = from;
    while i < to
        invariant
            from <= i <= to <= s@.len(),
            forall|j: int| from <= j < i ==> is_digit(#[trigger] s@[j]),
        decreases to - i,
    {
        let c = s.get_char(i);
        let good = '0' <= c && c <= '9';
        proof {
            assert(good == is_digit(s@[i as int]));
        }
        if !good {
            proof {
                assert(!all_digits(s@.subrange(from as int, to as int))) by {
                    assert(s@.subrange(from as int, to as int)[i - from] == s@[i as int]);
                }
            }
            return false;
        }
        i += 1;
    }
    proof {
        assert forall|j: int| 0 <= j < to - from implies is_digit(
            #[trigger] s@.subrange(from as int, to as int)[j],
        ) by {
            assert(s@.subrange(from as int, to as int)[j] == s@[from + j]);
        }
    }
    true
}

/// The numeric value of up to four digit characters of `s`.
pub fn digits_value_at(s: &str, from: usize, to: usize) -> (r: u32)
    requires
        from <= to <= s@.len(),
        to - from <= 4,
        all_digits(s@.subrange(from as int, to as int)),
    ensures
        r == spec_digits_value(s@.subrange(from as int, to as int)),
        r <= 9999,
{
    proof {
        lemma_digits_value_bound(s@.subrange(from as int, to as int));
    }
    let mut acc: u32 = 0;
    let mut i = from;
    while i < to
        invariant
            from <= i <= to <= s@.len(),
            to - from <= 4,
            all_digits(s@.subrange(from as int, to as int)),
            acc == spec_digits_value(s@.subrange(from as int, i as int)),
            acc <= 9999,
        decreases to - i,
    {
        proof {
            lemma_digits_value_bound(s@.subrange(from as int, i as int));
            assert(all_digits(s@.subrange(from as int, i + 1))) by {
                assert(forall|j: int|
                    0 <= j < i + 1 - from ==> #[trigger] s@.subrange(from as int, i + 1)[j]
                        == s@.subrange(from as int, to as int)[j]);
            }
            lemma_digits_value_bound(s@.subrange(from as int, i + 1));
            assert(s@.subrange(from as int, i + 1).drop_last() =~= s@.subrange(
                from as int,
                i as int,
            ));
            assert(s@.subrange(from as int, i + 1).last() == s@[i as int]);
            assert(is_digit(s@[i as int])) by {
                assert(s@.subrange(from as int, to as int)[i - from] == s@[i as int]);
            }
        }
        let c = s.get_char(i);
        let d = (c as u32) - ('0' as u32);
        acc = acc * 10 + d;
        i += 1;
        proof {
            lemma_digits_value_bound(s@.subrange(from as int, i as int));
        }
    }
    acc
}

/// What parsing `YYYY-MM-DD` yields: midnight of that date, or nothing if the
/// shape or the calendar rules are violated.
pub open spec fn spec_parse_date(s: Seq<char>) -> Option<DateTime> {
    if s.len() == 10 && s[4] == '-' && s[7] == '-' && all_digits(s.subrange(0, 4)) && all_digits(
        s.subrange(5, 7),
    ) && all_digits(s.subrange(8, 10)) {
        let dt = DateTime {
            year: spec_digits_value(s.subrange(0, 4)) as u32,
            month: spec_digits_value(s.subrange(5, 7)) as u8,
            day: spec_digits_value(s.subrange(8, 10)) as u8,
            hour: 0,
            minute: 0,
            second: 0,
            millis: 0,
        };
        if dt.wf() {
            Some(dt)
        } else {
            None
        }
    } else {
        None
    }
}

/// What parsing `YYYY-MM-DDTHH:MM:SS` yields.
pub open spec fn spec_parse_datetime(s: Seq<char>) -> Option<DateTime> {
    if s.len() == 19 && s[4] == '-' && s[7] == '-' && s[10] == 'T' && s[13] == ':' && s[16] == ':'
        && all_digits(s.subrange(0, 4)) && all_digits(s.subrange(5, 7)) && all_digits(
        s.subrange(8, 10),
    ) && all_digits(s.subrange(11, 13)) && all_digits(s.subrange(14, 16)) && all_digits(
        s.subrange(17, 19),
    ) {
        let dt = DateTime {
            year: spec_digits_value(s.subrange(0, 4)) as u32,
            month: spec_digits_value(s.subrange(5, 7)) as u8,
            day: spec_digits_value(s.subrange(8, 10)) as u8,
            hour: spec_digits_value(s.subrange(11, 13)) as u8,
            minute: spec_digits_value(s.subrange(14, 16)) as u8,
            second: spec_digits_value(s.subrange(17, 19)) as u8,
            millis: 0,
        };
        if dt.wf() {
            Some(dt)
        } else {
            None
        }
    } else {
        None
    }
}

/// What parsing `YYYY-MM-DDTHH:MM:SS[.mmm]Z` yields: the date-time with its
/// optional millisecond fraction.
pub open spec fn spec_parse_timestamp(s: Seq<char>) -> Option<DateTime> {
    if s.len() == 20 && s[19] == 'Z' {
        spec_parse_datetime(s.subrange(0, 19))
    } else if s.len() == 24 && s[19] == '.' && s[23] == 'Z' && all_digits(s.subrange(20, 23)) {
        match spec_parse_datetime(s.subrange(0, 19)) {
            Some(dt) => Some(
                DateTime { millis: spec_digits_value(s.subrange(20, 23)) as u16, ..dt },
            ),
            None => None,
        }
    } else {
        None
    }
}

/// Parse `YYYY-MM-DD` into midnight of that date.
pub fn parse_date(s: &str) -> (r: Option<DateTime>)
    ensures
        r == spec_parse_date(s@),
{
    if s.unicode_len() != 10 {
        return None;
    }
    if s.get_char(4) != '-' || s.get_char(7) != '-' {
        return None;
    }
    if !check_digits(s, 0, 4) || !check_digits(s, 5, 7) || !check_digits(s, 8, 10) {
        return None;
    }
    proof {
        lemma_digits_value_bound(s@.subrange(0, 4));
        lemma_digits_value_bound(s@.subrange(5, 7));
        lemma_digits_value_bound(s@.subrange(8, 10));
    }
    let year = digits_value_at(s, 0, 4);
    let month = digits_value_at(s, 5, 7) as u8;
    let day = digits_value_at(s, 8, 10) as u8;
    DateTime::new(year, month, day, 0, 0, 0, 0)
}

/// Parse `YYYY-MM-DDTHH:MM:SS`.
pub fn parse_datetime(s: &str) -> (r: Option<DateTime>)
    ensures
        r == spec_parse_datetime(s@),
{
    if s.unicode_len() != 19 {
        return None;
    }
    if s.get_char(4) != '-' || s.get_char(7) != '-' || s.get_char(10) != 'T' || s.get_char(13)
        != ':' || s.get_char(16) != ':' {
        return None;
    }
    if !check_digits(s, 0, 4) || !check_digits(s, 5, 7) || !check_digits(s, 8, 10) || !check_digits(
        s,
        11,
        13,
    ) || !check_digits(s, 14, 16) || !check_digits(s, 17, 19) {
        return None;
    }
    proof {
        lemma_digits_value_bound(s@.subrange(5, 7));
        lemma_digits_value_bound(s@.subrange(8, 10));
        lemma_digits_value_bound(s@.subrange(11, 13));
        lemma_digits_value_bound(s@.subrange(14, 16));
        lemma_digits_value_bound(s@.subrange(17, 19));
    }
    let year = digits_value_at(s, 0, 4);
    let month = digits_value_at(s, 5, 7) as u8;
    let day = digits_value_at(s, 8, 10) as u8;
    let hour = digits_value_at(s, 11, 13) as u8;
    let minute = digits_value_at(s, 14, 16) as u8;
    let second = digits_value_at(s, 17, 19) as u8;
    DateTime::new(year, month, day, hour, minute, second, 0)
}

/// Parse `YYYY-MM-DDTHH:MM:SS[.mmm]Z`, the shape the export's JSON timestamps
/// use.
pub fn parse_timestamp(s: &str) -> (r: Option<DateTime>)
    ensures
        r == spec_parse_timestamp(s@),
{
    let n = s.unicode_len();
    if n == 20 {
        if s.get_char(19) != 'Z' {
            return None;
        }
        let head = s.substring_char(0, 19);
        proof {
            assert(head@ =~= s@.subrange(0, 19));
        }
        parse_datetime(head)
    } else if n == 24 {
        if s.get_char(19) != '.' || s.get_char(23) != 'Z' {
            return None;
        }
        if !check_digits(s, 20, 23) {
            return None;
        }
        let head = s.substring_char(0, 19);
        proof {
            assert(head@ =~= s@.subrange(0, 19));
        }
        match parse_datetime(head) {
            Some(dt) => {
                proof {
                    lemma_digits_value_bound(s@.subrange(20, 23));
                }
                let millis = digits_value_at(s, 20, 23) as u16;
                Some(DateTime { millis, ..dt })
            },
            None => None,
        }
    } else {
        None
    }
}

} // verus!
