//! Calendar dates in UTC, as feeds carry them.

use vstd::prelude::*;
use crate::image::{decimal, decimal_chars};
use crate::size::{digits_value, is_digit};
use crate::text::{append_chars, chars_of, string_of};
use vstd::string::*;

verus! {

/// A date and a time of day in UTC.
#[derive(Debug, Clone, Copy, PartialEq, Eq, Structural)]
pub struct DateTimeUtc {
    pub year: u16,
    pub month: u8,
    pub day: u8,
    pub hour: u8,
    pub minute: u8,
    pub second: u8,
}

/// The first field of a date that is out of range.
#[derive(Debug, Clone, Copy, PartialEq, Eq, Structural)]
pub enum DateError {
    /// The month is not between 1 and 12.
    Month(u8),
    /// The day is zero or after the last day of the month.
    Day(u8),
    /// The hour is after 23.
    Hour(u8),
    /// The minute is after 59.
    Minute(u8),
    /// The second is after 59.
    Second(u8),
}

/// Leap years of the Gregorian calendar.
pub open spec fn is_leap(year: int) -> bool {
    (year % 4 == 0 && year % 100 != 0) || year % 400 == 0
}

/// The number of days of a month; zero for what is no month.
pub open spec fn days_in(year: int, month: int) -> int {
    if month == 1 || month == 3 || month == 5 || month == 7 || month == 8 || month == 10 || month
        == 12 {
        31
    } else if month == 4 || month == 6 || month == 9 || month == 11 {
        30
    } else if month == 2 {
        if is_leap(year) {
            29
        } else {
            28
        }
    } else {
        0
    }
}

/// The first field that is out of range, from the month to the second; none
/// for a date and time that exist.
pub open spec fn first_error(d: DateTimeUtc) -> Option<DateError> {
    if !(1 <= d.month <= 12) {
        Some(DateError::Month(d.month))
    } else if d.day == 0 || d.day > days_in(d.year as int, d.month as int) {
        Some(DateError::Day(d.day))
    } else if d.hour > 23 {
        Some(DateError::Hour(d.hour))
    } else if d.minute > 59 {
        Some(DateError::Minute(d.minute))
    } else if d.second > 59 {
        Some(DateError::Second(d.second))
    } else {
        None
    }
}

/// The day of the week by Zeller's congruence: 0 for Saturday, 1 for
/// Sunday, up to 6 for Friday.
pub open spec fn weekday(year: int, month: int, day: int) -> int {
    let y = if month < 3 {
        year - 1
    } else {
        year
    };
    let m = if month < 3 {
        month + 12
    } else {
        month
    };
    (day + (13 * (m + 1)) / 5 + y + toward_zero(y, 4) - toward_zero(y, 100) + toward_zero(y, 400))
        % 7
}

/// The quotient of `a` by a positive `b`, rounded toward zero.
pub open spec fn toward_zero(a: int, b: int) -> int {
    if a >= 0 {
        a / b
    } else {
        -((-a) / b)
    }
}

/// The English short name of a day of the week, counted from Saturday.
pub open spec fn weekday_name(w: int) -> Seq<char> {
    if w == 0 {
        "Sat"@
    } else if w == 1 {
        "Sun"@
    } else if w == 2 {
        "Mon"@
    } else if w == 3 {
        "Tue"@
    } else if w == 4 {
        "Wed"@
    } else if w == 5 {
        "Thu"@
    } else {
        "Fri"@
    }
}

/// The English short name of a month.
pub open spec fn month_name(m: int) -> Seq<char> {
    if m == 1 {
        "Jan"@
    } else if m == 2 {
        "Feb"@
    } else if m == 3 {
        "Mar"@
    } else if m == 4 {
        "Apr"@
    } else if m == 5 {
        "May"@
    } else if m == 6 {
        "Jun"@
    } else if m == 7 {
        "Jul"@
    } else if m == 8 {
        "Aug"@
    } else if m == 9 {
        "Sep"@
    } else if m == 10 {
        "Oct"@
    } else if m == 11 {
        "Nov"@
    } else {
        "Dec"@
    }
}

/// `n` in decimal, with zeros in front up to `width` digits.
pub open spec fn padded(n: nat, width: nat) -> Seq<char> {
    let zeros = if width > decimal(n).len() {
        (width - decimal(n).len()) as nat
    } else {
        0nat
    };
    Seq::new(zeros, |i: int| '0') + decimal(n)
}

/// A date and time in the format of RFC 2822, in GMT.
pub open spec fn rfc2822(d: DateTimeUtc) -> Seq<char> {
    weekday_name(weekday(d.year as int, d.month as int, d.day as int)) + ", "@ + padded(
        d.day as nat,
        2,
    ) + " "@ + month_name(d.month as int) + " "@ + padded(d.year as nat, 4) + " "@ + padded(
        d.hour as nat,
        2,
    ) + ":"@ + padded(d.minute as nat, 2) + ":"@ + padded(d.second as nat, 2) + " GMT"@
}

/// `n` in decimal, with zeros in front up to `width` digits.
pub fn pad_decimal(n: u64, width: usize) -> (out: Vec<char>)
    ensures
        out@ == padded(n as nat, width as nat),
{
    let digits = decimal_chars(n);
    let mut out: Vec<char> = Vec::new();
    let zeros: usize = if width > digits.len() {
        width - digits.len()
    } else {
        0
    };
    let mut i: usize = 0;
    while i < zeros
        invariant
            i <= zeros,
            out@ == Seq::new(i as nat, |k: int| '0'),
        decreases zeros - i,
    {
        out.push('0');
        i = i + 1;
        assert(out@ =~= Seq::new(i as nat, |k: int| '0'));
    }
    append_chars(&mut out, &digits);
    assert(out@ =~= padded(n as nat, width as nat));
    out
}

impl DateTimeUtc {
    /// A date with a time of day.
    pub fn new(year: u16, month: u8, day: u8, hour: u8, minute: u8, second: u8) -> (d: Self)
        ensures
            d == (DateTimeUtc { year, month, day, hour, minute, second }),
    {
        DateTimeUtc { year, month, day, hour, minute, second }
    }

    /// A date at midnight.
    pub fn from_ymd(year: u16, month: u8, day: u8) -> (d: Self)
        ensures
            d == (DateTimeUtc { year, month, day, hour: 0, minute: 0, second: 0 }),
    {
        DateTimeUtc { year, month, day, hour: 0, minute: 0, second: 0 }
    }

    /// Checks that the date and the time exist.
    pub fn validate(&self) -> (r: Result<(), DateError>)
        ensures
            match first_error(*self) {
                Some(e) => r == Err::<(), DateError>(e),
                None => r is Ok,
            },
    {
        if self.month < 1 || self.month > 12 {
            return Err(DateError::Month(self.month));
        }
        let year = self.year;
        let leap = (year % 4 == 0 && year % 100 != 0) || year % 400 == 0;
        let month = self.month;
        let max_days: u8 = if month == 1 || month == 3 || month == 5 || month == 7 || month == 8
            || month == 10 || month == 12 {
            31
        } else if month == 4 || month == 6 || month == 9 || month == 11 {
            30
        } else if leap {
            29
        } else {
            28
        };
        if self.day == 0 || self.day > max_days {
            return Err(DateError::Day(self.day));
        }
        if self.hour > 23 {
            return Err(DateError::Hour(self.hour));
        }
        if self.minute > 59 {
            return Err(DateError::Minute(self.minute));
        }
        if self.second > 59 {
            return Err(DateError::Second(self.second));
        }
        Ok(())
    }

    /// Writes the date and time in the format of RFC 2822.
    pub fn to_rfc2822(&self) -> (out: String)
        requires
            1 <= self.month <= 12,
        ensures
            out@ == rfc2822(*self),
    {
        let year: i32 = self.year as i32;
        let month: i32 = self.month as i32;
        let y: i32 = if month < 3 {
            year - 1
        } else {
            year
        };
        let m: i32 = if month < 3 {
            month + 12
        } else {
            month
        };
        let d: i32 = self.day as i32;
        let leaps: i32 = if y < 0 {
            0
        } else {
            y / 4 - y / 100 + y / 400
        };
        let w: i32 = (d + (13 * (m + 1)) / 5 + y + leaps) % 7;
        let mut out = String::new();
        out.append(
            if w == 0 {
                "Sat"
            } else if w == 1 {
                "Sun"
            } else if w == 2 {
                "Mon"
            } else if w == 3 {
                "Tue"
            } else if w == 4 {
                "Wed"
            } else if w == 5 {
                "Thu"
            } else {
                "Fri"
            },
        );
        out.append(", ");
        out.append(string_of(&pad_decimal(self.day as u64, 2)).as_str());
        out.append(" ");
        out.append(
            if month == 1 {
                "Jan"
            } else if month == 2 {
                "Feb"
            } else if month == 3 {
                "Mar"
            } else if month == 4 {
                "Apr"
            } else if month == 5 {
                "May"
            } else if month == 6 {
                "Jun"
            } else if month == 7 {
                "Jul"
            } else if month == 8 {
                "Aug"
            } else if month == 9 {
                "Sep"
            } else if month == 10 {
                "Oct"
            } else if month == 11 {
                "Nov"
            } else {
                "Dec"
            },
        );
        out.append(" ");
        out.append(string_of(&pad_decimal(self.year as u64, 4)).as_str());
        out.append(" ");
        out.append(string_of(&pad_decimal(self.hour as u64, 2)).as_str());
        out.append(":");
        out.append(string_of(&pad_decimal(self.minute as u64, 2)).as_str());
        out.append(":");
        out.append(string_of(&pad_decimal(self.second as u64, 2)).as_str());
        out.append(" GMT");
        out
    }
}

/// Tells whether the characters of `s` from `from` up to `to` are digits.
pub open spec fn digits_at(s: Seq<char>, from: int, to: int) -> bool {
    forall|i: int| from <= i < to ==> is_digit(#[trigger] s[i])
}

/// The number written by the characters of `s` from `from` up to `to`.
pub open spec fn number_at(s: Seq<char>, from: int, to: int) -> nat {
    digits_value(s.subrange(from, to))
}

/// Tells whether a text is a date written as `YYYY-MM-DD`.
pub open spec fn is_plain_date(s: Seq<char>) -> bool {
    &&& s.len() == 10
    &&& digits_at(s, 0, 4)
    &&& s[4] == '-'
    &&& digits_at(s, 5, 7)
    &&& s[7] == '-'
    &&& digits_at(s, 8, 10)
}

/// Tells whether a text is a date and time written as
/// `YYYY-MM-DDTHH:MM:SSZ`.
pub open spec fn is_timestamp(s: Seq<char>) -> bool {
    &&& s.len() == 20
    &&& is_plain_date(s.subrange(0, 10))
    &&& s[10] == 'T'
    &&& digits_at(s, 11, 13)
    &&& s[13] == ':'
    &&& digits_at(s, 14, 16)
    &&& s[16] == ':'
    &&& digits_at(s, 17, 19)
    &&& s[19] == 'Z'
}

/// The date that a text writes, in one of the two forms; the fields are
/// not yet checked to exist.
pub open spec fn written_date(s: Seq<char>) -> Option<DateTimeUtc> {
    if is_timestamp(s) {
        Some(
            DateTimeUtc {
                year: number_at(s, 0, 4) as u16,
                month: number_at(s, 5, 7) as u8,
                day: number_at(s, 8, 10) as u8,
                hour: number_at(s, 11, 13) as u8,
                minute: number_at(s, 14, 16) as u8,
                second: number_at(s, 17, 19) as u8,
            },
        )
    } else if is_plain_date(s) {
        Some(
            DateTimeUtc {
                year: number_at(s, 0, 4) as u16,
                month: number_at(s, 5, 7) as u8,
                day: number_at(s, 8, 10) as u8,
                hour: 0,
                minute: 0,
                second: 0,
            },
        )
    } else {
        None
    }
}

/// The date of a feed item in the format of RFC 2822: that of the date the
/// text writes, where it writes one that exists.
pub open spec fn feed_date(s: Seq<char>) -> Option<Seq<char>> {
    match written_date(s) {
        Some(d) => if first_error(d) is None {
            Some(rfc2822(d))
        } else {
            None
        },
        None => None,
    }
}

/// Ten to the power of `n`.
pub open spec fn pow10(n: nat) -> nat
    decreases n,
{
    if n == 0 {
        1
    } else {
        10 * pow10((n - 1) as nat)
    }
}

/// Reads the number written by up to four digits.
fn read_number(v: &Vec<char>, from: usize, to: usize) -> (r: Option<u16>)
    requires
        from <= to <= v.len(),
        to - from <= 4,
    ensures
        digits_at(v@, from as int, to as int) ==> r == Some(
            number_at(v@, from as int, to as int) as u16,
        ) && number_at(v@, from as int, to as int) < pow10((to - from) as nat),
        !digits_at(v@, from as int, to as int) ==> r is None,
{
    let ghost part = v@.subrange(from as int, to as int);
    let mut value: u16 = 0;
    let mut i: usize = from;
    assert(part.subrange(0, 0) =~= Seq::<char>::empty());
    reveal_with_fuel(pow10, 5);
    while i < to
        invariant
            from <= i <= to <= v.len(),
            to - from <= 4,
            part == v@.subrange(from as int, to as int),
            digits_at(v@, from as int, i as int),
            value == digits_value(part.subrange(0, i - from)),
            value < pow10((i - from) as nat),
        decreases to - i,
    {
        let c = v[i];
        if !('0' <= c && c <= '9') {
            assert(!is_digit(v@[i as int]));
            return None;
        }
        let d: u16 = (c as u32 - '0' as u32) as u16;
        proof {
            assert(part.subrange(0, i + 1 - from).drop_last() =~= part.subrange(0, i - from));
            assert(part.subrange(0, i + 1 - from).last() == c);
            reveal_with_fuel(pow10, 5);
            assert(pow10((i + 1 - from) as nat) == 10 * pow10((i - from) as nat));
            assert(pow10((i + 1 - from) as nat) <= 10000);
        }
        value = value * 10 + d;
        i = i + 1;
    }
    assert(part.subrange(0, to - from) =~= part);
    Some(value)
}

/// Tells whether `v` holds `c` at index `i`.
fn holds(v: &Vec<char>, i: usize, c: char) -> (b: bool)
    ensures
        b == (i < v.len() && v@[i as int] == c),
{
    i < v.len() && v[i] == c
}

/// Reads the date that a text writes as `YYYY-MM-DD` or as
/// `YYYY-MM-DDTHH:MM:SSZ`.
pub fn read_date(text: &str) -> (r: Option<DateTimeUtc>)
    ensures
        r == written_date(text@),
{
    let v = chars_of(text);
    if v.len() != 10 && v.len() != 20 {
        return None;
    }
    reveal_with_fuel(pow10, 5);
    let year = read_number(&v, 0, 4);
    let month = read_number(&v, 5, 7);
    let day = read_number(&v, 8, 10);
    let dashes = holds(&v, 4, '-') && holds(&v, 7, '-');
    proof {
        let head = v@.subrange(0, 10);
        assert(head.subrange(0, 4) =~= v@.subrange(0, 4));
        assert(head.subrange(5, 7) =~= v@.subrange(5, 7));
        assert(head.subrange(8, 10) =~= v@.subrange(8, 10));
        assert(digits_at(head, 0, 4) <==> digits_at(v@, 0, 4)) by {
            if digits_at(head, 0, 4) {
                assert forall|i: int| 0 <= i < 4 implies is_digit(#[trigger] v@[i]) by {
                    assert(head[i] == v@[i]);
                }
            }
            if digits_at(v@, 0, 4) {
                assert forall|i: int| 0 <= i < 4 implies is_digit(#[trigger] head[i]) by {
                    assert(head[i] == v@[i]);
                }
            }
        }
        assert(digits_at(head, 5, 7) <==> digits_at(v@, 5, 7)) by {
            if digits_at(head, 5, 7) {
                assert forall|i: int| 5 <= i < 7 implies is_digit(#[trigger] v@[i]) by {
                    assert(head[i] == v@[i]);
                }
            }
            if digits_at(v@, 5, 7) {
                assert forall|i: int| 5 <= i < 7 implies is_digit(#[trigger] head[i]) by {
                    assert(head[i] == v@[i]);
                }
            }
        }
        assert(digits_at(head, 8, 10) <==> digits_at(v@, 8, 10)) by {
            if digits_at(head, 8, 10) {
                assert forall|i: int| 8 <= i < 10 implies is_digit(#[trigger] v@[i]) by {
                    assert(head[i] == v@[i]);
                }
            }
            if digits_at(v@, 8, 10) {
                assert forall|i: int| 8 <= i < 10 implies is_digit(#[trigger] head[i]) by {
                    assert(head[i] == v@[i]);
                }
            }
        }
        assert(head[4] == v@[4] && head[7] == v@[7]);
    }
    match (year, month, day) {
        (Some(year), Some(month), Some(day)) => {
            if !dashes {
                return None;
            }
            if v.len() == 10 {
                assert(v@.subrange(0, 10) =~= v@);
                return Some(DateTimeUtc::from_ymd(year, month as u8, day as u8));
            }
            let hour = read_number(&v, 11, 13);
            let minute = read_number(&v, 14, 16);
            let second = read_number(&v, 17, 19);
            let marks = holds(&v, 10, 'T') && holds(&v, 13, ':') && holds(&v, 16, ':') && holds(
                &v,
                19,
                'Z',
            );
            match (hour, minute, second) {
                (Some(hour), Some(minute), Some(second)) => {
                    if marks {
                        Some(
                            DateTimeUtc::new(
                                year,
                                month as u8,
                                day as u8,
                                hour as u8,
                                minute as u8,
                                second as u8,
                            ),
                        )
                    } else {
                        None
                    }
                },
                _ => None,
            }
        },
        _ => None,
    }
}

/// Turns the date of a post into the date of a feed item: none where the
/// post has no date, or one that is not written in a known form or does
/// not exist.
pub fn parse_date(date: Option<String>) -> (r: Option<String>)
    ensures
        match date {
            Some(text) => match feed_date(text@) {
                Some(out) => r is Some && r->0@ == out,
                None => r is None,
            },
            None => r is None,
        },
{
    match date {
        None => None,
        Some(text) => match read_date(text.as_str()) {
            None => None,
            Some(d) => match d.validate() {
                Ok(_) => Some(d.to_rfc2822()),
                Err(_) => None,
            },
        },
    }
}

} // verus!
