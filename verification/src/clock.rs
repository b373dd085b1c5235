//! Wall-clock timestamps and their rendering.
//!
//! A node's "last seen" moment is shown in notification text as
//! `DD-Mon-YYYY HH:MM`.  The calendar fields are plain integers; only the
//! reading of the system clock goes through an outside crate.

use vstd::prelude::*;
use vstd::string::StringExecFns;
use chrono::{Datelike, Timelike};

verus! {

/// A wall-clock timestamp, broken into calendar fields.  It is used only to
/// render the human-readable "last seen" moment in notification text; the
/// threshold arithmetic runs on monotonic milliseconds instead.
#[derive(Clone, Copy, Debug)]
pub struct WallClock {
    pub year: u32,
    pub month: u8,
    pub day: u8,
    pub hour: u8,
    pub minute: u8,
}

/// `v` forced into the closed interval `[lo, hi]`.
pub open spec fn clamped(v: int, lo: int, hi: int) -> int {
    if v < lo {
        lo
    } else if v > hi {
        hi
    } else {
        v
    }
}

/// The character for one decimal digit.
pub open spec fn digit_char(d: int) -> char {
    if d == 0 {
        '0'
    } else if d == 1 {
        '1'
    } else if d == 2 {
        '2'
    } else if d == 3 {
        '3'
    } else if d == 4 {
        '4'
    } else if d == 5 {
        '5'
    } else if d == 6 {
        '6'
    } else if d == 7 {
        '7'
    } else if d == 8 {
        '8'
    } else {
        '9'
    }
}

/// The decimal digits of `n`, most significant first, no leading zeros.
pub open spec fn dec_digits(n: int) -> Seq<char>
    decreases n,
{
    if n < 10 {
        seq![digit_char(n)]
    } else {
        dec_digits(n / 10).push(digit_char(n % 10))
    }
}

/// Two decimal digits, zero-padded, for `0 <= n < 100`.
pub open spec fn two_digit_text(n: int) -> Seq<char> {
    seq![digit_char(n / 10), digit_char(n % 10)]
}

/// The decimal digits of a year, zero-padded to at least four places.
pub open spec fn year_text(y: int) -> Seq<char> {
    if y < 10 {
        seq!['0', '0', '0'] + dec_digits(y)
    } else if y < 100 {
        seq!['0', '0'] + dec_digits(y)
    } else if y < 1000 {
        seq!['0'] + dec_digits(y)
    } else {
        dec_digits(y)
    }
}

/// The three-letter month abbreviation for `1 <= m <= 12`.
pub open spec fn month_text(m: int) -> Seq<char> {
    if m == 1 {
        "Jan"@
    } else if m == 2 {
        "Feb"@
    } else if m == 3 {
        "Mar"@
    } else if m == 4 {
        "Apr"@
    } else if m == 5 {
        "May"@
    } else if m == 6 {
        "Jun"@
    } else if m == 7 {
        "Jul"@
    } else if m == 8 {
        "Aug"@
    } else if m == 9 {
        "Sep"@
    } else if m == 10 {
        "Oct"@
    } else if m == 11 {
        "Nov"@
    } else {
        "Dec"@
    }
}

/// The full `DD-Mon-YYYY HH:MM` rendering of a timestamp.
pub open spec fn timestamp_text(w: WallClock) -> Seq<char> {
    two_digit_text(w.day as int) + "-"@ + month_text(w.month as int) + "-"@ + year_text(
        w.year as int,
    ) + " "@ + two_digit_text(w.hour as int) + ":"@ + two_digit_text(w.minute as int)
}

/// One decimal digit as a string slice.
fn digit_str(d: u32) -> (r: &'static str)
    requires
        d < 10,
    ensures
        r@ == seq![digit_char(d as int)],
{
    let r: &'static str = if d == 0 {
        "0"
    } else if d == 1 {
        "1"
    } else if d == 2 {
        "2"
    } else if d == 3 {
        "3"
    } else if d == 4 {
        "4"
    } else if d == 5 {
        "5"
    } else if d == 6 {
        "6"
    } else if d == 7 {
        "7"
    } else if d == 8 {
        "8"
    } else {
        "9"
    };
    proof {
        reveal_strlit("0");
        reveal_strlit("1");
        reveal_strlit("2");
        reveal_strlit("3");
        reveal_strlit("4");
        reveal_strlit("5");
        reveal_strlit("6");
        reveal_strlit("7");
        reveal_strlit("8");
        reveal_strlit("9");
        assert(r@ =~= seq![digit_char(d as int)]);
    }
    r
}

/// The decimal rendering of `n`, without padding.
pub fn format_u32(n: u32) -> (r: String)
    ensures
        r@ == dec_digits(n as int),
    decreases n,
{
    if n < 10 {
        let r = String::from_str(digit_str(n));
        proof {
            assert(r@ =~= dec_digits(n as int));
        }
        r
    } else {
        let prefix = format_u32(n / 10);
        let r = prefix.concat(digit_str(n % 10));
        proof {
            assert(r@ =~= dec_digits(n as int));
        }
        r
    }
}

/// Two zero-padded decimal digits.
fn two_digit(n: u8) -> (r: String)
    requires
        n < 100,
    ensures
        r@ == two_digit_text(n as int),
{
    let r = String::from_str(digit_str((n / 10) as u32)).concat(digit_str((n % 10) as u32));
    proof {
        assert(r@ =~= two_digit_text(n as int));
    }
    r
}

/// A year, zero-padded to at least four decimal places.
fn format_year(y: u32) -> (r: String)
    ensures
        r@ == year_text(y as int),
{
    let digits = format_u32(y);
    if y < 10 {
        let r = String::from_str("000").concat(digits.as_str());
        proof {
            reveal_strlit("000");
            assert(r@ =~= year_text(y as int));
        }
        r
    } else if y < 100 {
        let r = String::from_str("00").concat(digits.as_str());
        proof {
            reveal_strlit("00");
            assert(r@ =~= year_text(y as int));
        }
        r
    } else if y < 1000 {
        let r = String::from_str("0").concat(digits.as_str());
        proof {
            reveal_strlit("0");
            assert(r@ =~= year_text(y as int));
        }
        r
    } else {
        digits
    }
}

/// The three-letter month abbreviation.
fn month_str(m: u8) -> (r: &'static str)
    requires
        1 <= m <= 12,
    ensures
        r@ == month_text(m as int),
{
    if m == 1 {
        "Jan"
    } else if m == 2 {
        "Feb"
    } else if m == 3 {
        "Mar"
    } else if m == 4 {
        "Apr"
    } else if m == 5 {
        "May"
    } else if m == 6 {
        "Jun"
    } else if m == 7 {
        "Jul"
    } else if m == 8 {
        "Aug"
    } else if m == 9 {
        "Sep"
    } else if m == 10 {
        "Oct"
    } else if m == 11 {
        "Nov"
    } else {
        "Dec"
    }
}

impl WallClock {
    /// Calendar fields are within their ranges.
    pub open spec fn wf(self) -> bool {
        &&& 1 <= self.month <= 12
        &&& 1 <= self.day <= 31
        &&& self.hour < 24
        &&& self.minute < 60
    }

    /// Builds a well-formed timestamp from raw clock readings, forcing each
    /// field into its calendar range (a negative year is pinned to zero).
    pub fn from_parts(year: i32, month: u8, day: u8, hour: u8, minute: u8) -> (r: WallClock)
        ensures
            r.wf(),
            r.year as int == clamped(year as int, 0, u32::MAX as int),
            r.month as int == clamped(month as int, 1, 12),
            r.day as int == clamped(day as int, 1, 31),
            r.hour as int == clamped(hour as int, 0, 23),
            r.minute as int == clamped(minute as int, 0, 59),
    {
        WallClock {
            year: if year < 0 {
                0u32
            } else {
                year as u32
            },
            month: if month < 1 {
                1u8
            } else if month > 12 {
                12u8
            } else {
                month
            },
            day: if day < 1 {
                1u8
            } else if day > 31 {
                31u8
            } else {
                day
            },
            hour: if hour > 23 {
                23u8
            } else {
                hour
            },
            minute: if minute > 59 {
                59u8
            } else {
                minute
            },
        }
    }

    /// Renders the timestamp as `DD-Mon-YYYY HH:MM`.
    pub fn format_timestamp(&self) -> (r: String)
        requires
            self.wf(),
        ensures
            r@ == timestamp_text(*self),
    {
        let r = two_digit(self.day)
            .concat("-")
            .concat(month_str(self.month))
            .concat("-")
            .concat(format_year(self.year).as_str())
            .concat(" ")
            .concat(two_digit(self.hour).as_str())
            .concat(":")
            .concat(two_digit(self.minute).as_str());
        proof {
            assert(r@ =~= timestamp_text(*self));
        }
        r
    }
}

/// Relies on `chrono::Local::now` and chrono's `Datelike`/`Timelike`
/// accessors for the current local calendar time: `month()` returns 1 to 12,
/// `day()` 1 to 31, `hour()` 0 to 23 and `minute()` 0 to 59.
#[verifier::external_body]
fn local_now_parts() -> (r: (i32, u8, u8, u8, u8))
    ensures
        1 <= r.1 <= 12,
        1 <= r.2 <= 31,
        r.3 < 24,
        r.4 < 60,
{
    let t = chrono::Local::now();
    (t.year(), t.month() as u8, t.day() as u8, t.hour() as u8, t.minute() as u8)
}

/// Reads the local wall clock, for use in notification text.
pub fn wall_now() -> (r: WallClock)
    ensures
        r.wf(),
{
    let (year, month, day, hour, minute) = local_now_parts();
    WallClock::from_parts(year, month, day, hour, minute)
}

} // verus!
