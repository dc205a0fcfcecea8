//! Calendar dates carried as plain values, with their ISO 8601 wire form.
//!
//! A [`NaiveDateWrapper`] holds year, month and day directly, with the
//! Gregorian validity rule as its invariant. Its wire form is the ISO 8601
//! date string `YYYY-MM-DD`; formatting and parsing are verified exact
//! inverses. The host glue converts between this type and whatever date
//! type its serializer wants.

use vstd::prelude::*;
use vstd::string::{StrSliceExecFns, StringExecFns};

verus! {

/// A calendar date: year `0..=9999`, month and day within the Gregorian
/// rules.
#[derive(Clone, Copy, Debug, PartialEq, Eq, Hash, Structural)]
pub struct NaiveDateWrapper {
    pub year: u16,
    pub month: u8,
    pub day: u8,
}

/// The Gregorian leap-year rule.
pub open spec fn is_leap_year(y: int) -> bool {
    y % 4 == 0 && (y % 100 != 0 || y % 400 == 0)
}

/// Days in a month of the proleptic Gregorian calendar.
pub open spec fn days_in_month(y: int, m: int) -> int {
    if m == 2 {
        if is_leap_year(y) {
            29
        } else {
            28
        }
    } else if m == 4 || m == 6 || m == 9 || m == 11 {
        30
    } else {
        31
    }
}

/// The decimal digit character for `n` in `0..=9`.
pub open spec fn digit_char(n: int) -> char {
    if n == 0 {
        '0'
    } else if n == 1 {
        '1'
    } else if n == 2 {
        '2'
    } else if n == 3 {
        '3'
    } else if n == 4 {
        '4'
    } else if n == 5 {
        '5'
    } else if n == 6 {
        '6'
    } else if n == 7 {
        '7'
    } else if n == 8 {
        '8'
    } else {
        '9'
    }
}

/// The value of a decimal digit character; `10` marks every other
/// character.
pub open spec fn digit_value(c: char) -> int {
    if c == '0' {
        0
    } else if c == '1' {
        1
    } else if c == '2' {
        2
    } else if c == '3' {
        3
    } else if c == '4' {
        4
    } else if c == '5' {
        5
    } else if c == '6' {
        6
    } else if c == '7' {
        7
    } else if c == '8' {
        8
    } else if c == '9' {
        9
    } else {
        10
    }
}

/// The ISO 8601 form of a date: four year digits, two month digits, two
/// day digits, hyphen-separated.
pub open spec fn iso_date_seq(y: int, m: int, d: int) -> Seq<char> {
    seq![
        digit_char(y / 1000 % 10),
        digit_char(y / 100 % 10),
        digit_char(y / 10 % 10),
        digit_char(y % 10),
        '-',
        digit_char(m / 10),
        digit_char(m % 10),
        '-',
        digit_char(d / 10),
        digit_char(d % 10),
    ]
}

/// What parsing an ISO 8601 date string yields: the three numbers, if and
/// only if the text is ten characters of digits and hyphens in the right
/// positions naming a valid date.
pub open spec fn parse_iso_spec(s: Seq<char>) -> Option<(int, int, int)> {
    if s.len() == 10 && s[4] == '-' && s[7] == '-' && digit_value(s[0]) < 10 && digit_value(s[1])
        < 10 && digit_value(s[2]) < 10 && digit_value(s[3]) < 10 && digit_value(s[5]) < 10
        && digit_value(s[6]) < 10 && digit_value(s[8]) < 10 && digit_value(s[9]) < 10 {
        let y = digit_value(s[0]) * 1000 + digit_value(s[1]) * 100 + digit_value(s[2]) * 10
            + digit_value(s[3]);
        let m = digit_value(s[5]) * 10 + digit_value(s[6]);
        let d = digit_value(s[8]) * 10 + digit_value(s[9]);
        if 1 <= m <= 12 && 1 <= d <= days_in_month(y, m) {
            Some((y, m, d))
        } else {
            None
        }
    } else {
        None
    }
}

/// The single decimal digit `n` as a string slice.
fn digit_str(n: u16) -> (r: &'static str)
    requires
        n <= 9,
    ensures
        r@ == seq![digit_char(n as int)],
{
    match n {
        0 => {
            proof {
                reveal_strlit("0");
                assert("0"@ =~= seq![digit_char(0)]);
            }
            "0"
        },
        1 => {
            proof {
                reveal_strlit("1");
                assert("1"@ =~= seq![digit_char(1)]);
            }
            "1"
        },
        2 => {
            proof {
                reveal_strlit("2");
                assert("2"@ =~= seq![digit_char(2)]);
            }
            "2"
        },
        3 => {
            proof {
                reveal_strlit("3");
                assert("3"@ =~= seq![digit_char(3)]);
            }
            "3"
        },
        4 => {
            proof {
                reveal_strlit("4");
                assert("4"@ =~= seq![digit_char(4)]);
            }
            "4"
        },
        5 => {
            proof {
                reveal_strlit("5");
                assert("5"@ =~= seq![digit_char(5)]);
            }
            "5"
        },
        6 => {
            proof {
                reveal_strlit("6");
                assert("6"@ =~= seq![digit_char(6)]);
            }
            "6"
        },
        7 => {
            proof {
                reveal_strlit("7");
                assert("7"@ =~= seq![digit_char(7)]);
            }
            "7"
        },
        8 => {
            proof {
                reveal_strlit("8");
                assert("8"@ =~= seq![digit_char(8)]);
            }
            "8"
        },
        _ => {
            proof {
                reveal_strlit("9");
                assert("9"@ =~= seq![digit_char(9)]);
            }
            "9"
        },
    }
}

/// The value of a decimal digit character; `10` for every other character.
fn digit_of(c: char) -> (r: u8)
    ensures
        r as int == digit_value(c),
{
    match c {
        '0' => 0,
        '1' => 1,
        '2' => 2,
        '3' => 3,
        '4' => 4,
        '5' => 5,
        '6' => 6,
        '7' => 7,
        '8' => 8,
        '9' => 9,
        _ => 10,
    }
}

/// Days in a month of the proleptic Gregorian calendar.
pub fn days_in_month_of(year: u16, month: u8) -> (r: u8)
    requires
        1 <= month <= 12,
    ensures
        r as int == days_in_month(year as int, month as int),
{
    if month == 2 {
        if year % 4 == 0 && (year % 100 != 0 || year % 400 == 0) {
            29
        } else {
            28
        }
    } else if month == 4 || month == 6 || month == 9 || month == 11 {
        30
    } else {
        31
    }
}

impl NaiveDateWrapper {
    /// The date names a real day: year within `0..=9999` and month and day
    /// within the Gregorian rules.
    pub open spec fn valid(self) -> bool {
        &&& self.year <= 9999
        &&& 1 <= self.month <= 12
        &&& 1 <= self.day <= days_in_month(self.year as int, self.month as int)
    }

    /// The date `year-month-day`, if those numbers name a real day.
    pub fn new(year: u16, month: u8, day: u8) -> (r: Option<NaiveDateWrapper>)
        ensures
            r == (if (NaiveDateWrapper { year, month, day }).valid() {
                Some(NaiveDateWrapper { year, month, day })
            } else {
                None::<NaiveDateWrapper>
            }),
    {
        if year > 9999 || month < 1 || month > 12 || day < 1 {
            return None;
        }
        if day > days_in_month_of(year, month) {
            return None;
        }
        Some(NaiveDateWrapper { year, month, day })
    }

    /// The ISO 8601 form `YYYY-MM-DD` of this date.
    pub fn to_iso_string(&self) -> (r: String)
        requires
            self.valid(),
        ensures
            r@ == iso_date_seq(self.year as int, self.month as int, self.day as int),
    {
        let y = self.year;
        let m = self.month;
        let d = self.day;
        let mut s = String::new();
        s.append(digit_str(y / 1000));
        s.append(digit_str(y / 100 % 10));
        s.append(digit_str(y / 10 % 10));
        s.append(digit_str(y % 10));
        s.append("-");
        s.append(digit_str((m / 10) as u16));
        s.append(digit_str((m % 10) as u16));
        s.append("-");
        s.append(digit_str((d / 10) as u16));
        s.append(digit_str((d % 10) as u16));
        proof {
            reveal_strlit("-");
            assert(s@ =~= iso_date_seq(self.year as int, self.month as int, self.day as int));
        }
        s
    }

    /// Parse an ISO 8601 date string. Returns the date exactly when
    /// [`parse_iso_spec`] accepts the text.
    pub fn parse_iso(s: &str) -> (r: Option<NaiveDateWrapper>)
        ensures
            (r matches Some(w) ==> w.valid() && parse_iso_spec(s@) == Some(
                (w.year as int, w.month as int, w.day as int),
            )),
            r is None ==> parse_iso_spec(s@) is None,
    {
        let n = s.unicode_len();
        if n != 10 {
            return None;
        }
        proof {
            reveal_strlit("-");
        }
        if s.get_char(4) != '-' || s.get_char(7) != '-' {
            return None;
        }
        let d0 = digit_of(s.get_char(0));
        let d1 = digit_of(s.get_char(1));
        let d2 = digit_of(s.get_char(2));
        let d3 = digit_of(s.get_char(3));
        let d5 = digit_of(s.get_char(5));
        let d6 = digit_of(s.get_char(6));
        let d8 = digit_of(s.get_char(8));
        let d9 = digit_of(s.get_char(9));
        if d0 > 9 || d1 > 9 || d2 > 9 || d3 > 9 || d5 > 9 || d6 > 9 || d8 > 9 || d9 > 9 {
            return None;
        }
        let year: u16 = (d0 as u16) * 1000 + (d1 as u16) * 100 + (d2 as u16) * 10 + (d3 as u16);
        let month: u8 = d5 * 10 + d6;
        let day: u8 = d8 * 10 + d9;
        if month < 1 || month > 12 || day < 1 {
            return None;
        }
        if day > days_in_month_of(year, month) {
            return None;
        }
        Some(NaiveDateWrapper { year, month, day })
    }
}

/// Formatting a valid date and parsing the text back yields the same date:
/// the ISO form is a faithful wire format.
pub proof fn lemma_iso_round_trip(w: NaiveDateWrapper)
    requires
        w.valid(),
    ensures
        parse_iso_spec(iso_date_seq(w.year as int, w.month as int, w.day as int)) == Some(
            (w.year as int, w.month as int, w.day as int),
        ),
{
    let y = w.year as int;
    let m = w.month as int;
    let d = w.day as int;
    let s = iso_date_seq(y, m, d);
    assert(0 <= y / 1000 % 10 <= 9);
    assert(0 <= y / 100 % 10 <= 9);
    assert(0 <= y / 10 % 10 <= 9);
    assert(0 <= y % 10 <= 9);
    assert(digit_value(s[0]) == y / 1000 % 10);
    assert(digit_value(s[1]) == y / 100 % 10);
    assert(digit_value(s[2]) == y / 10 % 10);
    assert(digit_value(s[3]) == y % 10);
    assert(digit_value(s[5]) == m / 10);
    assert(digit_value(s[6]) == m % 10);
    assert(digit_value(s[8]) == d / 10);
    assert(digit_value(s[9]) == d % 10);
    lemma_four_digits(y);
    lemma_two_digits(m);
    lemma_two_digits(d);
}

/// A number below ten thousand is the value of its four decimal digits.
proof fn lemma_four_digits(y: int)
    requires
        0 <= y <= 9999,
    ensures
        (y / 1000 % 10) * 1000 + (y / 100 % 10) * 100 + (y / 10 % 10) * 10 + y % 10 == y,
{
    assert((y / 1000 % 10) * 1000 + (y / 100 % 10) * 100 + (y / 10 % 10) * 10 + y % 10 == y)
        by (nonlinear_arith)
        requires
            0 <= y <= 9999,
    ;
}

/// A number below one hundred is the value of its two decimal digits.
proof fn lemma_two_digits(m: int)
    requires
        0 <= m <= 99,
    ensures
        (m / 10) * 10 + m % 10 == m,
{
    assert((m / 10) * 10 + m % 10 == m) by (nonlinear_arith)
        requires
            0 <= m <= 99,
    ;
}

} // verus!
