//! Week identifier stamps.
//!
//! When a tag is rewritten, its grouping field receives a provenance stamp:
//! the two-digit ISO week-based year followed by the two-digit, zero-padded
//! ISO week number — week 50 of an ISO year ending in 25 stamps as `"2550"`.
//! The stamp is write-only provenance, never parsed back.

use vstd::prelude::*;
use vstd::string::*;

use crate::is_digit;

verus! {

/// The character for one decimal digit value.
pub open spec fn digit_char(d: int) -> char {
    if d == 0 {
        '0'
    } else if d == 1 {
        '1'
    } else if d == 2 {
        '2'
    } else if d == 3 {
        '3'
    } else if d == 4 {
        '4'
    } else if d == 5 {
        '5'
    } else if d == 6 {
        '6'
    } else if d == 7 {
        '7'
    } else if d == 8 {
        '8'
    } else {
        '9'
    }
}

/// The four characters of a week stamp: the year reduced to its last two
/// digits, then the zero-padded week number.
pub open spec fn week_stamp(year: int, week: int) -> Seq<char> {
    let y = year % 100;
    seq![digit_char(y / 10), digit_char(y % 10), digit_char(week / 10), digit_char(week % 10)]
}

/// For digit values, `digit_char` really produces a digit character.
pub proof fn lemma_digit_char_is_digit(d: int)
    requires
        0 <= d <= 9,
    ensures
        is_digit(digit_char(d)),
{
}

/// The one-character string for a digit value.
fn digit_str(d: u64) -> (r: &'static str)
    requires
        d <= 9,
    ensures
        r@ == seq![digit_char(d as int)],
{
    proof {
        reveal_strlit("0");
        reveal_strlit("1");
        reveal_strlit("2");
        reveal_strlit("3");
        reveal_strlit("4");
        reveal_strlit("5");
        reveal_strlit("6");
        reveal_strlit("7");
        reveal_strlit("8");
        reveal_strlit("9");
    }
    let r = if d == 0 {
        "0"
    } else if d == 1 {
        "1"
    } else if d == 2 {
        "2"
    } else if d == 3 {
        "3"
    } else if d == 4 {
        "4"
    } else if d == 5 {
        "5"
    } else if d == 6 {
        "6"
    } else if d == 7 {
        "7"
    } else if d == 8 {
        "8"
    } else {
        "9"
    };
    proof {
        assert(r@ =~= seq![digit_char(d as int)]);
    }
    r
}

/// Formats the week stamp for a given ISO week-based year and week number.
pub fn week_label(year: u64, week: u64) -> (r: String)
    requires
        week <= 99,
    ensures
        r@ == week_stamp(year as int, week as int),
        r@.len() == 4,
        forall|i: int| 0 <= i < 4 ==> is_digit(#[trigger] r@[i]),
{
    let y = year % 100;
    let mut s = String::new();
    s.append(digit_str(y / 10));
    s.append(digit_str(y % 10));
    s.append(digit_str(week / 10));
    s.append(digit_str(week % 10));
    proof {
        assert(s@ =~= week_stamp(year as int, week as int));
        lemma_digit_char_is_digit((year as int % 100) / 10);
        lemma_digit_char_is_digit((year as int % 100) % 10);
        lemma_digit_char_is_digit(week as int / 10);
        lemma_digit_char_is_digit(week as int % 10);
    }
    s
}

/// Relies on chrono's `Local::now`, `NaiveDateTime::date` and
/// `Datelike::iso_week` for the current date's ISO week: `IsoWeek::week`
/// returns the week number starting from 1, ranging from 1 to 53, and
/// `IsoWeek::year` the ISO week-based year. Nothing more is relied on — the
/// result depends on the clock. Note that chrono's `Utc::now` expects the
/// system clock not to predate the Unix epoch; on such a clock this call
/// panics inside chrono.
#[verifier::external_body]
fn current_iso_week() -> (r: (i32, u32))
    ensures
        1 <= r.1 <= 53,
{
    let today = chrono::Local::now().date_naive();
    let week = chrono::Datelike::iso_week(&today);
    (week.year(), week.week())
}

/// The week stamp for today, read from the system clock: always the stamp
/// of some non-negative year and some week in 1..=53, hence four digit
/// characters. An ISO year before the common era (which the clock of a
/// running system does not produce) stamps as year `00`.
pub fn year_week() -> (r: String)
    ensures
        r@.len() == 4,
        forall|i: int| 0 <= i < 4 ==> is_digit(#[trigger] r@[i]),
        exists|y: int, w: int| y >= 0 && 1 <= w <= 53 && r@ == week_stamp(y, w),
{
    let (year, week) = current_iso_week();
    let y: u64 = if year >= 0 {
        year as u64
    } else {
        0
    };
    let r = week_label(y, week as u64);
    proof {
        assert(y >= 0 && 1 <= week as int <= 53 && r@ == week_stamp(y as int, week as int));
    }
    r
}

} // verus!
