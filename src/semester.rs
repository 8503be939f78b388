//! Semester codes (`YYYYT`) and their human labels.

use chrono::Datelike;
use vstd::prelude::*;

verus! {

/// Largest year whose semester code still fits in a `u32`.
pub const MAX_CODE_YEAR: i32 = 429_496_728;

/// Term digit of a calendar month: 1 (Winter) for January to April,
/// 2 (Summer) for May to August, 3 (Fall) for September to December.
pub open spec fn term_of_month(month: int) -> int {
    if month <= 4 {
        1
    } else if month <= 8 {
        2
    } else {
        3
    }
}

/// The semester code of a year and month: `year * 10 + term`.
pub open spec fn semester_code_spec(year: int, month: int) -> int {
    year * 10 + term_of_month(month)
}

/// Decimal digit `d` as a character.
pub open spec fn digit_char(d: int) -> char {
    seq!['0', '1', '2', '3', '4', '5', '6', '7', '8', '9'][d]
}

/// Decimal notation of a natural number, without leading zeros.
pub open spec fn decimal(n: nat) -> Seq<char>
    decreases n,
{
    if n < 10 {
        seq![digit_char(n as int)]
    } else {
        decimal(n / 10) + seq![digit_char((n % 10) as int)]
    }
}

/// The display label of a semester code: a five-digit code whose last digit
/// is 1, 2 or 3 reads as the term's name and the year; anything else is shown
/// as the code's decimal notation.
pub open spec fn semester_label(code: nat) -> Seq<char> {
    if 10000 <= code <= 99999 {
        let year = decimal(code / 10);
        let term = code % 10;
        if term == 1 {
            "Hiver "@ + year
        } else if term == 2 {
            "Été "@ + year
        } else if term == 3 {
            "Automne "@ + year
        } else {
            decimal(code)
        }
    } else {
        decimal(code)
    }
}

/// A decimal rendering is never empty.
pub proof fn lemma_decimal_nonempty(n: nat)
    ensures
        decimal(n).len() >= 1,
{
    if n >= 10 {
        assert(decimal(n) == decimal(n / 10) + seq![digit_char((n % 10) as int)]);
    }
}

/// For every date of a year from 0 on, the semester code's last digit is a
/// term (1, 2 or 3) and the digits before it are the year.
pub proof fn lemma_semester_code_digits(year: int, month: int)
    requires
        0 <= year,
        1 <= month <= 12,
    ensures
        1 <= semester_code_spec(year, month) % 10 <= 3,
        semester_code_spec(year, month) / 10 == year,
{
}

/// A five-digit code always gets a non-empty label; any other code is shown
/// as its own decimal notation.
pub proof fn lemma_semester_label_total(code: nat)
    ensures
        10000 <= code <= 99999 ==> semester_label(code).len() > 0,
        !(10000 <= code <= 99999) ==> semester_label(code) == decimal(code),
{
    lemma_decimal_nonempty(code);
    lemma_decimal_nonempty(code / 10);
}

/// The semester code of a date given as year and month.
pub fn semester_code_for(year: i32, month: u32) -> (r: u32)
    requires
        0 <= year <= MAX_CODE_YEAR,
        1 <= month <= 12,
    ensures
        r == semester_code_spec(year as int, month as int),
        1 <= r % 10 <= 3,
        r / 10 == year,
{
    let term: u32 = if month <= 4 {
        1
    } else if month <= 8 {
        2
    } else {
        3
    };
    (year as u32) * 10 + term
}

/// Relies on chrono's `Local::now` with `Datelike::year` and `Datelike::month`:
/// today's calendar year and month in the local time zone; chrono documents
/// the month as ranging from 1 to 12.
#[verifier::external_body]
fn local_year_month() -> (r: (i32, u32))
    ensures
        1 <= r.1 <= 12,
{
    let now = chrono::Local::now();
    (now.year(), now.month())
}

/// The semester code of a date given as year and month, or `None` when the
/// year has no code (before 0 or past `MAX_CODE_YEAR`).
pub fn semester_code_of(year: i32, month: u32) -> (r: Option<u32>)
    requires
        1 <= month <= 12,
    ensures
        r == if 0 <= year <= MAX_CODE_YEAR {
            Some(semester_code_spec(year as int, month as int) as u32)
        } else {
            None::<u32>
        },
        r matches Some(c) ==> 1 <= c % 10 <= 3 && c / 10 == year,
{
    if 0 <= year && year <= MAX_CODE_YEAR {
        Some(semester_code_for(year, month))
    } else {
        None
    }
}

/// The semester code of today's date in the local time zone, or `None` when
/// today's year has no code.
pub fn get_current_semester_code() -> (r: Option<u32>)
    ensures
        r matches Some(c) ==> 1 <= c % 10 <= 3,
{
    let (year, month) = local_year_month();
    semester_code_of(year, month)
}

/// The decimal digit `d` as a one-character string.
pub(crate) fn digit_str(d: u32) -> (r: &'static str)
    requires
        d < 10,
    ensures
        r@ == seq![digit_char(d as int)],
{
    proof {
        reveal_strlit("0");
        reveal_strlit("1");
        reveal_strlit("2");
        reveal_strlit("3");
        reveal_strlit("4");
        reveal_strlit("5");
        reveal_strlit("6");
        reveal_strlit("7");
        reveal_strlit("8");
        reveal_strlit("9");
    }
    match d {
        0 => "0",
        1 => "1",
        2 => "2",
        3 => "3",
        4 => "4",
        5 => "5",
        6 => "6",
        7 => "7",
        8 => "8",
        _ => "9",
    }
}

/// The decimal notation of `n`.
pub fn decimal_string(n: u64) -> (r: String)
    ensures
        r@ == decimal(n as nat),
    decreases n,
{
    if n < 10 {
        String::from_str(digit_str(n as u32))
    } else {
        let mut s = decimal_string(n / 10);
        s.append(digit_str((n % 10) as u32));
        s
    }
}

/// The display label of a semester code; malformed codes come back as their
/// decimal notation.
pub fn format_semester_name(code: u32) -> (r: String)
    ensures
        r@ == semester_label(code as nat),
        10000 <= code <= 99999 ==> r@.len() > 0,
        !(10000 <= code <= 99999) ==> r@ == decimal(code as nat),
{
    proof {
        lemma_decimal_nonempty(code as nat);
        lemma_decimal_nonempty((code / 10) as nat);
    }
    if 10000 <= code && code <= 99999 {
        let term = code % 10;
        if term == 1 {
            String::from_str("Hiver ").concat(decimal_string((code / 10) as u64).as_str())
        } else if term == 2 {
            String::from_str("Été ").concat(decimal_string((code / 10) as u64).as_str())
        } else if term == 3 {
            String::from_str("Automne ").concat(decimal_string((code / 10) as u64).as_str())
        } else {
            decimal_string(code as u64)
        }
    } else {
        decimal_string(code as u64)
    }
}

} // verus!
