//! Archive names: `<folder name>_<YYYY-MM-DD_HHMMSS>.zip`.

use vstd::prelude::*;

use crate::paths::path_file_name;
use crate::text::{
    decimal, decimal_string, lemma_decimal_injective, lemma_decimal_len, lemma_padded_injective,
    lemma_padded_len, lemma_padded_starts_with_digit, padded, pow10, push_char, push_padded,
    push_str,
};

verus! {

/// Whether `year` is a leap year in the proleptic Gregorian calendar, where
/// year 0 is 1 BC (divisibility does not depend on the sign of the year).
pub open spec fn is_leap_year(year: int) -> bool {
    let a = if year < 0 {
        -year
    } else {
        year
    };
    a % 4 == 0 && (a % 100 != 0 || a % 400 == 0)
}

/// Number of days in `month` (1..=12) of `year`.
pub open spec fn days_in_month(year: int, month: nat) -> nat {
    if month == 2 {
        if is_leap_year(year) {
            29
        } else {
            28
        }
    } else if month == 4 || month == 6 || month == 9 || month == 11 {
        30
    } else {
        31
    }
}

/// A local wall-clock time to the second.
#[derive(Debug, Clone, Copy)]
pub struct Timestamp {
    year: i32,
    month: u32,
    day: u32,
    hour: u32,
    minute: u32,
    second: u32,
}

impl Timestamp {
    /// The fields name a real calendar date and time of day.
    #[verifier::type_invariant]
    pub closed spec fn valid(self) -> bool {
        &&& 1 <= self.month <= 12
        &&& 1 <= self.day <= days_in_month(self.year as int, self.month as nat)
        &&& self.hour < 24
        &&& self.minute < 60
        &&& self.second < 60
    }

    pub closed spec fn spec_year(self) -> int {
        self.year as int
    }

    pub closed spec fn spec_month(self) -> nat {
        self.month as nat
    }

    pub closed spec fn spec_day(self) -> nat {
        self.day as nat
    }

    pub closed spec fn spec_hour(self) -> nat {
        self.hour as nat
    }

    pub closed spec fn spec_minute(self) -> nat {
        self.minute as nat
    }

    pub closed spec fn spec_second(self) -> nat {
        self.second as nat
    }

    /// Every timestamp names a real calendar date and time of day.
    pub fn check_calendar(&self)
        ensures
            in_calendar(*self),
    {
        proof {
            use_type_invariant(self);
        }
    }

    /// The time `year-month-day hour:minute:second`, if that is a real date
    /// and time of day.
    pub fn new(year: i32, month: u32, day: u32, hour: u32, minute: u32, second: u32) -> (r:
        Option<Timestamp>)
        ensures
            r is Some <==> {
                &&& 1 <= month <= 12
                &&& 1 <= day <= days_in_month(year as int, month as nat)
                &&& hour < 24
                &&& minute < 60
                &&& second < 60
            },
            r matches Some(t) ==> {
                &&& t.spec_year() == year
                &&& t.spec_month() == month
                &&& t.spec_day() == day
                &&& t.spec_hour() == hour
                &&& t.spec_minute() == minute
                &&& t.spec_second() == second
            },
    {
        if month < 1 || month > 12 || hour >= 24 || minute >= 60 || second >= 60 {
            return None;
        }
        let a: u64 = if year < 0 {
            (0i64 - year as i64) as u64
        } else {
            year as u64
        };
        let leap = a % 4 == 0 && (a % 100 != 0 || a % 400 == 0);
        let days: u32 = if month == 2 {
            if leap {
                29
            } else {
                28
            }
        } else if month == 4 || month == 6 || month == 9 || month == 11 {
            30
        } else {
            31
        };
        if day < 1 || day > days {
            return None;
        }
        Some(Timestamp { year, month, day, hour, minute, second })
    }
}

/// The digits of a year's magnitude: at least four, zero padded.
pub open spec fn year_digits(n: nat) -> Seq<char> {
    if n < 10000 {
        padded(n, 4)
    } else {
        decimal(n)
    }
}

/// The year as the calendar writes it (`%Y`): four digits, zero padded, for
/// the years 0 to 9999; any other year with its sign (`+` or `-`) before at
/// least four digits.
pub open spec fn year_text(year: int) -> Seq<char> {
    if 0 <= year <= 9999 {
        padded(year as nat, 4)
    } else if year > 9999 {
        seq!['+'] + decimal(year as nat)
    } else {
        seq!['-'] + year_digits((-year) as nat)
    }
}

/// The part of the timestamp after the year: `-MM-DD_HHMMSS`.
pub open spec fn clock_text(t: Timestamp) -> Seq<char> {
    seq!['-'] + padded(t.spec_month(), 2) + seq!['-'] + padded(t.spec_day(), 2) + seq!['_']
        + padded(t.spec_hour(), 2) + padded(t.spec_minute(), 2) + padded(t.spec_second(), 2)
}

/// The timestamp as `YYYY-MM-DD_HHMMSS`.
pub open spec fn stamp_text(t: Timestamp) -> Seq<char> {
    year_text(t.spec_year()) + clock_text(t)
}

/// Appends the year as [`year_text`] writes it.
fn push_year(s: &mut String, year: i32)
    ensures
        final(s)@ == old(s)@ + year_text(year as int),
{
    if 0 <= year && year <= 9999 {
        push_padded(s, year as u64, 4);
    } else if year > 9999 {
        push_char(s, '+');
        let d = decimal_string(year as u64);
        push_str(s, d.as_str());
        assert(final(s)@ =~= old(s)@ + year_text(year as int));
    } else {
        push_char(s, '-');
        let a: u64 = (0i64 - year as i64) as u64;
        if a < 10000 {
            push_padded(s, a, 4);
        } else {
            let d = decimal_string(a);
            push_str(s, d.as_str());
        }
        assert(final(s)@ =~= old(s)@ + year_text(year as int));
    }
}

/// The archive name for the folder `source` at the time `now`: the folder's
/// name (`archive` when the path has no final component), an underscore, the
/// timestamp, and `.zip`.
pub open spec fn spec_archive_name(source: Seq<char>, now: Timestamp) -> Seq<char> {
    let stem = match path_file_name(source) {
        Some(n) => n,
        None => "archive"@,
    };
    stem + seq!['_'] + stamp_text(now) + ".zip"@
}

/// Output archive name for the source directory at the moment `now`.
///
/// A timestamp down to the second makes collisions practically impossible,
/// so overwriting is never needed.
pub fn archive_name(source: &str, now: &Timestamp) -> (name: String)
    ensures
        name@ == spec_archive_name(source@, *now),
{
    let mut name = match crate::paths::file_name(source) {
        Some(n) => n,
        None => {
            let mut r = String::new();
            push_str(&mut r, "archive");
            r
        },
    };
    push_char(&mut name, '_');
    push_year(&mut name, now.year);
    push_char(&mut name, '-');
    push_padded(&mut name, now.month as u64, 2);
    push_char(&mut name, '-');
    push_padded(&mut name, now.day as u64, 2);
    push_char(&mut name, '_');
    push_padded(&mut name, now.hour as u64, 2);
    push_padded(&mut name, now.minute as u64, 2);
    push_padded(&mut name, now.second as u64, 2);
    push_str(&mut name, ".zip");
    assert(name@ =~= spec_archive_name(source@, *now));
    name
}

/// The fields of `t` name a real calendar date and time of day (true of
/// every timestamp [`Timestamp::new`] gives).
pub open spec fn in_calendar(t: Timestamp) -> bool {
    &&& 1 <= t.spec_month() <= 12
    &&& 1 <= t.spec_day() <= days_in_month(t.spec_year(), t.spec_month())
    &&& t.spec_hour() < 24
    &&& t.spec_minute() < 60
    &&& t.spec_second() < 60
}

/// `a` and `b` are the same time to the second.
pub open spec fn same_time(a: Timestamp, b: Timestamp) -> bool {
    &&& a.spec_year() == b.spec_year()
    &&& a.spec_month() == b.spec_month()
    &&& a.spec_day() == b.spec_day()
    &&& a.spec_hour() == b.spec_hour()
    &&& a.spec_minute() == b.spec_minute()
    &&& a.spec_second() == b.spec_second()
}

/// The text after the year has 13 characters.
pub proof fn lemma_clock_len(t: Timestamp)
    ensures
        clock_text(t).len() == 13,
{
    lemma_padded_len(t.spec_month(), 2);
    lemma_padded_len(t.spec_day(), 2);
    lemma_padded_len(t.spec_hour(), 2);
    lemma_padded_len(t.spec_minute(), 2);
    lemma_padded_len(t.spec_second(), 2);
}

/// Different years are written differently.
pub proof fn lemma_year_text_injective(a: int, b: int)
    requires
        year_text(a) == year_text(b),
    ensures
        a == b,
{
    assert(pow10(4) == 10000) by {
        reveal_with_fuel(pow10, 5);
    }
    let ya = year_text(a);
    assert(('+' as u32) == 43 && ('-' as u32) == 45);
    if 0 <= a <= 9999 {
        lemma_padded_starts_with_digit(a as nat, 4);
    }
    if 0 <= b <= 9999 {
        lemma_padded_starts_with_digit(b as nat, 4);
    }
    if 0 <= a <= 9999 && 0 <= b <= 9999 {
        lemma_padded_injective(a as nat, b as nat, 4);
    } else if a > 9999 && b > 9999 {
        assert(ya.subrange(1, ya.len() as int) =~= decimal(a as nat));
        assert(year_text(b).subrange(1, ya.len() as int) =~= decimal(b as nat));
        lemma_decimal_injective(a as nat, b as nat);
    } else if a < 0 && b < 0 {
        let na = (-a) as nat;
        let nb = (-b) as nat;
        assert(ya.subrange(1, ya.len() as int) =~= year_digits(na));
        assert(year_text(b).subrange(1, ya.len() as int) =~= year_digits(nb));
        lemma_padded_len(na, 4);
        lemma_padded_len(nb, 4);
        if na < 10000 && nb < 10000 {
            lemma_padded_injective(na, nb, 4);
        } else if na >= 10000 && nb >= 10000 {
            lemma_decimal_injective(na, nb);
        } else if na >= 10000 {
            lemma_decimal_len(na, 4);
        } else {
            lemma_decimal_len(nb, 4);
        }
    } else {
        assert(ya[0] == year_text(b)[0]);
    }
}

/// Archive names never collide: for one folder, two times give the same name
/// exactly when they are the same time to the second.
pub proof fn law_names_differ_by_time(source: Seq<char>, a: Timestamp, b: Timestamp)
    requires
        in_calendar(a),
        in_calendar(b),
    ensures
        spec_archive_name(source, a) == spec_archive_name(source, b) <==> same_time(a, b),
{
    if spec_archive_name(source, a) == spec_archive_name(source, b) {
        let stem = match path_file_name(source) {
            Some(n) => n,
            None => "archive"@,
        };
        let k: int = stem.len() as int + 1;
        let ya = year_text(a.spec_year());
        let yb = year_text(b.spec_year());
        let ca = clock_text(a);
        let cb = clock_text(b);
        lemma_clock_len(a);
        lemma_clock_len(b);
        let na = spec_archive_name(source, a);
        let nb = spec_archive_name(source, b);
        assert(na =~= stem + seq!['_'] + ya + ca + ".zip"@);
        assert(nb =~= stem + seq!['_'] + yb + cb + ".zip"@);
        assert(ya.len() == yb.len());
        let m: int = k + ya.len();
        assert(na.subrange(k, m) =~= ya);
        assert(nb.subrange(k, m) =~= yb);
        assert(na.subrange(m, m + 13) =~= ca);
        assert(nb.subrange(m, m + 13) =~= cb);
        lemma_year_text_injective(a.spec_year(), b.spec_year());
        lemma_padded_len(a.spec_month(), 2);
        lemma_padded_len(a.spec_day(), 2);
        lemma_padded_len(a.spec_hour(), 2);
        lemma_padded_len(a.spec_minute(), 2);
        lemma_padded_len(a.spec_second(), 2);
        lemma_padded_len(b.spec_month(), 2);
        lemma_padded_len(b.spec_day(), 2);
        lemma_padded_len(b.spec_hour(), 2);
        lemma_padded_len(b.spec_minute(), 2);
        lemma_padded_len(b.spec_second(), 2);
        assert(ca.subrange(1, 3) =~= padded(a.spec_month(), 2));
        assert(cb.subrange(1, 3) =~= padded(b.spec_month(), 2));
        assert(ca.subrange(4, 6) =~= padded(a.spec_day(), 2));
        assert(cb.subrange(4, 6) =~= padded(b.spec_day(), 2));
        assert(ca.subrange(7, 9) =~= padded(a.spec_hour(), 2));
        assert(cb.subrange(7, 9) =~= padded(b.spec_hour(), 2));
        assert(ca.subrange(9, 11) =~= padded(a.spec_minute(), 2));
        assert(cb.subrange(9, 11) =~= padded(b.spec_minute(), 2));
        assert(ca.subrange(11, 13) =~= padded(a.spec_second(), 2));
        assert(cb.subrange(11, 13) =~= padded(b.spec_second(), 2));
        assert(pow10(2) == 100) by {
            reveal_with_fuel(pow10, 3);
        }
        lemma_padded_injective(a.spec_month(), b.spec_month(), 2);
        lemma_padded_injective(a.spec_day(), b.spec_day(), 2);
        lemma_padded_injective(a.spec_hour(), b.spec_hour(), 2);
        lemma_padded_injective(a.spec_minute(), b.spec_minute(), 2);
        lemma_padded_injective(a.spec_second(), b.spec_second(), 2);
    }
}

} // verus!
