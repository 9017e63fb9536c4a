//! Calendar dates written `YYYY-MM-DD`, counted in days since 1970-01-01.
use vstd::prelude::*;
use vstd::string::StrSliceExecFns;

verus! {

pub open spec fn is_leap_year(y: int) -> bool {
    (y % 4 == 0 && y % 100 != 0) || y % 400 == 0
}

pub open spec fn days_in_month(y: int, m: int) -> int {
    if m == 2 {
        if is_leap_year(y) { 29 } else { 28 }
    } else if m == 4 || m == 6 || m == 9 || m == 11 {
        30
    } else {
        31
    }
}

/// Days in the years before `y`, counted from year 0 (for `y >= 0`).
pub open spec fn days_before_year(y: int) -> int {
    365 * y + (y + 3) / 4 - (y + 99) / 100 + (y + 399) / 400
}

/// Days in the months of year `y` before month `m`.
pub open spec fn days_before_month(y: int, m: int) -> int
    decreases m,
{
    if m <= 1 {
        0
    } else {
        days_before_month(y, m - 1) + days_in_month(y, m - 1)
    }
}

/// The day number of a calendar date, 0 being 1970-01-01.
pub open spec fn epoch_day(y: int, m: int, d: int) -> int {
    days_before_year(y) - days_before_year(1970) + days_before_month(y, m) + d - 1
}

pub open spec fn is_digit(c: char) -> bool {
    '0' <= c && c <= '9'
}

pub open spec fn digit_value(c: char) -> int {
    c as int - '0' as int
}

/// The number written by the digits `s[from..from + n]`.
pub open spec fn digits_value(s: Seq<char>, from: int, n: int) -> int
    decreases n,
{
    if n <= 0 {
        0
    } else {
        digits_value(s, from, n - 1) * 10 + digit_value(s[from + n - 1])
    }
}

pub open spec fn digits_at(s: Seq<char>, from: int, n: int) -> bool {
    forall|i: int| from <= i < from + n ==> #[trigger] is_digit(s[i])
}

/// The day number that `s` writes as `YYYY-MM-DD`, or `None` when it is no valid date.
pub open spec fn parse_date_spec(s: Seq<char>) -> Option<int> {
    let y = digits_value(s, 0, 4);
    let m = digits_value(s, 5, 2);
    let d = digits_value(s, 8, 2);
    if s.len() == 10 && digits_at(s, 0, 4) && s[4] == '-' && digits_at(s, 5, 2) && s[7] == '-'
        && digits_at(s, 8, 2) && 1 <= m <= 12 && 1 <= d <= days_in_month(y, m) {
        Some(epoch_day(y, m, d))
    } else {
        None
    }
}

proof fn lemma_digits_bounds(s: Seq<char>, from: int, n: int)
    requires
        digits_at(s, from, n),
        n >= 0,
    ensures
        0 <= digits_value(s, from, n) < pow10(n),
    decreases n,
{
    if n > 0 {
        assert(is_digit(s[from + n - 1]));
        lemma_digits_bounds(s, from, n - 1);
    }
}

pub open spec fn pow10(n: int) -> int
    decreases n,
{
    if n <= 0 { 1 } else { 10 * pow10(n - 1) }
}

/// Reads `n` decimal digits of `s` starting at `from`.
fn read_digits(s: &str, from: usize, n: usize) -> (r: Option<u32>)
    requires
        from + n <= s@.len(),
        from <= 32,
        n <= 4,
    ensures
        r is Some <==> digits_at(s@, from as int, n as int),
        r matches Some(v) ==> v as int == digits_value(s@, from as int, n as int),
{
    let mut v: u32 = 0;
    let mut i: usize = 0;
    while i < n
        invariant
            i <= n <= 4,
            from + n <= s@.len(),
            from <= 32,
            digits_at(s@, from as int, i as int),
            v as int == digits_value(s@, from as int, i as int),
            v < pow10(i as int),
        decreases n - i,
    {
        let c = s.get_char(from + i);
        if c < '0' || c > '9' {
            assert(!is_digit(s@[from + i]));
            return None;
        }
        assert(pow10(i as int) <= 1000) by {
            reveal_with_fuel(pow10, 4);
        }
        assert(pow10(i as int + 1) == 10 * pow10(i as int));
        v = v * 10 + (c as u32 - '0' as u32);
        i = i + 1;
    }
    Some(v)
}

fn leap_year(y: u32) -> (r: bool)
    ensures
        r == is_leap_year(y as int),
{
    (y % 4 == 0 && y % 100 != 0) || y % 400 == 0
}

fn month_length(y: u32, m: u32) -> (r: u32)
    ensures
        r as int == days_in_month(y as int, m as int),
{
    if m == 2 {
        if leap_year(y) { 29 } else { 28 }
    } else if m == 4 || m == 6 || m == 9 || m == 11 {
        30
    } else {
        31
    }
}

/// Parses a `YYYY-MM-DD` date into its day number since 1970-01-01.
pub fn parse_date(s: &str) -> (r: Option<i32>)
    ensures
        match parse_date_spec(s@) {
            Some(d) => r == Some(d as i32) && d == r->Some_0 as int,
            None => r is None,
        },
{
    if s.unicode_len() != 10 {
        return None;
    }
    if s.get_char(4) != '-' || s.get_char(7) != '-' {
        return None;
    }
    let y = match read_digits(s, 0, 4) { Some(v) => v, None => return None };
    let m = match read_digits(s, 5, 2) { Some(v) => v, None => return None };
    let d = match read_digits(s, 8, 2) { Some(v) => v, None => return None };
    if m < 1 || m > 12 || d < 1 || d > month_length(y, m) {
        return None;
    }
    proof {
        lemma_digits_bounds(s@, 0, 4);
        reveal_with_fuel(pow10, 5);
    }
    let mut before_month: u32 = 0;
    let mut k: u32 = 1;
    while k < m
        invariant
            1 <= k <= m <= 12,
            y < 10000,
            before_month as int == days_before_month(y as int, k as int),
            before_month <= 31 * k,
        decreases m - k,
    {
        before_month = before_month + month_length(y, k);
        k = k + 1;
    }
    let yi = y as i64;
    let days_before = 365 * yi + (yi + 3) / 4 - (yi + 99) / 100 + (yi + 399) / 400;
    let epoch = 365 * 1970 + (1970 + 3) / 4 - (1970 + 99) / 100 + (1970 + 399) / 400;
    let total = days_before - epoch + before_month as i64 + d as i64 - 1;
    Some(total as i32)
}

/// How many fraction-of-second digits a date-time text carries after its seconds.
pub open spec fn fraction_len(s: Seq<char>) -> int {
    if s.len() > 20 && s[19] == '.' {
        if s.last() == 'Z' { s.len() - 21 } else { s.len() - 20 }
    } else {
        0
    }
}

/// Whether what follows the seconds is empty, `Z`, or `.` with one to three
/// digits, optionally followed by `Z`.
pub open spec fn valid_time_suffix(s: Seq<char>) -> bool {
    if s.len() > 19 && s[19] == '.' {
        1 <= fraction_len(s) <= 3 && digits_at(s, 20, fraction_len(s))
    } else {
        s.len() == 19 || (s.len() == 20 && s[19] == 'Z')
    }
}

/// The milliseconds since 1970-01-01T00:00:00 that `s` writes as
/// `YYYY-MM-DDTHH:MM:SS`, with an optional fraction of one to three digits and
/// an optional `Z`; `None` when it is no such text.
pub open spec fn parse_date_time_spec(s: Seq<char>) -> Option<int> {
    let h = digits_value(s, 11, 2);
    let mi = digits_value(s, 14, 2);
    let sec = digits_value(s, 17, 2);
    let k = fraction_len(s);
    if s.len() >= 19 && parse_date_spec(s.take(10)) is Some && s[10] == 'T' && digits_at(s, 11, 2) && s[13]
        == ':' && digits_at(s, 14, 2) && s[16] == ':' && digits_at(s, 17, 2) && h < 24 && mi < 60 && sec < 60
        && valid_time_suffix(s) {
        Some(
            parse_date_spec(s.take(10))->Some_0 * 86_400_000 + h * 3_600_000 + mi * 60_000 + sec * 1000
                + digits_value(s, 20, k) * pow10(3 - k),
        )
    } else {
        None
    }
}

/// Parses a date-time text into milliseconds since 1970-01-01T00:00:00.
pub fn parse_date_time(s: &str) -> (r: Option<i64>)
    ensures
        match parse_date_time_spec(s@) {
            Some(ms) => r == Some(ms as i64) && ms == r->Some_0 as int,
            None => r is None,
        },
{
    let n = s.unicode_len();
    if n < 19 || n > 24 {
        return None;
    }
    let date_part = s.substring_char(0, 10);
    assert(date_part@ == s@.take(10));
    let day = match parse_date(date_part) { Some(d) => d, None => return None };
    if s.get_char(10) != 'T' || s.get_char(13) != ':' || s.get_char(16) != ':' {
        return None;
    }
    let h = match read_digits(s, 11, 2) { Some(v) => v, None => return None };
    let mi = match read_digits(s, 14, 2) { Some(v) => v, None => return None };
    let sec = match read_digits(s, 17, 2) { Some(v) => v, None => return None };
    if h >= 24 || mi >= 60 || sec >= 60 {
        return None;
    }
    let mut frac: u32 = 0;
    let mut scale: u32 = 1000;
    if n > 19 && s.get_char(19) == '.' {
        if n == 20 {
            return None;
        }
        let k: usize = if s.get_char(n - 1) == 'Z' { n - 21 } else { n - 20 };
        assert(k == fraction_len(s@));
        if k < 1 || k > 3 {
            return None;
        }
        frac = match read_digits(s, 20, k) { Some(v) => v, None => return None };
        scale = if k == 1 { 100 } else if k == 2 { 10 } else { 1 };
        proof {
            reveal_with_fuel(pow10, 4);
            lemma_digits_bounds(s@, 20, k as int);
            assert(scale as int == pow10(3 - k));
        }
    } else if !(n == 19 || (n == 20 && s.get_char(19) == 'Z')) {
        return None;
    }
    proof {
        reveal_with_fuel(pow10, 4);
        assert(frac as int * scale as int == digits_value(s@, 20, fraction_len(s@)) * pow10(3 - fraction_len(s@)));
        assert(frac as int * scale as int <= 1000) by (nonlinear_arith)
            requires
                (frac < 10 && scale == 100) || (frac < 100 && scale == 10) || (frac < 1000 && scale == 1) || (frac
                    == 0 && scale == 1000),
        ;
    }
    Some(day as i64 * 86_400_000 + h as i64 * 3_600_000 + mi as i64 * 60_000 + sec as i64 * 1000 + frac as i64 * scale as i64)
}

} // verus!
