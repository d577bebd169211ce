//! Seconds since 1970 from timestamps such as `2026-07-20T23:59:14.06Z`.

use vstd::prelude::*;

use crate::text;

verus! {

/// Whether a year of the Gregorian calendar has a 29th of February.
pub open spec fn is_leap(y: int) -> bool {
    y % 4 == 0 && (y % 100 != 0 || y % 400 == 0)
}

/// Days of the Gregorian calendar from 1 January of year 1 to 1 January of `y`.
pub open spec fn days_before_year(y: int) -> int {
    365 * (y - 1) + (y - 1) / 4 - (y - 1) / 100 + (y - 1) / 400
}

/// Days of month `m` of year `y`.
pub open spec fn days_in_month(y: int, m: int) -> int {
    if m == 2 {
        if is_leap(y) {
            29
        } else {
            28
        }
    } else if m == 4 || m == 6 || m == 9 || m == 11 {
        30
    } else {
        31
    }
}

/// Days of year `y` before its month `m`.
pub open spec fn days_before_month(y: int, m: int) -> int
    decreases m,
{
    if m <= 1 {
        0
    } else {
        days_before_month(y, m - 1) + days_in_month(y, m - 1)
    }
}

/// Days from 1 January 1970 to day `d` of month `m` of year `y`; a day past the
/// end of its month counts into the next one.
pub open spec fn civil_days(y: int, m: int, d: int) -> int {
    days_before_year(y) - days_before_year(1970) + days_before_month(y, m) + d - 1
}

/// The 64-bit two's complement value of an integer.
pub open spec fn wrapped(x: int) -> int {
    (x + 0x8000_0000_0000_0000) % 0x1_0000_0000_0000_0000 - 0x8000_0000_0000_0000
}

/// Whether a month and a day can occur in a date.
pub open spec fn plausible_date(m: int, d: int) -> bool {
    1 <= m <= 12 && 1 <= d <= 31
}

proof fn days_before_months(y: int)
    ensures
        days_before_month(y, 1) == 0,
        days_before_month(y, 2) == 31,
        days_before_month(y, 3) == 59 + if is_leap(y) {
            1int
        } else {
            0
        },
        days_before_month(y, 4) == days_before_month(y, 3) + 31,
        days_before_month(y, 5) == days_before_month(y, 3) + 61,
        days_before_month(y, 6) == days_before_month(y, 3) + 92,
        days_before_month(y, 7) == days_before_month(y, 3) + 122,
        days_before_month(y, 8) == days_before_month(y, 3) + 153,
        days_before_month(y, 9) == days_before_month(y, 3) + 184,
        days_before_month(y, 10) == days_before_month(y, 3) + 214,
        days_before_month(y, 11) == days_before_month(y, 3) + 245,
        days_before_month(y, 12) == days_before_month(y, 3) + 275,
{
    reveal_with_fuel(days_before_month, 13);
}

proof fn leap_day_counts(y: int)
    ensures
        days_before_year(y + 1) == days_before_year(y) + 365 + if is_leap(y) {
            1int
        } else {
            0
        },
{
}

/// Counting by 400-year eras and March-based years counts the civil days.
proof fn era_days(y: int, m: int, d: int, shifted: int, mp: int)
    requires
        1 <= m <= 12,
        shifted == if m <= 2 {
            y - 1
        } else {
            y
        },
        mp == if m > 2 {
            m - 3
        } else {
            m + 9
        },
    ensures
        (shifted / 400) * 146097 + (shifted % 400) * 365 + (shifted % 400) / 4 - (shifted % 400)
            / 100 + (153 * mp + 2) / 5 + d - 1 - 719468 == civil_days(y, m, d),
{
    let era = shifted / 400;
    let yoe = shifted % 400;
    assert(shifted == 400 * era + yoe);
    assert(shifted / 4 == 100 * era + yoe / 4);
    assert(shifted / 100 == 4 * era + yoe / 100);
    assert(era * 146097 + yoe * 365 + yoe / 4 - yoe / 100 == days_before_year(shifted + 1));
    days_before_months(y);
    leap_day_counts(y);
    assert(days_before_year(1970) == 719162);
}

/// The 64-bit two's complement value of an integer.
fn wrap(x: i128) -> (r: i64)
    requires
        -0x1_0000_0000_0000_0000_0000_0000 < x < 0x1_0000_0000_0000_0000_0000_0000,
    ensures
        r == wrapped(x as int),
{
    let lifted: i128 = x + 0x8000_0000_0000_0000 + 0x1_0000_0000_0000_0000_0000_0000;
    let low: i128 = lifted % 0x1_0000_0000_0000_0000;
    assert(low as int == (x as int + 0x8000_0000_0000_0000) % 0x1_0000_0000_0000_0000) by {
        let a = x as int + 0x8000_0000_0000_0000;
        assert(lifted as int == a + 0x1_0000_0000 * 0x1_0000_0000_0000_0000);
    }
    (low - 0x8000_0000_0000_0000) as i64
}

/// Floor of a quotient.
fn floor_div(a: i128, b: i128) -> (r: i128)
    requires
        0 < b <= 400,
        -0x1_0000_0000_0000_0000 <= a <= 0x1_0000_0000_0000_0000,
    ensures
        r == a as int / b as int,
{
    let lifted: i128 = a + b * 0x1_0000_0000_0000_0000;
    let q: i128 = lifted / b;
    assert(lifted as int / b as int == a as int / b as int + 0x1_0000_0000_0000_0000) by {
        vstd::arithmetic::div_mod::lemma_hoist_over_denominator(
            a as int,
            0x1_0000_0000_0000_0000,
            b as nat,
        );
    }
    q - 0x1_0000_0000_0000_0000
}

/// Days from 1 January 1970 to a date; `None` where the month or the day cannot
/// occur.
pub fn days_from_civil(y: i64, m: i64, d: i64) -> (r: Option<i64>)
    ensures
        match r {
            Some(n) => plausible_date(m as int, d as int) && n == wrapped(
                civil_days(y as int, m as int, d as int),
            ),
            None => !plausible_date(m as int, d as int),
        },
{
    if m < 1 || m > 12 || d < 1 || d > 31 {
        return None;
    }
    let shifted: i128 = if m <= 2 {
        y as i128 - 1
    } else {
        y as i128
    };
    let era: i128 = floor_div(shifted, 400);
    let yoe: i128 = shifted - era * 400;
    let mp: i128 = if m > 2 {
        m as i128 - 3
    } else {
        m as i128 + 9
    };
    let doy: i128 = (153 * mp + 2) / 5 + d as i128 - 1;
    let doe: i128 = yoe * 365 + yoe / 4 - yoe / 100 + doy;
    proof {
        era_days(y as int, m as int, d as int, shifted as int, mp as int);
    }
    Some(wrap(era * 146097 + doe - 719468))
}

/// The date of a year within a billion years of year 0 is counted exactly.
pub proof fn ordinary_dates_are_exact(y: int, m: int, d: int)
    requires
        -1_000_000_000 <= y <= 1_000_000_000,
        plausible_date(m, d),
    ensures
        wrapped(civil_days(y, m, d)) == civil_days(y, m, d),
{
    assert(0 <= days_before_month(y, m) <= 335) by {
        days_before_months(y);
    }
    assert(-400_000_000_000 <= days_before_year(y) <= 400_000_000_000);
    assert(days_before_year(1970) == 719162);
    wrapped_is_identity(civil_days(y, m, d));
}

proof fn wrapped_is_identity(x: int)
    requires
        i64::MIN <= x <= i64::MAX,
    ensures
        wrapped(x) == x,
{
}

/// The day after a date is counted as the next one, across the ends of months
/// and years.
pub proof fn days_follow_each_other(y: int, m: int)
    requires
        1 <= m <= 12,
    ensures
        m < 12 ==> civil_days(y, m + 1, 1) == civil_days(y, m, days_in_month(y, m)) + 1,
        m == 12 ==> civil_days(y + 1, 1, 1) == civil_days(y, m, days_in_month(y, m)) + 1,
        civil_days(1970, 1, 1) == 0,
{
    days_before_months(y);
    days_before_months(y + 1);
    days_before_months(1970);
    leap_day_counts(y);
}

/// A number of 64 bits with a sign, as text.
pub open spec fn number_in(s: Seq<char>) -> Option<int> {
    text::value_within(text::signed_value(s), i64::MIN as int, i64::MAX as int)
}

/// The first three of the numbers that `c` separates; anything behind them is
/// left aside.
pub open spec fn three_numbers(s: Seq<char>, c: char) -> Option<(int, int, int)> {
    let p = text::pieces(s, c);
    if p.len() < 3 {
        None
    } else {
        match (number_in(p[0]), number_in(p[1]), number_in(p[2])) {
            (Some(a), Some(b), Some(c)) => Some((a, b, c)),
            _ => None,
        }
    }
}

/// Seconds since 1970 of `YYYY-MM-DDTHH:MM:SS[.frac]Z`.
pub open spec fn zulu_seconds(s: Seq<char>) -> Option<int> {
    if s.len() == 0 || s.last() != 'Z' {
        None
    } else {
        match text::split_pair(s.drop_last(), 'T') {
            None => None,
            Some((date, time)) => match (
                three_numbers(date, '-'),
                three_numbers(text::pieces(time, '.')[0], ':'),
            ) {
                (Some((y, m, d)), Some((h, mi, se))) => if plausible_date(m, d) {
                    Some(wrapped(civil_days(y, m, d) * 86400 + h * 3600 + mi * 60 + se))
                } else {
                    None
                },
                _ => None,
            },
        }
    }
}

/// Seconds since 1970 of a timestamp with white space around it.
pub open spec fn timestamp_seconds(s: Seq<char>) -> Option<int> {
    zulu_seconds(text::trimmed(s))
}

fn three(s: &str, c: char) -> (r: Option<(i64, i64, i64)>)
    ensures
        match r {
            Some((a, b, d)) => three_numbers(s@, c) == Some((a as int, b as int, d as int)),
            None => three_numbers(s@, c) is None,
        },
{
    let p = text::split(s, c);
    if p.len() < 3 {
        return None;
    }
    let a = text::parse_i64(p[0].as_str());
    let b = text::parse_i64(p[1].as_str());
    let d = text::parse_i64(p[2].as_str());
    match (a, b, d) {
        (Some(a), Some(b), Some(d)) => Some((a, b, d)),
        _ => None,
    }
}

proof fn wrapping_twice(days: int, rest: int)
    ensures
        wrapped(wrapped(days) * 86400 + rest) == wrapped(days * 86400 + rest),
{
    let n: int = 0x1_0000_0000_0000_0000;
    let h: int = 0x8000_0000_0000_0000;
    let k = (days + h) / n;
    assert(wrapped(days) == days - n * k);
    let a = days * 86400 + rest + h;
    assert(wrapped(days) * 86400 + rest + h == a - n * (86400 * k)) by (nonlinear_arith)
        requires
            wrapped(days) == days - n * k,
            a == days * 86400 + rest + h,
    ;
    vstd::arithmetic::div_mod::lemma_mod_multiples_vanish(-(86400 * k), a, n);
    assert(n * -(86400 * k) + a == a - n * (86400 * k)) by (nonlinear_arith);
}

/// Seconds since 1970 of `YYYY-MM-DDTHH:MM:SS[.frac]Z`.
pub fn parse_zulu(s: &str) -> (r: Option<i64>)
    ensures
        match r {
            Some(n) => zulu_seconds(s@) == Some(n as int),
            None => zulu_seconds(s@) is None,
        },
{
    let n = s.unicode_len();
    if n == 0 || s.get_char(n - 1) != 'Z' {
        return None;
    }
    let body = text::prefix(s, n - 1);
    assert(body@ =~= s@.drop_last());
    let (date, time) = match text::split_once(body.as_str(), 'T') {
        Some(p) => p,
        None => return None,
    };
    let whole = text::split(time.as_str(), '.');
    let (y, m, d) = match three(date.as_str(), '-') {
        Some(p) => p,
        None => return None,
    };
    let (h, mi, se) = match three(whole[0].as_str(), ':') {
        Some(p) => p,
        None => return None,
    };
    match days_from_civil(y, m, d) {
        Some(days) => {
            let rest: i128 = h as i128 * 3600 + mi as i128 * 60 + se as i128;
            proof {
                wrapping_twice(civil_days(y as int, m as int, d as int), rest as int);
            }
            Some(wrap(days as i128 * 86400 + rest))
        },
        None => None,
    }
}

/// Seconds since 1970 of a timestamp in UTC.
pub fn parse_rfc3339_secs(s: &str) -> (r: Option<i64>)
    ensures
        match r {
            Some(n) => timestamp_seconds(s@) == Some(n as int),
            None => timestamp_seconds(s@) is None,
        },
{
    parse_zulu(text::trim(s).as_str())
}

/// Whether a session that expires at this time is too old at `now` seconds; one
/// whose time cannot be read is not.
pub open spec fn expired(expires_at: Seq<char>, now: int) -> bool {
    match timestamp_seconds(expires_at) {
        Some(t) => t <= now + 60,
        None => false,
    }
}

/// Whether a session that expires at this time is too old at `now_secs`,
/// counted a minute early.
pub fn is_expired(expires_at: &str, now_secs: i64) -> (r: bool)
    ensures
        r == expired(expires_at@, now_secs as int),
{
    match parse_rfc3339_secs(expires_at) {
        Some(t) => t as i128 <= now_secs as i128 + 60,
        None => false,
    }
}

proof fn three_are_read(a: Seq<char>, b: Seq<char>, d: Seq<char>, c: char)
    requires
        c == '-' || c == ':',
        text::is_digits(a),
        text::is_digits(b),
        text::is_digits(d),
        text::digits_value(a) <= i64::MAX,
        text::digits_value(b) <= i64::MAX,
        text::digits_value(d) <= i64::MAX,
    ensures
        three_numbers(a + seq![c] + b + seq![c] + d, c) == Some(
            (
                text::digits_value(a) as int,
                text::digits_value(b) as int,
                text::digits_value(d) as int,
            ),
        ),
{
    assert forall|i: int| 0 <= i < a.len() implies #[trigger] a[i] != c by {
        assert(text::is_digit(a[i]));
    }
    assert forall|i: int| 0 <= i < b.len() implies #[trigger] b[i] != c by {
        assert(text::is_digit(b[i]));
    }
    assert forall|i: int| 0 <= i < d.len() implies #[trigger] d[i] != c by {
        assert(text::is_digit(d[i]));
    }
    let rest = b + seq![c] + d;
    text::a_text_is_split_at_the_first(a, c, rest);
    text::a_text_is_split_at_the_first(b, c, d);
    text::a_text_is_split_at_the_first(d, c, Seq::empty());
    assert(a + seq![c] + b + seq![c] + d =~= a + seq![c] + rest);
    let p = text::pieces(a + seq![c] + rest, c);
    assert(p =~= seq![a, b, d]);
    assert(text::is_digit(a[0]) && text::is_digit(b[0]) && text::is_digit(d[0]));
}

/// A timestamp counts what it says: the days to its date, and the hours, minutes
/// and seconds of its time; a fraction of a second is left aside.
pub proof fn a_timestamp_counts_its_seconds(
    y: Seq<char>,
    m: Seq<char>,
    d: Seq<char>,
    h: Seq<char>,
    mi: Seq<char>,
    se: Seq<char>,
    fraction: Seq<char>,
)
    requires
        text::is_digits(y) && text::digits_value(y) <= 9999,
        text::is_digits(m) && 1 <= text::digits_value(m) <= 12,
        text::is_digits(d) && 1 <= text::digits_value(d) <= 31,
        text::is_digits(h) && text::digits_value(h) <= 23,
        text::is_digits(mi) && text::digits_value(mi) <= 59,
        text::is_digits(se) && text::digits_value(se) <= 60,
        fraction.len() > 0 ==> fraction[0] == '.',
    ensures
        zulu_seconds(
            y + seq!['-'] + m + seq!['-'] + d + seq!['T'] + (h + seq![':'] + mi + seq![':'] + se
                + fraction) + seq!['Z'],
        ) == Some(
            civil_days(
                text::digits_value(y) as int,
                text::digits_value(m) as int,
                text::digits_value(d) as int,
            ) * 86400 + text::digits_value(h) * 3600 + text::digits_value(mi) * 60
                + text::digits_value(se),
        ),
{
    let date = y + seq!['-'] + m + seq!['-'] + d;
    let clock = h + seq![':'] + mi + seq![':'] + se;
    let time = clock + fraction;
    let all = date + seq!['T'] + time + seq!['Z'];
    three_are_read(y, m, d, '-');
    three_are_read(h, mi, se, ':');
    assert forall|i: int| 0 <= i < date.len() implies #[trigger] date[i] != 'T' by {
        digits_and_marks(y, m, d, '-', i);
    }
    assert forall|i: int| 0 <= i < clock.len() implies #[trigger] clock[i] != '.' by {
        digits_and_marks(h, mi, se, ':', i);
    }
    parts_of_a_timestamp(date, clock, fraction);
    seconds_are_exact(
        text::digits_value(y) as int,
        text::digits_value(m) as int,
        text::digits_value(d) as int,
        (text::digits_value(h) * 3600 + text::digits_value(mi) * 60 + text::digits_value(se)) as int,
    );
    assert(zulu_seconds(all) == Some(
        wrapped(
            civil_days(
                text::digits_value(y) as int,
                text::digits_value(m) as int,
                text::digits_value(d) as int,
            ) * 86400 + text::digits_value(h) * 3600 + text::digits_value(mi) * 60
                + text::digits_value(se),
        ),
    ));
}

proof fn parts_of_a_timestamp(date: Seq<char>, clock: Seq<char>, fraction: Seq<char>)
    requires
        forall|i: int| 0 <= i < date.len() ==> #[trigger] date[i] != 'T',
        forall|i: int| 0 <= i < clock.len() ==> #[trigger] clock[i] != '.',
        fraction.len() > 0 ==> fraction[0] == '.',
    ensures
        ({
            let all = date + seq!['T'] + (clock + fraction) + seq!['Z'];
            &&& all.len() > 0
            &&& all.last() == 'Z'
            &&& text::split_pair(all.drop_last(), 'T') == Some((date, clock + fraction))
            &&& text::pieces(clock + fraction, '.')[0] == clock
        }),
{
    let time = clock + fraction;
    let all = date + seq!['T'] + time + seq!['Z'];
    assert(all.drop_last() =~= date + seq!['T'] + time);
    text::a_text_is_split_at_the_first(date, 'T', time);
    if fraction.len() > 0 {
        let rest = fraction.drop_first();
        assert(time =~= clock + seq!['.'] + rest);
        text::a_text_is_split_at_the_first(clock, '.', rest);
    } else {
        assert(time =~= clock);
        text::a_text_is_split_at_the_first(clock, '.', Seq::empty());
    }
}

proof fn seconds_are_exact(y: int, m: int, d: int, rest: int)
    requires
        0 <= y <= 9999,
        1 <= m <= 12,
        1 <= d <= 31,
        0 <= rest <= 90000,
    ensures
        wrapped(civil_days(y, m, d) * 86400 + rest) == civil_days(y, m, d) * 86400 + rest,
{
    assert(0 <= days_before_month(y, m) <= 335) by {
        days_before_months(y);
    }
    assert(days_before_year(1970) == 719162);
    assert(-800_000 <= civil_days(y, m, d) <= 4_000_000);
    wrapped_is_identity(civil_days(y, m, d) * 86400 + rest);
}

proof fn digits_and_marks(a: Seq<char>, b: Seq<char>, d: Seq<char>, c: char, i: int)
    requires
        text::is_digits(a),
        text::is_digits(b),
        text::is_digits(d),
        0 <= i < (a + seq![c] + b + seq![c] + d).len(),
    ensures
        ({
            let x = (a + seq![c] + b + seq![c] + d)[i];
            x == c || '0' <= x <= '9'
        }),
{
    let n = a.len() as int;
    let k = n + 1 + b.len();
    if i < n {
        assert(text::is_digit(a[i]));
    } else if n < i < k {
        assert(text::is_digit(b[i - n - 1]));
    } else if i > k {
        assert(text::is_digit(d[i - k - 1]));
    }
}

/// A timestamp that is not in UTC, and one without a time, is not read; white
/// space around one does not matter.
pub proof fn only_utc_is_read(s: Seq<char>, a: Seq<char>, b: Seq<char>)
    requires
        forall|i: int| 0 <= i < a.len() ==> text::is_white_space(#[trigger] a[i]),
        forall|i: int| 0 <= i < b.len() ==> text::is_white_space(#[trigger] b[i]),
        s.len() > 0 ==> !text::is_white_space(s[0]) && !text::is_white_space(s[s.len() - 1]),
    ensures
        timestamp_seconds(a + s + b) == zulu_seconds(s),
        s.len() == 0 || s[s.len() - 1] != 'Z' ==> zulu_seconds(s) is None,
        (forall|i: int| 0 <= i < s.len() ==> #[trigger] s[i] != 'T') ==> zulu_seconds(s) is None,
{
    text::trimming_leaves_what_is_between(a, s, b);
    if s.len() > 0 && (forall|i: int| 0 <= i < s.len() ==> #[trigger] s[i] != 'T') {
        let body = s.drop_last();
        assert forall|i: int| 0 <= i < body.len() implies #[trigger] body[i] != 'T' by {
            assert(body[i] == s[i]);
        }
        text::a_text_is_split_at_the_first(body, 'T', Seq::empty());
    }
}

/// A session is too old from a minute before its time on, and never where its
/// time cannot be read.
pub proof fn sessions_end_a_minute_early(expires_at: Seq<char>, now: int)
    ensures
        timestamp_seconds(expires_at) matches Some(t) ==> (expired(expires_at, now) <==> now >= t
            - 60),
        timestamp_seconds(expires_at) is None ==> !expired(expires_at, now),
{
}

/// The lengths of months are those of the Gregorian calendar, and a year has 365
/// days, or 366 where its number divides by 4 and not by 100, or by 400.
pub proof fn the_calendar_is_gregorian(y: int)
    ensures
        civil_days(y + 1, 1, 1) - civil_days(y, 1, 1) == if (y % 4 == 0 && y % 100 != 0) || y % 400
            == 0 {
            366int
        } else {
            365
        },
        civil_days(y, 2, 1) - civil_days(y, 1, 1) == 31,
        civil_days(y, 4, 1) - civil_days(y, 3, 1) == 31,
        civil_days(y, 5, 1) - civil_days(y, 4, 1) == 30,
        civil_days(y, 6, 1) - civil_days(y, 5, 1) == 31,
        civil_days(y, 7, 1) - civil_days(y, 6, 1) == 30,
        civil_days(y, 8, 1) - civil_days(y, 7, 1) == 31,
        civil_days(y, 9, 1) - civil_days(y, 8, 1) == 31,
        civil_days(y, 10, 1) - civil_days(y, 9, 1) == 30,
        civil_days(y, 11, 1) - civil_days(y, 10, 1) == 31,
        civil_days(y, 12, 1) - civil_days(y, 11, 1) == 30,
        civil_days(y + 1, 1, 1) - civil_days(y, 12, 1) == 31,
        forall|m: int, d: int| #[trigger]
            civil_days(y, m, d) == civil_days(y, m, 1) + d - 1,
        forall|m: int, d: int| #[trigger]
            plausible_date(m, d) <==> 1 <= m <= 12 && 1 <= d <= 31,
{
    days_before_months(y);
    days_before_months(y + 1);
    leap_day_counts(y);
}

/// A date with a month or a day that cannot occur is not read.
pub proof fn impossible_dates_are_not_read(
    y: Seq<char>,
    m: Seq<char>,
    d: Seq<char>,
    time: Seq<char>,
)
    requires
        text::is_digits(y) && text::digits_value(y) <= 9999,
        text::is_digits(m) && text::digits_value(m) <= 9999,
        text::is_digits(d) && text::digits_value(d) <= 9999,
        text::digits_value(m) == 0 || text::digits_value(m) > 12 || text::digits_value(d) == 0
            || text::digits_value(d) > 31,
    ensures
        zulu_seconds(y + seq!['-'] + m + seq!['-'] + d + seq!['T'] + time + seq!['Z']) is None,
{
    let date = y + seq!['-'] + m + seq!['-'] + d;
    let all = date + seq!['T'] + time + seq!['Z'];
    three_are_read(y, m, d, '-');
    assert forall|i: int| 0 <= i < date.len() implies #[trigger] date[i] != 'T' by {
        digits_and_marks(y, m, d, '-', i);
    }
    assert(all.drop_last() =~= date + seq!['T'] + time);
    text::a_text_is_split_at_the_first(date, 'T', time);
}

/// A number that 64 bits do not hold is not read; any other with a sign or
/// without is.
pub proof fn numbers_have_64_bits(n: nat)
    ensures
        n <= i64::MAX ==> number_in(text::decimal(n)) == Some(n as int) && number_in(
            seq!['-'] + text::decimal(n),
        ) == Some(-(n as int)),
        n > i64::MAX ==> number_in(text::decimal(n)) is None,
        n > i64::MAX + 1 ==> number_in(seq!['-'] + text::decimal(n)) is None,
{
    text::numbers_read_back(n);
}

/// Counting that goes beyond 64 bits goes round.
pub proof fn counting_goes_round(x: int)
    ensures
        i64::MIN <= wrapped(x) <= i64::MAX,
        wrapped(x + 0x1_0000_0000_0000_0000) == wrapped(x),
        i64::MIN <= x <= i64::MAX ==> wrapped(x) == x,
{
}

/// What comes behind three numbers is left aside; fewer than three are not read.
pub proof fn three_numbers_are_enough(a: Seq<char>, b: Seq<char>, d: Seq<char>, rest: Seq<char>)
    requires
        text::is_digits(a) && text::digits_value(a) <= i64::MAX,
        text::is_digits(b) && text::digits_value(b) <= i64::MAX,
        text::is_digits(d) && text::digits_value(d) <= i64::MAX,
    ensures
        three_numbers(a + seq!['-'] + (b + seq!['-'] + (d + seq!['-'] + rest)), '-') == Some(
            (
                text::digits_value(a) as int,
                text::digits_value(b) as int,
                text::digits_value(d) as int,
            ),
        ),
        three_numbers(a + seq!['-'] + b, '-') is None,
{
    assert forall|i: int| 0 <= i < a.len() implies #[trigger] a[i] != '-' by {
        assert(text::is_digit(a[i]));
    }
    assert forall|i: int| 0 <= i < b.len() implies #[trigger] b[i] != '-' by {
        assert(text::is_digit(b[i]));
    }
    assert forall|i: int| 0 <= i < d.len() implies #[trigger] d[i] != '-' by {
        assert(text::is_digit(d[i]));
    }
    let last = d + seq!['-'] + rest;
    let tail = b + seq!['-'] + last;
    text::a_text_is_split_at_the_first(a, '-', tail);
    text::a_text_is_split_at_the_first(b, '-', last);
    text::a_text_is_split_at_the_first(d, '-', rest);
    text::a_text_is_split_at_the_first(a, '-', b);
    text::a_text_is_split_at_the_first(b, '-', Seq::empty());
    assert(text::is_digit(a[0]) && text::is_digit(b[0]) && text::is_digit(d[0]));
    let p = text::pieces(a + seq!['-'] + tail, '-');
    assert(p[0] == a && p[1] == b && p[2] == d);
}

} // verus!
