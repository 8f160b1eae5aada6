//! Elasticsearch date-math expressions (`now`, `now-15m`, `now/d`,
//! `2024-01-01||+1d`) resolved to UTC instants.
//!
//! The expression grammar, its evaluation order and every overflow check
//! are verified here; calendar arithmetic, date parsing and formatting are
//! done by the `chrono` crate behind the trusted items below.

use crate::textutil::{
    ascii_digit, chars_of, contains, contains_lit, has_prefix, is_ascii_digit, slice_chars,
    starts_with, string_from_chars, trim, trim_chars,
};
use chrono::{Datelike, TimeZone, Timelike};
use vstd::prelude::*;

verus! {

/// A UTC instant: seconds since the Unix epoch and nanoseconds within the
/// second (as `chrono::DateTime<Utc>` stores it).
#[derive(Debug, Clone, Copy, PartialEq, Eq, Structural)]
pub struct Timestamp {
    pub secs: i64,
    pub nanos: u32,
}

/// Calendar fields of an instant in UTC.
#[derive(Debug, Clone, Copy, PartialEq, Eq, Structural)]
pub struct CalendarFields {
    pub year: i32,
    pub month: u32,
    pub day: u32,
    pub hour: u32,
    pub minute: u32,
    pub second: u32,
    /// Days since the most recent Monday (0 for Monday).
    pub days_from_monday: u32,
}

// ---------------------------------------------------------------------------
// chrono (trusted items)
// ---------------------------------------------------------------------------

/// What `DateTime::<Utc>::checked_add_signed` with a whole number of seconds
/// returns.
pub uninterp spec fn seconds_added(t: Timestamp, secs: i64) -> Option<Timestamp>;

/// What `DateTime::<Utc>::checked_add_months` returns.
pub uninterp spec fn months_added(t: Timestamp, months: u32) -> Option<Timestamp>;

/// What `DateTime::<Utc>::checked_sub_months` returns.
pub uninterp spec fn months_subtracted(t: Timestamp, months: u32) -> Option<Timestamp>;

/// The calendar fields chrono reports for an instant (year, month, day,
/// hour, minute, second, weekday).
pub uninterp spec fn calendar_fields(t: Timestamp) -> Option<CalendarFields>;

/// What `Utc.with_ymd_and_hms(..).single()` returns.
pub uninterp spec fn from_calendar(y: i32, mo: u32, d: u32, h: u32, mi: u32, s: u32) -> Option<Timestamp>;

/// What `DateTime::parse_from_rfc3339` returns, converted to UTC.
pub uninterp spec fn rfc3339_parsed(s: Seq<char>) -> Option<Timestamp>;

/// What `NaiveDateTime::parse_from_str` returns for a format, taken as UTC.
pub uninterp spec fn naive_datetime_parsed(s: Seq<char>, fmt: Seq<char>) -> Option<Timestamp>;

/// What `NaiveDate::parse_from_str` returns for a format, at midnight UTC.
pub uninterp spec fn naive_date_parsed(s: Seq<char>, fmt: Seq<char>) -> Option<Timestamp>;

/// What `DateTime::to_rfc3339_opts(SecondsFormat::Millis, true)` writes for
/// the instant, or `None` where `DateTime::from_timestamp` refuses it.
pub uninterp spec fn rfc3339_millis(t: Timestamp) -> Option<Seq<char>>;

/// Calls `DateTime::from_timestamp` and then
/// `DateTime::<Utc>::checked_add_signed(TimeDelta::try_seconds(secs))`.
/// Claimed: the result is the named value, and when there is one and `t` is
/// not a leap second (its sub-second part is under one second) it lies
/// `secs` seconds after `t` with the same sub-second part.  On a leap
/// second chrono moves the fraction, so nothing more is claimed there.  An
/// instant that chrono cannot represent, or a delta out of `TimeDelta`'s
/// range, gives `None`.
#[verifier::external_body]
pub(crate) fn add_seconds(t: Timestamp, secs: i64) -> (r: Option<Timestamp>)
    ensures
        r == seconds_added(t, secs),
        t.nanos < 1_000_000_000 ==> (r matches Some(x) ==> x.secs == t.secs + secs && x.nanos == t.nanos),
{
    let dt = chrono::DateTime::from_timestamp(t.secs, t.nanos)?;
    let delta = chrono::TimeDelta::try_seconds(secs)?;
    let r = dt.checked_add_signed(delta)?;
    Some(Timestamp { secs: r.timestamp(), nanos: r.timestamp_subsec_nanos() })
}

/// Calls `DateTime::<Utc>::checked_add_months(Months::new(months))`.
/// Claimed: the result is the named value.
#[verifier::external_body]
pub(crate) fn add_months(t: Timestamp, months: u32) -> (r: Option<Timestamp>)
    ensures
        r == months_added(t, months),
{
    let dt = chrono::DateTime::from_timestamp(t.secs, t.nanos)?;
    let r = dt.checked_add_months(chrono::Months::new(months))?;
    Some(Timestamp { secs: r.timestamp(), nanos: r.timestamp_subsec_nanos() })
}

/// Calls `DateTime::<Utc>::checked_sub_months(Months::new(months))`.
/// Claimed: the result is the named value.
#[verifier::external_body]
pub(crate) fn sub_months(t: Timestamp, months: u32) -> (r: Option<Timestamp>)
    ensures
        r == months_subtracted(t, months),
{
    let dt = chrono::DateTime::from_timestamp(t.secs, t.nanos)?;
    let r = dt.checked_sub_months(chrono::Months::new(months))?;
    Some(Timestamp { secs: r.timestamp(), nanos: r.timestamp_subsec_nanos() })
}

/// Reads the calendar fields of an instant with chrono's `Datelike` and
/// `Timelike` getters (`weekday().num_days_from_monday()` for the weekday).
/// Claimed: the result is the named value.
#[verifier::external_body]
pub(crate) fn fields_of(t: Timestamp) -> (r: Option<CalendarFields>)
    ensures
        r == calendar_fields(t),
{
    let dt = chrono::DateTime::from_timestamp(t.secs, t.nanos)?;
    Some(CalendarFields {
        year: dt.year(),
        month: dt.month(),
        day: dt.day(),
        hour: dt.hour(),
        minute: dt.minute(),
        second: dt.second(),
        days_from_monday: dt.weekday().num_days_from_monday(),
    })
}

/// Calls `Utc.with_ymd_and_hms(y, mo, d, h, mi, s).single()`.  Claimed: the
/// result is the named value; when there is one it has no sub-second part.
#[verifier::external_body]
pub(crate) fn at_calendar(y: i32, mo: u32, d: u32, h: u32, mi: u32, s: u32) -> (r: Option<Timestamp>)
    ensures
        r == from_calendar(y, mo, d, h, mi, s),
        r matches Some(x) ==> x.nanos == 0,
{
    let dt = chrono::Utc.with_ymd_and_hms(y, mo, d, h, mi, s).single()?;
    Some(Timestamp { secs: dt.timestamp(), nanos: dt.timestamp_subsec_nanos() })
}

/// Calls `DateTime::parse_from_rfc3339` and converts the result to UTC.
/// Claimed: the result is the named value.
#[verifier::external_body]
pub(crate) fn parse_rfc3339(s: &str) -> (r: Option<Timestamp>)
    ensures
        r == rfc3339_parsed(s@),
{
    let dt = chrono::DateTime::parse_from_rfc3339(s).ok()?.with_timezone(&chrono::Utc);
    Some(Timestamp { secs: dt.timestamp(), nanos: dt.timestamp_subsec_nanos() })
}

/// Calls `NaiveDateTime::parse_from_str(s, fmt)` and takes the result as
/// UTC.  Claimed: the result is the named value.
#[verifier::external_body]
pub(crate) fn parse_naive_datetime(s: &str, fmt: &str) -> (r: Option<Timestamp>)
    ensures
        r == naive_datetime_parsed(s@, fmt@),
{
    let dt = chrono::NaiveDateTime::parse_from_str(s, fmt).ok()?.and_utc();
    Some(Timestamp { secs: dt.timestamp(), nanos: dt.timestamp_subsec_nanos() })
}

/// Calls `NaiveDate::parse_from_str(s, fmt)` and takes midnight UTC of that
/// day.  Claimed: the result is the named value.
#[verifier::external_body]
pub(crate) fn parse_naive_date(s: &str, fmt: &str) -> (r: Option<Timestamp>)
    ensures
        r == naive_date_parsed(s@, fmt@),
{
    let dt = chrono::NaiveDate::parse_from_str(s, fmt).ok()?.and_hms_opt(0, 0, 0)?.and_utc();
    Some(Timestamp { secs: dt.timestamp(), nanos: dt.timestamp_subsec_nanos() })
}

/// Calls `DateTime::from_timestamp` and then
/// `DateTime::to_rfc3339_opts(SecondsFormat::Millis, true)`.  Claimed: the
/// result is the named value.
#[verifier::external_body]
pub(crate) fn format_rfc3339_millis(t: Timestamp) -> (r: Option<String>)
    ensures
        match r {
            Some(s) => rfc3339_millis(t) == Some(s@),
            None => rfc3339_millis(t) is None,
        },
{
    let dt = chrono::DateTime::from_timestamp(t.secs, t.nanos)?;
    Some(dt.to_rfc3339_opts(chrono::SecondsFormat::Millis, true))
}

/// Calls `Utc::now`.  Nothing is claimed of the result: it is the clock.
#[verifier::external_body]
pub(crate) fn utc_now() -> Timestamp {
    let dt = chrono::Utc::now();
    Timestamp { secs: dt.timestamp(), nanos: dt.timestamp_subsec_nanos() }
}

// ---------------------------------------------------------------------------
// The expression language
// ---------------------------------------------------------------------------

/// Outcome of evaluating date-math: an instant, no instant (not
/// recognized, unknown unit, or chrono out of range), or a period so large
/// that building it overflows (where evaluation would abort).
#[derive(Debug, Clone, Copy, PartialEq, Eq, Structural)]
pub enum DateEval {
    Value(Timestamp),
    NoValue,
    Overflow,
}

/// Largest number of seconds a `chrono::TimeDelta` can hold.
pub const TIME_DELTA_MAX_SECS: i64 = 9_223_372_036_854_775;

pub open spec fn from_option(r: Option<Timestamp>) -> DateEval {
    match r {
        Some(t) => DateEval::Value(t),
        None => DateEval::NoValue,
    }
}

/// Shift by `k` periods of `unit_secs` seconds: the product must fit an
/// `i64` and a `TimeDelta`.
pub open spec fn shift_seconds(t: Timestamp, k: int, unit_secs: int) -> DateEval {
    let secs = k * unit_secs;
    if secs < -TIME_DELTA_MAX_SECS || secs > TIME_DELTA_MAX_SECS {
        DateEval::Overflow
    } else {
        from_option(seconds_added(t, secs as i64))
    }
}

/// `Months::new(m as u32)`: the month count truncated to 32 bits.
pub open spec fn as_u32(m: int) -> u32 {
    (m % 0x1_0000_0000) as u32
}

/// Signed month shift.
pub open spec fn shift_months(t: Timestamp, m: int) -> DateEval {
    if m >= 0 {
        from_option(months_added(t, as_u32(m)))
    } else {
        from_option(months_subtracted(t, as_u32(-m)))
    }
}

pub open spec fn in_i64(x: int) -> bool {
    i64::MIN <= x <= i64::MAX
}

/// Add `n` periods of `unit` (`y M w d h H m s`).
pub open spec fn period_added(t: Timestamp, n: int, unit: char) -> DateEval {
    if unit == 'y' {
        if !in_i64(n * 12) {
            DateEval::Overflow
        } else {
            shift_months(t, n * 12)
        }
    } else if unit == 'M' {
        shift_months(t, n)
    } else if unit == 'w' {
        if !in_i64(n * 7) {
            DateEval::Overflow
        } else {
            shift_seconds(t, n * 7, 86400)
        }
    } else if unit == 'd' {
        shift_seconds(t, n, 86400)
    } else if unit == 'h' || unit == 'H' {
        shift_seconds(t, n, 3600)
    } else if unit == 'm' {
        shift_seconds(t, n, 60)
    } else if unit == 's' {
        shift_seconds(t, n, 1)
    } else {
        DateEval::NoValue
    }
}

/// Length of the run of ASCII digits at the start of `s`.
pub open spec fn digit_run(s: Seq<char>) -> nat
    decreases s.len(),
{
    if s.len() > 0 && is_ascii_digit(s[0]) {
        1 + digit_run(s.drop_first())
    } else {
        0
    }
}

/// Decimal value of a run of ASCII digits.
pub open spec fn digits_value(s: Seq<char>) -> int
    decreases s.len(),
{
    if s.len() == 0 {
        0
    } else {
        digits_value(s.drop_last()) * 10 + ((s.last() as int) - ('0' as int))
    }
}

/// Apply the leading run of `+<n><unit>` / `-<n><unit>` operators of `ops`
/// to `t`, stopping quietly at the first malformed operator.
pub open spec fn apply_ops(t: Timestamp, ops: Seq<char>) -> DateEval
    decreases ops.len(),
{
    if ops.len() == 0 || (ops[0] != '+' && ops[0] != '-') {
        DateEval::Value(t)
    } else {
        let rest = ops.drop_first();
        let k = digit_run(rest);
        let v = digits_value(rest.take(k as int));
        if k == 0 || v > i64::MAX || k >= rest.len() {
            DateEval::Value(t)
        } else {
            let n = if ops[0] == '+' {
                v
            } else {
                -v
            };
            match period_added(t, n, rest[k as int]) {
                DateEval::Value(t2) => apply_ops(t2, rest.skip(k as int + 1)),
                other => other,
            }
        }
    }
}

/// Round down to the start of a calendar unit (weeks start on Monday).
pub open spec fn rounded_down(t: Timestamp, unit: char) -> DateEval {
    match calendar_fields(t) {
        None => DateEval::NoValue,
        Some(f) => {
            if unit == 'y' {
                from_option(from_calendar(f.year, 1, 1, 0, 0, 0))
            } else if unit == 'M' {
                from_option(from_calendar(f.year, f.month, 1, 0, 0, 0))
            } else if unit == 'w' {
                match seconds_added(t, -(f.days_from_monday * 86400) as i64) {
                    None => DateEval::Overflow,
                    Some(monday) => match calendar_fields(monday) {
                        None => DateEval::NoValue,
                        Some(g) => from_option(from_calendar(g.year, g.month, g.day, 0, 0, 0)),
                    },
                }
            } else if unit == 'd' {
                from_option(from_calendar(f.year, f.month, f.day, 0, 0, 0))
            } else if unit == 'h' || unit == 'H' {
                from_option(from_calendar(f.year, f.month, f.day, f.hour, 0, 0))
            } else if unit == 'm' {
                from_option(from_calendar(f.year, f.month, f.day, f.hour, f.minute, 0))
            } else if unit == 's' {
                from_option(from_calendar(f.year, f.month, f.day, f.hour, f.minute, f.second))
            } else {
                DateEval::NoValue
            }
        },
    }
}

/// Position of the last `'/'` in `s`.
pub open spec fn last_slash(s: Seq<char>) -> Option<int> {
    if exists|i: int| 0 <= i < s.len() && s[i] == '/' {
        Some(choose|i: int| 0 <= i < s.len() && s[i] == '/' && forall|j: int| i < j < s.len() ==> s[j] != '/')
    } else {
        None
    }
}

/// Position of the first `"||"` in `s`.
pub open spec fn first_pipes(s: Seq<char>) -> Option<int> {
    if contains(s, "||"@) {
        Some(choose|i: int| crate::textutil::occurs_at(s, "||"@, i) && forall|j: int| 0 <= j < i ==> !crate::textutil::occurs_at(s, "||"@, j))
    } else {
        None
    }
}

/// An anchor date: RFC 3339, then `%Y-%m-%dT%H:%M:%S`, then `%Y-%m-%d`.
pub open spec fn anchor_date(s: Seq<char>) -> Option<Timestamp> {
    match rfc3339_parsed(s) {
        Some(t) => Some(t),
        None => match naive_datetime_parsed(s, "%Y-%m-%dT%H:%M:%S"@) {
            Some(t) => Some(t),
            None => naive_date_parsed(s, "%Y-%m-%d"@),
        },
    }
}

/// Evaluation of a date-math expression relative to `now`.
pub open spec fn date_math_eval(expr: Seq<char>, now: Timestamp) -> DateEval {
    let e = trim(expr);
    if e.len() == 0 {
        DateEval::NoValue
    } else {
        let (main, rounding) = match last_slash(e) {
            Some(i) => (e.take(i), Some(e.skip(i + 1))),
            None => (e, None::<Seq<char>>),
        };
        let start: Option<(Timestamp, Seq<char>)> = if starts_with(main, "now"@) {
            Some((now, main.skip(3)))
        } else {
            match first_pipes(main) {
                Some(i) => match anchor_date(main.take(i)) {
                    Some(d) => Some((d, main.skip(i + 2))),
                    None => None,
                },
                None => None,
            }
        };
        match start {
            None => DateEval::NoValue,
            Some((d, ops)) => match apply_ops(d, ops) {
                DateEval::Value(t) => match rounding {
                    Some(r) => if r.len() > 0 {
                        rounded_down(t, r[0])
                    } else {
                        DateEval::Value(t)
                    },
                    None => DateEval::Value(t),
                },
                other => other,
            },
        }
    }
}

/// The instant `resolve_date_expr` returns.
pub open spec fn date_math_value(expr: Seq<char>, now: Timestamp) -> Option<Timestamp> {
    match date_math_eval(expr, now) {
        DateEval::Value(t) => Some(t),
        _ => None,
    }
}

// ---------------------------------------------------------------------------
// Evaluation
// ---------------------------------------------------------------------------

fn shift_seconds_exec(t: Timestamp, k: i64, unit_secs: i64) -> (r: DateEval)
    requires
        1 <= unit_secs <= 86400,
    ensures
        r == shift_seconds(t, k as int, unit_secs as int),
{
    let limit = TIME_DELTA_MAX_SECS / unit_secs;
    if k > limit || k < -limit {
        proof {
            if k > limit {
                assert(k >= limit + 1);
                assert(k * unit_secs >= (limit + 1) * unit_secs) by (nonlinear_arith)
                    requires k >= limit + 1, unit_secs >= 1;
                assert((limit + 1) * unit_secs > TIME_DELTA_MAX_SECS) by (nonlinear_arith)
                    requires limit == TIME_DELTA_MAX_SECS / unit_secs, unit_secs >= 1;
            } else {
                assert(k <= -limit - 1);
                assert(k * unit_secs <= (-limit - 1) * unit_secs) by (nonlinear_arith)
                    requires k <= -limit - 1, unit_secs >= 1;
                assert((-limit - 1) * unit_secs < -TIME_DELTA_MAX_SECS) by (nonlinear_arith)
                    requires limit == TIME_DELTA_MAX_SECS / unit_secs, unit_secs >= 1;
            }
        }
        return DateEval::Overflow;
    }
    proof {
        assert(-TIME_DELTA_MAX_SECS <= k * unit_secs <= TIME_DELTA_MAX_SECS) by (nonlinear_arith)
            requires
                -limit <= k <= limit,
                limit == TIME_DELTA_MAX_SECS / unit_secs,
                unit_secs >= 1,
        ;
    }
    match add_seconds(t, k * unit_secs) {
        Some(x) => DateEval::Value(x),
        None => DateEval::NoValue,
    }
}

fn truncate_u32(m: i64) -> (r: u32)
    requires
        m >= 0,
    ensures
        r == as_u32(m as int),
{
    (m % 0x1_0000_0000i64) as u32
}

fn shift_months_exec(t: Timestamp, m: i64) -> (r: DateEval)
    requires
        m > i64::MIN,
    ensures
        r == shift_months(t, m as int),
{
    if m >= 0 {
        match add_months(t, truncate_u32(m)) {
            Some(x) => DateEval::Value(x),
            None => DateEval::NoValue,
        }
    } else {
        match sub_months(t, truncate_u32(-m)) {
            Some(x) => DateEval::Value(x),
            None => DateEval::NoValue,
        }
    }
}

fn period_added_exec(t: Timestamp, n: i64, unit: char) -> (r: DateEval)
    requires
        n > i64::MIN,
    ensures
        r == period_added(t, n as int, unit),
{
    if unit == 'y' {
        match n.checked_mul(12) {
            None => DateEval::Overflow,
            Some(m) => {
                assert(m > i64::MIN) by (nonlinear_arith)
                    requires m == n * 12, n > i64::MIN, in_i64(m as int);
                shift_months_exec(t, m)
            },
        }
    } else if unit == 'M' {
        shift_months_exec(t, n)
    } else if unit == 'w' {
        match n.checked_mul(7) {
            None => DateEval::Overflow,
            Some(k) => shift_seconds_exec(t, k, 86400),
        }
    } else if unit == 'd' {
        shift_seconds_exec(t, n, 86400)
    } else if unit == 'h' || unit == 'H' {
        shift_seconds_exec(t, n, 3600)
    } else if unit == 'm' {
        shift_seconds_exec(t, n, 60)
    } else if unit == 's' {
        shift_seconds_exec(t, n, 1)
    } else {
        DateEval::NoValue
    }
}

proof fn lemma_digit_run_bound(s: Seq<char>)
    ensures
        digit_run(s) <= s.len(),
        forall|i: int| 0 <= i < digit_run(s) ==> is_ascii_digit(#[trigger] s[i]),
        digit_run(s) < s.len() ==> !is_ascii_digit(s[digit_run(s) as int]),
    decreases s.len(),
{
    if s.len() > 0 && is_ascii_digit(s[0]) {
        lemma_digit_run_bound(s.drop_first());
        assert forall|i: int| 0 <= i < digit_run(s) implies is_ascii_digit(#[trigger] s[i]) by {
            if i > 0 {
                assert(s[i] == s.drop_first()[i - 1]);
            }
        }
    }
}

proof fn lemma_digits_value_nonneg(s: Seq<char>)
    requires
        forall|i: int| 0 <= i < s.len() ==> is_ascii_digit(#[trigger] s[i]),
    ensures
        digits_value(s) >= 0,
        s.len() > 0 ==> digits_value(s) >= digits_value(s.drop_last()),
    decreases s.len(),
{
    if s.len() > 0 {
        assert forall|i: int| 0 <= i < s.drop_last().len() implies is_ascii_digit(#[trigger] s.drop_last()[i]) by {
            assert(s.drop_last()[i] == s[i]);
        }
        lemma_digits_value_nonneg(s.drop_last());
        assert(is_ascii_digit(s.last()));
    }
}

proof fn lemma_digits_value_nonneg_pub(s: Seq<char>)
    requires
        forall|i: int| 0 <= i < s.len() ==> is_ascii_digit(#[trigger] s[i]),
    ensures
        digits_value(s) >= 0,
{
    lemma_digits_value_nonneg(s);
}

proof fn lemma_digits_value_mono(s: Seq<char>, a: int, b: int)
    requires
        0 <= a <= b <= s.len(),
        forall|i: int| 0 <= i < s.len() ==> is_ascii_digit(#[trigger] s[i]),
    ensures
        digits_value(s.take(a)) <= digits_value(s.take(b)),
    decreases b - a,
{
    if a < b {
        lemma_digits_value_mono(s, a, b - 1);
        let t = s.take(b);
        assert(t.drop_last() =~= s.take(b - 1));
        assert forall|i: int| 0 <= i < t.len() implies is_ascii_digit(#[trigger] t[i]) by {
            assert(t[i] == s[i]);
        }
        lemma_digits_value_nonneg(t);
    }
}

/// Parses the digit run at the start of `s` (which starts at `from`);
/// `None` when it exceeds `i64::MAX`.
fn parse_digits(s: &Vec<char>, from: usize, k: usize) -> (r: Option<i64>)
    requires
        from + k <= s.len(),
        forall|i: int| from <= i < from + k ==> is_ascii_digit(#[trigger] s@[i]),
    ensures
        match r {
            Some(v) => v as int == digits_value(s@.subrange(from as int, from + k)),
            None => digits_value(s@.subrange(from as int, from + k)) > i64::MAX,
        },
{
    let ghost d = s@.subrange(from as int, from + k);
    let mut v: i64 = 0;
    let mut j: usize = 0;
    proof {
        assert(d.take(0) =~= Seq::<char>::empty());
    }
    while j < k
        invariant
            from + k <= s.len(),
            d == s@.subrange(from as int, from + k),
            forall|i: int| from <= i < from + k ==> is_ascii_digit(#[trigger] s@[i]),
            j <= k,
            v as int == digits_value(d.take(j as int)),
            v >= 0,
        decreases k - j,
    {
        let c = s[from + j];
        assert(is_ascii_digit(s@[from + j]));
        let digit = (c as u32 - '0' as u32) as i64;
        proof {
            assert(d.take(j as int).len() == j);
            lemma_digits_value_nonneg_pub(d.take(j as int));
            assert(d[j as int] == s@[from + j]);
            assert(d.take(j + 1).drop_last() =~= d.take(j as int));
            assert(d.take(j + 1).last() == c);
        }
        proof {
            assert(digits_value(d.take(j + 1)) == digits_value(d.take(j as int)) * 10 + digit);
        }
        let next = match v.checked_mul(10) {
            Some(x) => x.checked_add(digit),
            None => None,
        };
        match next {
            Some(x) => {
                v = x;
            },
            None => {
                proof {
                    assert(v * 10 + digit > i64::MAX) by (nonlinear_arith)
                        requires v >= 0, digit >= 0, v * 10 > i64::MAX || v * 10 + digit > i64::MAX;
                    assert forall|i: int| 0 <= i < d.len() implies is_ascii_digit(#[trigger] d[i]) by {
                        assert(d[i] == s@[from + i]);
                    }
                    lemma_digits_value_mono(d, j + 1, k as int);
                    assert(d.take(k as int) =~= d);
                }
                return None;
            },
        }
        j = j + 1;
    }
    proof {
        assert(d.take(k as int) =~= d);
    }
    Some(v)
}

fn apply_ops_exec(t: Timestamp, s: &Vec<char>, from: usize) -> (r: DateEval)
    requires
        from <= s.len(),
    ensures
        r == apply_ops(t, s@.skip(from as int)),
    decreases s.len() - from,
{
    let ghost ops = s@.skip(from as int);
    if from == s.len() || (s[from] != '+' && s[from] != '-') {
        return DateEval::Value(t);
    }
    let ghost rest = ops.drop_first();
    proof {
        assert(rest =~= s@.skip(from + 1));
        lemma_digit_run_bound(rest);
    }
    let mut k: usize = 0;
    while from + 1 + k < s.len() && ascii_digit(s[from + 1 + k])
        invariant
            from < s.len(),
            rest == s@.skip(from + 1),
            k <= digit_run(rest),
            from + 1 + k <= s.len(),
            forall|i: int| from + 1 <= i < from + 1 + k ==> is_ascii_digit(#[trigger] s@[i]),
        decreases s.len() - k,
    {
        proof {
            lemma_digit_run_bound(rest);
            assert(rest[k as int] == s@[from + 1 + k]);
            if k == digit_run(rest) {
                assert(!is_ascii_digit(rest[k as int]));
            }
        }
        k = k + 1;
    }
    proof {
        lemma_digit_run_bound(rest);
        if from + 1 + k < s.len() {
            assert(rest[k as int] == s@[from + 1 + k]);
        }
        assert forall|i: int| 0 <= i < k implies is_ascii_digit(#[trigger] rest[i]) by {
            assert(rest[i] == s@[from + 1 + i]);
        }
        if k < digit_run(rest) {
            assert(is_ascii_digit(rest[k as int]));
        }
        assert(k == digit_run(rest));
        assert(rest.take(k as int) =~= s@.subrange(from + 1, from + 1 + k));
    }
    if k == 0 {
        return DateEval::Value(t);
    }
    let v = match parse_digits(s, from + 1, k) {
        Some(v) => v,
        None => {
            return DateEval::Value(t);
        },
    };
    if from + 1 + k >= s.len() {
        return DateEval::Value(t);
    }
    let unit = s[from + 1 + k];
    assert(unit == rest[k as int]);
    proof {
        lemma_digits_value_nonneg(rest.take(k as int));
    }
    let n: i64 = if s[from] == '+' {
        v
    } else {
        -v
    };
    match period_added_exec(t, n, unit) {
        DateEval::Value(t2) => {
            proof {
                assert(rest.skip(k + 1) =~= s@.skip(from + 2 + k));
            }
            apply_ops_exec(t2, s, from + 2 + k)
        },
        other => other,
    }
}

fn rounded_down_exec(t: Timestamp, unit: char) -> (r: DateEval)
    ensures
        r == rounded_down(t, unit),
{
    let f = match fields_of(t) {
        None => {
            return DateEval::NoValue;
        },
        Some(f) => f,
    };
    let r = if unit == 'y' {
        at_calendar(f.year, 1, 1, 0, 0, 0)
    } else if unit == 'M' {
        at_calendar(f.year, f.month, 1, 0, 0, 0)
    } else if unit == 'w' {
        if f.days_from_monday as u64 * 86400 > i64::MAX as u64 {
            proof {
                assert(false) by (nonlinear_arith)
                    requires f.days_from_monday as u64 * 86400 > i64::MAX as u64, f.days_from_monday <= u32::MAX;
            }
            return DateEval::Overflow;
        }
        let back = -((f.days_from_monday as i64) * 86400);
        match add_seconds(t, back) {
            None => {
                return DateEval::Overflow;
            },
            Some(monday) => match fields_of(monday) {
                None => {
                    return DateEval::NoValue;
                },
                Some(g) => at_calendar(g.year, g.month, g.day, 0, 0, 0),
            },
        }
    } else if unit == 'd' {
        at_calendar(f.year, f.month, f.day, 0, 0, 0)
    } else if unit == 'h' || unit == 'H' {
        at_calendar(f.year, f.month, f.day, f.hour, 0, 0)
    } else if unit == 'm' {
        at_calendar(f.year, f.month, f.day, f.hour, f.minute, 0)
    } else if unit == 's' {
        at_calendar(f.year, f.month, f.day, f.hour, f.minute, f.second)
    } else {
        return DateEval::NoValue;
    };
    match r {
        Some(x) => DateEval::Value(x),
        None => DateEval::NoValue,
    }
}

fn parse_anchor_date(s: &Vec<char>) -> (r: Option<Timestamp>)
    ensures
        r == anchor_date(s@),
{
    let text = string_from_chars(s);
    match parse_rfc3339(text.as_str()) {
        Some(t) => Some(t),
        None => match parse_naive_datetime(text.as_str(), "%Y-%m-%dT%H:%M:%S") {
            Some(t) => Some(t),
            None => parse_naive_date(text.as_str(), "%Y-%m-%d"),
        },
    }
}

/// Evaluate a date-math expression relative to `now`, reporting overflow.
pub fn eval_date_math(expr: &str, now: Timestamp) -> (r: DateEval)
    ensures
        r == date_math_eval(expr@, now),
{
    let e = trim_chars(&chars_of(expr));
    if e.len() == 0 {
        return DateEval::NoValue;
    }
    // Split off the rounding suffix at the last '/'.
    let mut p: usize = e.len();
    let mut found = false;
    while p > 0 && !found
        invariant
            p <= e.len(),
            found ==> p < e.len() && e@[p as int] == '/',
            forall|j: int| (if found { p as int } else { p - 1 }) < j < e.len() ==> e@[j] != '/',
        decreases p + (if found { 0int } else { 1 }),
    {
        if e[p - 1] == '/' {
            p = p - 1;
            found = true;
        } else {
            p = p - 1;
        }
    }
    let (main, rounding) = if found {
        proof {
            let i = choose|i: int| 0 <= i < e@.len() && e@[i] == '/' && forall|j: int| i < j < e@.len() ==> e@[j] != '/';
            if i < p {
                assert(e@[p as int] == '/');
            }
            if i > p {
                assert(e@[i] == '/');
            }
            assert(i == p);
        }
        (slice_chars(&e, 0, p), Some(slice_chars(&e, p + 1, e.len())))
    } else {
        proof {
            assert(!(exists|i: int| 0 <= i < e@.len() && e@[i] == '/'));
        }
        (slice_chars(&e, 0, e.len()), None)
    };
    proof {
        assert(e@.take(e@.len() as int) =~= e@);
        if found {
            assert(main@ =~= e@.take(p as int));
        }
    }
    let (anchor, ops_from) = if has_prefix(&main, "now") {
        proof {
            reveal_strlit("now");
        }
        (now, 3usize)
    } else {
        // Find the first "||".
        let mut i: usize = 0;
        let mut at: Option<usize> = None;
        proof {
            reveal_strlit("||");
        }
        while i < main.len() && at.is_none()
            invariant
                i <= main.len(),
                at matches Some(a) ==> crate::textutil::occurs_at(main@, "||"@, a as int) && forall|j: int| 0 <= j < a ==> !crate::textutil::occurs_at(main@, "||"@, j),
                at is None ==> forall|j: int| 0 <= j < i ==> !crate::textutil::occurs_at(main@, "||"@, j),
            decreases main.len() - i + (if at is None { 1int } else { 0int }),
        {
            proof {
                reveal_strlit("||");
            }
            if i + 1 < main.len() && main[i] == '|' && main[i + 1] == '|' {
                assert(main@.subrange(i as int, i + 2) =~= "||"@);
                at = Some(i);
            } else {
                proof {
                    if crate::textutil::occurs_at(main@, "||"@, i as int) {
                        assert(main@.subrange(i as int, i + 2)[0] == main@[i as int]);
                        assert(main@.subrange(i as int, i + 2)[1] == main@[i + 1]);
                    }
                }
                i = i + 1;
            }
        }
        match at {
            None => {
                proof {
                    assert forall|j: int| 0 <= j implies !crate::textutil::occurs_at(main@, "||"@, j) by {}
                    assert(!contains(main@, "||"@));
                }
                return DateEval::NoValue;
            },
            Some(a) => {
                proof {
                    assert(contains(main@, "||"@));
                    let c = choose|c: int| crate::textutil::occurs_at(main@, "||"@, c) && forall|j: int| 0 <= j < c ==> !crate::textutil::occurs_at(main@, "||"@, j);
                    assert(c == a);
                }
                let date_part = slice_chars(&main, 0, a);
                assert(date_part@ =~= main@.take(a as int));
                match parse_anchor_date(&date_part) {
                    Some(d) => (d, a + 2),
                    None => {
                        return DateEval::NoValue;
                    },
                }
            },
        }
    };
    let applied = apply_ops_exec(anchor, &main, ops_from);
    match applied {
        DateEval::Value(t) => match rounding {
            Some(r) => {
                if r.len() > 0 {
                    rounded_down_exec(t, r[0])
                } else {
                    DateEval::Value(t)
                }
            },
            None => DateEval::Value(t),
        },
        other => other,
    }
}

/// Whether evaluating `expr` at `now` stays within the periods chrono can
/// build (the evaluation never overflows).
pub open spec fn date_math_ok(expr: Seq<char>, now: Timestamp) -> bool {
    date_math_eval(expr, now) != DateEval::Overflow
}

/// Core date-math evaluator parameterized by `now`; `None` when `expr` is
/// not recognized date-math (or names an unknown unit, or leaves chrono's
/// range).
pub fn resolve_date_expr(expr: &str, now: Timestamp) -> (r: Option<Timestamp>)
    requires
        date_math_ok(expr@, now),
    ensures
        r == date_math_value(expr@, now),
{
    match eval_date_math(expr, now) {
        DateEval::Value(t) => Some(t),
        _ => None,
    }
}

/// True when `value` looks like date-math: after trimming it starts with
/// `now` or contains `||`.
pub open spec fn date_math_like(value: Seq<char>) -> bool {
    let v = trim(value);
    starts_with(v, "now"@) || contains(v, "||"@)
}

/// Whether `value` looks like date-math (cheap pre-check).
pub fn looks_like_date_math(value: &str) -> (r: bool)
    ensures
        r == date_math_like(value@),
{
    let v = trim_chars(&chars_of(value));
    has_prefix(&v, "now") || contains_lit(&v, "||")
}

/// Resolve `value` relative to `now` to an RFC 3339 UTC string with
/// milliseconds; the input unchanged when it is not recognized date-math.
/// `None` when the resolved instant cannot be written.
pub fn resolve_date_math_at(value: &str, now: Timestamp) -> (r: Option<String>)
    requires
        date_math_ok(value@, now),
    ensures
        crate::doc_fields::opt_view(r) == match date_math_value(value@, now) {
            Some(t) => rfc3339_millis(t),
            None => Some(value@),
        },
{
    match resolve_date_expr(value, now) {
        Some(t) => format_rfc3339_millis(t),
        None => Some(string_from_chars(&chars_of(value))),
    }
}

/// What `resolve_date_math` gives when the clock reads `now`: `None` when
/// the expression leaves the range that can be built, else the resolved
/// instant as RFC 3339 with milliseconds (`None` when it cannot be
/// written), or the input unchanged when it is not recognized date-math.
pub open spec fn resolved_at(value: Seq<char>, now: Timestamp, r: Option<Seq<char>>) -> bool {
    if date_math_ok(value, now) {
        r == match date_math_value(value, now) {
            Some(t) => rfc3339_millis(t),
            None => Some(value),
        }
    } else {
        r is None
    }
}

/// Resolve an ES date-math expression against the current time; the input
/// unchanged when it is not recognized date-math.  `None` when the
/// expression names a period too large to build.
pub fn resolve_date_math(value: &str) -> (r: Option<String>)
    ensures
        exists|now: Timestamp|
            #[trigger] resolved_at(value@, now, crate::doc_fields::opt_view(r)),
        !date_math_like(value@) ==> (r matches Some(s) && s@ == value@),
{
    let now = utc_now();
    proof {
        if !date_math_like(value@) {
            lemma_not_like_is_not_date_math(value@, now);
        }
    }
    let r = match eval_date_math(value, now) {
        DateEval::Overflow => None,
        _ => resolve_date_math_at(value, now),
    };
    assert(resolved_at(value@, now, crate::doc_fields::opt_view(r)));
    r
}

/// A sequence with a `/` has a last one.
proof fn lemma_last_slash_exists(e: Seq<char>)
    requires
        exists|i: int| 0 <= i < e.len() && e[i] == '/',
    ensures
        exists|i: int| 0 <= i < e.len() && e[i] == '/' && forall|j: int| i < j < e.len() ==> e[j] != '/',
    decreases e.len(),
{
    if e.last() == '/' {
        assert(e[e.len() - 1] == '/');
        assert(forall|j: int| e.len() - 1 < j < e.len() ==> e[j] != '/');
    } else {
        let p = e.drop_last();
        let k = choose|i: int| 0 <= i < e.len() && e[i] == '/';
        assert(k < e.len() - 1);
        assert(p[k] == '/');
        lemma_last_slash_exists(p);
        let i = choose|i: int| 0 <= i < p.len() && p[i] == '/' && forall|j: int| i < j < p.len() ==> p[j] != '/';
        assert(e[i] == '/');
        assert forall|j: int| i < j < e.len() implies e[j] != '/' by {
            if j < p.len() {
                assert(p[j] == e[j]);
            }
        }
    }
}

/// A prefix of `e` keeps no occurrence or start that `e` lacks.
proof fn lemma_prefix_keeps_absence(e: Seq<char>, i: int, p: Seq<char>)
    requires
        0 <= i <= e.len(),
    ensures
        starts_with(e.take(i), p) ==> starts_with(e, p),
        contains(e.take(i), p) ==> contains(e, p),
{
    let m = e.take(i);
    if starts_with(m, p) {
        assert(e.subrange(0, p.len() as int) =~= m.subrange(0, p.len() as int));
    }
    if contains(m, p) {
        let j = choose|j: int| crate::textutil::occurs_at(m, p, j);
        assert(e.subrange(j, j + p.len()) =~= m.subrange(j, j + p.len()));
        assert(crate::textutil::occurs_at(e, p, j));
    }
}

/// Law: a value that does not look like date-math is not date-math, so
/// resolving it gives it back unchanged.
pub proof fn lemma_not_like_is_not_date_math(v: Seq<char>, now: Timestamp)
    requires
        !date_math_like(v),
    ensures
        date_math_eval(v, now) == DateEval::NoValue,
        date_math_ok(v, now),
        date_math_value(v, now) is None,
{
    let e = trim(v);
    if e.len() > 0 {
        match last_slash(e) {
            Some(i) => {
                lemma_last_slash_exists(e);
                lemma_prefix_keeps_absence(e, i, "now"@);
                lemma_prefix_keeps_absence(e, i, "||"@);
                let main = e.take(i);
                if first_pipes(main) is Some {
                    assert(contains(main, "||"@));
                }
            },
            None => {
                if first_pipes(e) is Some {
                    assert(contains(e, "||"@));
                }
            },
        }
    }
}

/// Law: rounding goes down to the start of the unit: the start of the year,
/// month, day, hour, minute or second the instant falls in (by chrono's
/// calendar fields of the instant), `H` rounding as `h` does; and a week
/// rounds to the start of the day of its Monday.
pub proof fn lemma_rounding_units(t: Timestamp, f: CalendarFields)
    requires
        calendar_fields(t) == Some(f),
    ensures
        rounded_down(t, 'y') == from_option(from_calendar(f.year, 1, 1, 0, 0, 0)),
        rounded_down(t, 'M') == from_option(from_calendar(f.year, f.month, 1, 0, 0, 0)),
        rounded_down(t, 'd') == from_option(from_calendar(f.year, f.month, f.day, 0, 0, 0)),
        rounded_down(t, 'h') == from_option(from_calendar(f.year, f.month, f.day, f.hour, 0, 0)),
        rounded_down(t, 'H') == rounded_down(t, 'h'),
        rounded_down(t, 'm') == from_option(from_calendar(f.year, f.month, f.day, f.hour, f.minute, 0)),
        rounded_down(t, 's') == from_option(
            from_calendar(f.year, f.month, f.day, f.hour, f.minute, f.second),
        ),
        forall|monday: Timestamp|
            seconds_added(t, -(f.days_from_monday * 86400) as i64) == Some(monday) ==> rounded_down(t, 'w')
                == rounded_down(monday, 'd'),
{
}

/// Law: an instant chrono cannot give calendar fields for rounds to no value,
/// whatever the unit.
pub proof fn lemma_rounding_without_fields(t: Timestamp, unit: char)
    requires
        calendar_fields(t) is None,
    ensures
        rounded_down(t, unit) == DateEval::NoValue,
{
}

/// Law: the date-math units are multiples of one another: a week is seven
/// days, a day 24 hours, an hour (`h` or `H`) 60 minutes, a minute 60
/// seconds, and a year twelve months (when twelve times the count fits in
/// `i64`).
pub proof fn lemma_period_units(t: Timestamp, n: int)
    ensures
        period_added(t, n, 'w') == period_added(t, 7 * n, 'd'),
        period_added(t, n, 'd') == period_added(t, 24 * n, 'h'),
        period_added(t, n, 'H') == period_added(t, n, 'h'),
        period_added(t, n, 'h') == period_added(t, 60 * n, 'm'),
        period_added(t, n, 'm') == period_added(t, 60 * n, 's'),
        in_i64(12 * n) ==> period_added(t, n, 'y') == period_added(t, 12 * n, 'M'),
{
    assert(7 * n * 86400 == n * 7 * 86400) by (nonlinear_arith);
    assert(n * 86400 == 24 * n * 3600) by (nonlinear_arith);
    assert(n * 3600 == 60 * n * 60) by (nonlinear_arith);
    assert(n * 60 == 60 * n * 1) by (nonlinear_arith);
    assert(n * 12 == 12 * n);
    if !in_i64(n * 7) {
        assert(7 * n * 86400 < -TIME_DELTA_MAX_SECS || 7 * n * 86400 > TIME_DELTA_MAX_SECS) by (nonlinear_arith)
            requires
                !in_i64(n * 7),
                TIME_DELTA_MAX_SECS < i64::MAX,
        ;
    }
}

/// Law: a shift in seconds is chrono's `checked_add_signed` by that many
/// seconds, or an overflow when the count is beyond what a `TimeDelta` holds.
pub proof fn lemma_period_seconds(t: Timestamp, n: int)
    ensures
        (-TIME_DELTA_MAX_SECS <= n <= TIME_DELTA_MAX_SECS) ==> period_added(t, n, 's') == from_option(
            seconds_added(t, n as i64),
        ),
        (n < -TIME_DELTA_MAX_SECS || n > TIME_DELTA_MAX_SECS) ==> period_added(t, n, 's') == DateEval::Overflow,
{
}

} // verus!
