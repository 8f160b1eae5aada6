use chrono::{DateTime, Duration, TimeZone, Utc};
use prism::date_math::{looks_like_date_math, resolve_date_expr, resolve_date_math, resolve_date_math_at, Timestamp};

fn ts(dt: DateTime<Utc>) -> Timestamp {
    Timestamp { secs: dt.timestamp(), nanos: dt.timestamp_subsec_nanos() }
}

fn fixed_now() -> DateTime<Utc> {
    DateTime::parse_from_rfc3339("2026-08-13T12:30:45Z").unwrap().with_timezone(&Utc)
}

#[test]
fn now_passthrough() {
    let now = fixed_now();
    assert_eq!(resolve_date_expr("now", ts(now)).unwrap(), ts(now));
}

#[test]
fn offsets() {
    let now = fixed_now();
    assert_eq!(resolve_date_expr("now-15m", ts(now)).unwrap(), ts(now - Duration::minutes(15)));
    assert_eq!(resolve_date_expr("now+1h", ts(now)).unwrap(), ts(now + Duration::hours(1)));
    assert_eq!(resolve_date_expr("now-1d", ts(now)).unwrap(), ts(now - Duration::days(1)));
    assert_eq!(resolve_date_expr("now+30s", ts(now)).unwrap(), ts(now + Duration::seconds(30)));
}

#[test]
fn rounding() {
    let now = ts(fixed_now());
    let day_start = Utc.with_ymd_and_hms(2026, 8, 13, 0, 0, 0).single().unwrap();
    assert_eq!(resolve_date_expr("now/d", now).unwrap(), ts(day_start));
    let yest = Utc.with_ymd_and_hms(2026, 8, 12, 0, 0, 0).single().unwrap();
    assert_eq!(resolve_date_expr("now-1d/d", now).unwrap(), ts(yest));
    let hour_start = Utc.with_ymd_and_hms(2026, 8, 13, 12, 0, 0).single().unwrap();
    assert_eq!(resolve_date_expr("now/h", now).unwrap(), ts(hour_start));
    let month_start = Utc.with_ymd_and_hms(2026, 8, 1, 0, 0, 0).single().unwrap();
    assert_eq!(resolve_date_expr("now/M", now).unwrap(), ts(month_start));
}

#[test]
fn anchor() {
    let now = ts(Utc::now());
    let d = resolve_date_expr("2024-01-01||+1d", now).unwrap();
    assert_eq!(d, ts(Utc.with_ymd_and_hms(2024, 1, 2, 0, 0, 0).single().unwrap()));
    let d2 = resolve_date_expr("2024-06-15||-1M", now).unwrap();
    assert_eq!(d2, ts(Utc.with_ymd_and_hms(2024, 5, 15, 0, 0, 0).single().unwrap()));
}

#[test]
fn not_date_math() {
    let now = ts(Utc::now());
    assert_eq!(resolve_date_expr("2024-01-01", now), None);
    assert_eq!(resolve_date_expr("42", now), None);
    assert_eq!(resolve_date_expr("active", now), None);
    assert_eq!(resolve_date_expr("", now), None);
}

#[test]
fn resolve_date_math_produces_rfc3339() {
    let s = resolve_date_math("now-15m").unwrap();
    assert!(!s.contains("now"));
    assert!(s.contains('T'));
    assert!(s.ends_with('Z'));
}

#[test]
fn resolve_date_math_passes_through_non_math() {
    assert_eq!(resolve_date_math("42").unwrap(), "42");
    assert_eq!(resolve_date_math("7.14.1").unwrap(), "7.14.1");
    assert_eq!(resolve_date_math("active").unwrap(), "active");
    assert_eq!(resolve_date_math("*").unwrap(), "*");
    assert_eq!(resolve_date_math("2024-01-01").unwrap(), "2024-01-01");
}

#[test]
fn looks_like_helper() {
    assert!(looks_like_date_math("now"));
    assert!(looks_like_date_math("now-15m"));
    assert!(looks_like_date_math("2024-01-01||+1d"));
    assert!(!looks_like_date_math("42"));
    assert!(!looks_like_date_math("7.14.1"));
    assert!(!looks_like_date_math("2024-01-01"));
}

#[test]
fn date_math_formats_with_milliseconds() {
    let now = ts(fixed_now());
    assert_eq!(resolve_date_math_at("now-15m", now).unwrap(), "2026-08-13T12:15:45.000Z");
    assert_eq!(resolve_date_math_at("now/w", now).unwrap(), "2026-08-10T00:00:00.000Z");
    assert_eq!(resolve_date_math_at("now/y", now).unwrap(), "2026-01-01T00:00:00.000Z");
}

#[test]
fn date_math_unknown_unit_is_not_date_math() {
    let now = ts(fixed_now());
    assert_eq!(resolve_date_expr("now-3q", now), None);
    assert_eq!(resolve_date_math_at("now-3q", now).unwrap(), "now-3q");
}

#[test]
fn date_math_law_offset_then_undo() {
    let now = ts(fixed_now());
    let back = resolve_date_expr("now-2h", now).unwrap();
    let fwd = resolve_date_expr("now+2h", back).unwrap();
    assert_eq!(fwd, now);
}

#[test]
fn date_math_overflowing_period_gives_none() {
    assert_eq!(resolve_date_math("now-9999999999999999d"), None);
}
