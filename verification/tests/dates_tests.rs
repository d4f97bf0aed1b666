use dispo_rows::dates::{
    calculate_tolerance, calculate_tolerance_middle_date, difference_in_minutes, from_ymd_hm,
    middle_between_dates, parse_datetime, DateTime,
};

fn dt(y: u64, mo: u64, d: u64, h: u64, mi: u64) -> DateTime {
    from_ymd_hm(y, mo, d, h, mi).unwrap()
}

#[test]
fn epoch_is_zero() {
    assert_eq!(dt(1970, 1, 1, 0, 0).secs, 0);
    assert_eq!(DateTime::epoch().secs, 0);
}

#[test]
fn seconds_count_forward_and_backward() {
    assert_eq!(dt(1970, 1, 1, 0, 1).secs, 60);
    assert_eq!(dt(1970, 1, 2, 0, 0).secs, 86400);
    assert_eq!(dt(1969, 12, 31, 23, 59).secs, -60);
    // A known timestamp: 2024-01-01 00:00 UTC.
    assert_eq!(dt(2024, 1, 1, 0, 0).secs, 1704067200);
}

#[test]
fn calendar_validity() {
    assert!(from_ymd_hm(2024, 2, 29, 0, 0).is_some());
    assert!(from_ymd_hm(2023, 2, 29, 0, 0).is_none());
    assert!(from_ymd_hm(1900, 2, 29, 0, 0).is_none());
    assert!(from_ymd_hm(2000, 2, 29, 0, 0).is_some());
    assert!(from_ymd_hm(2024, 13, 1, 0, 0).is_none());
    assert!(from_ymd_hm(2024, 4, 31, 0, 0).is_none());
    assert!(from_ymd_hm(2024, 1, 1, 24, 0).is_none());
    assert!(from_ymd_hm(2024, 1, 1, 0, 60).is_none());
    assert!(from_ymd_hm(10000, 1, 1, 0, 0).is_none());
}

#[test]
fn parse_the_fixed_template() {
    assert_eq!(parse_datetime("01/01/2024 08:00"), Some(dt(2024, 1, 1, 8, 0)));
    assert_eq!(parse_datetime("1/1/2024 8:00"), Some(dt(2024, 1, 1, 8, 0)));
    assert_eq!(parse_datetime("12/31/9999 23:59"), Some(dt(9999, 12, 31, 23, 59)));
    // Numeric fields tolerate leading whitespace.
    assert_eq!(parse_datetime(" 01/01/2024  08:00"), Some(dt(2024, 1, 1, 8, 0)));
}

#[test]
fn parse_rejects_what_the_template_excludes() {
    assert_eq!(parse_datetime(""), None);
    assert_eq!(parse_datetime("13/01/2024 08:00"), None);
    assert_eq!(parse_datetime("02/30/2024 10:00"), None);
    assert_eq!(parse_datetime("01/01/2024 08:00:00"), None);
    assert_eq!(parse_datetime("01/01/2024 08:00 "), None);
    assert_eq!(parse_datetime("2024-01-01 08:00"), None);
    assert_eq!(parse_datetime("01/01/2024"), None);
    assert_eq!(parse_datetime("010/01/2024 08:00"), None);
}

#[test]
fn midpoint_is_symmetric_and_idempotent() {
    let a = dt(2024, 1, 1, 8, 0);
    let b = dt(2024, 1, 1, 9, 0);
    assert_eq!(middle_between_dates(a, b), middle_between_dates(b, a));
    assert_eq!(middle_between_dates(a, a), a);
    assert_eq!(middle_between_dates(a, b), dt(2024, 1, 1, 8, 30));
}

#[test]
fn difference_truncates_toward_zero() {
    let a = dt(2024, 1, 1, 8, 0);
    let b = dt(2024, 1, 1, 9, 30);
    assert_eq!(difference_in_minutes(b, a), 90);
    assert_eq!(difference_in_minutes(a, b), -90);
    assert_eq!(difference_in_minutes(a, a), 0);
}

#[test]
fn tolerance_buckets() {
    let base = dt(2024, 1, 1, 8, 0);
    let win = |mins: u64| dt(2024, 1, 1, 8 + mins / 60, mins % 60);
    // Half-window distances: 0, 10, 15, 16, 30, 45, 60, 61 minutes.
    assert_eq!(calculate_tolerance(base, win(0)), 0);
    assert_eq!(calculate_tolerance(base, win(20)), 15);
    assert_eq!(calculate_tolerance(base, win(30)), 15);
    assert_eq!(calculate_tolerance(base, win(32)), 30);
    assert_eq!(calculate_tolerance(base, win(60)), 30);
    assert_eq!(calculate_tolerance(base, win(90)), 60);
    assert_eq!(calculate_tolerance(base, win(120)), 60);
    assert_eq!(calculate_tolerance(base, win(122)), 120);
}

#[test]
fn tolerance_is_symmetric_and_bucketed() {
    let allowed = [0, 15, 30, 60, 120];
    let a = dt(2024, 3, 5, 10, 0);
    for m in [0u64, 1, 14, 15, 16, 29, 30, 31, 59, 60, 61, 600] {
        let b = dt(2024, 3, 5, 10 + m / 60, m % 60);
        let t1 = calculate_tolerance(a, b);
        let t2 = calculate_tolerance(b, a);
        assert_eq!(t1, t2);
        assert!(allowed.contains(&t1));
    }
}

#[test]
fn tolerance_from_middle_date() {
    let edge = dt(2024, 1, 1, 8, 0);
    let middle = dt(2024, 1, 1, 8, 30);
    assert_eq!(calculate_tolerance_middle_date(edge, middle), 30);
    assert_eq!(calculate_tolerance_middle_date(middle, edge), 30);
    assert_eq!(calculate_tolerance_middle_date(edge, edge), 0);
}

#[test]
fn calendar_display() {
    assert_eq!(dt(2024, 1, 1, 8, 30).to_display_string(), "2024-01-01 08:30:00");
    assert_eq!(dt(1970, 1, 1, 0, 0).to_display_string(), "1970-01-01 00:00:00");
    assert_eq!(dt(33, 2, 3, 4, 5).to_display_string(), "0033-02-03 04:05:00");
    // The midpoint of a one-minute window lands on a half minute.
    let m = middle_between_dates(dt(2024, 1, 1, 8, 0), dt(2024, 1, 1, 8, 1));
    assert_eq!(m.to_display_string(), "2024-01-01 08:00:30");
    // Outside the calendar's years the raw second count is shown.
    let far = DateTime { secs: -70000000000 };
    assert_eq!(far.to_display_string(), "-70000000000s");
}

#[test]
fn calendar_components_round_trip() {
    let d = dt(2024, 2, 29, 23, 59);
    assert_eq!(d.to_calendar(), Some((2024, 2, 29, 23, 59, 0)));
    let m = middle_between_dates(dt(2000, 6, 15, 0, 0), dt(2000, 6, 15, 0, 1));
    assert_eq!(m.to_calendar(), Some((2000, 6, 15, 0, 0, 30)));
    assert_eq!(DateTime { secs: -70000000000 }.to_calendar(), None);
}
