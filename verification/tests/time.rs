use alarm_at_game_end::time::{
    format_alarm_list_datetime, format_datetime, format_expiry_datetime, format_time,
    local_datetime_from_unix, LocalDateTime, FIRST_DAY, FIRST_SECOND, LAST_DAY, LAST_SECOND,
};
use chrono::{DateTime, Local, NaiveDate, TimeZone, Utc};

fn at(unix_seconds: i64, nanos: u32, offset: i32) -> LocalDateTime {
    LocalDateTime::from_parts(unix_seconds, nanos, offset).expect("a time of the calendar")
}

fn local(value: DateTime<Local>) -> LocalDateTime {
    at(
        value.timestamp(),
        value.timestamp_subsec_nanos(),
        value.offset().local_minus_utc(),
    )
}

#[test]
fn alarm_list_datetime_uses_time_then_european_date() {
    let value = Local.with_ymd_and_hms(2026, 9, 1, 7, 5, 30).unwrap();

    assert_eq!(format_alarm_list_datetime(local(value)), "07:05 01-09-2026");
}

#[test]
fn times_in_every_form() {
    let value = at(1_788_264_005, 0, 5400);

    assert_eq!(format_datetime(value), "2026-09-01 13:30:05");
    assert_eq!(format_alarm_list_datetime(value), "13:30 01-09-2026");
    assert_eq!(format_expiry_datetime(value), "13:30, 01-09-2026");
    assert_eq!(format_time(value), "13:30:05");
    assert_eq!(value.to_rfc3339(), "2026-09-01T13:30:05+01:30");
    assert_eq!(
        at(0, 1, -3600).to_rfc3339(),
        "1969-12-31T23:00:00.000000001-01:00"
    );
}

#[test]
fn only_times_of_the_calendar_are_made() {
    assert_eq!(
        DateTime::<Utc>::MIN_UTC.timestamp(),
        FIRST_SECOND
    );
    assert_eq!(DateTime::<Utc>::MAX_UTC.timestamp(), LAST_SECOND);
    assert_eq!(
        NaiveDate::MIN
            .signed_duration_since(NaiveDate::from_ymd_opt(1970, 1, 1).unwrap())
            .num_days(),
        FIRST_DAY
    );
    assert_eq!(
        NaiveDate::MAX
            .signed_duration_since(NaiveDate::from_ymd_opt(1970, 1, 1).unwrap())
            .num_days(),
        LAST_DAY
    );

    assert!(LocalDateTime::from_parts(LAST_SECOND, 999_999_999, 0).is_some());
    assert!(LocalDateTime::from_parts(LAST_SECOND + 1, 0, 0).is_none());
    assert!(LocalDateTime::from_parts(FIRST_SECOND, 0, 0).is_some());
    assert!(LocalDateTime::from_parts(FIRST_SECOND - 1, 0, 0).is_none());
    assert!(LocalDateTime::from_parts(0, 2_000_000_000, 0).is_none());
    assert!(LocalDateTime::from_parts(0, 0, 86_400).is_none());
    assert!(LocalDateTime::from_parts(0, 0, -86_400).is_none());
}

#[test]
fn parts_are_kept() {
    assert_eq!(at(12, 34, 56).parts(), (12, 34, 56));
}

#[test]
fn order_and_equality_go_by_the_instant() {
    let one = at(100, 5, 0);
    let same = at(100, 5, 3600);
    let later = at(100, 6, -3600);

    assert!(one == same);
    assert!(one.same_instant(same));
    assert!(one != later);
    assert!(!one.before(same));
    assert!(one.before(later));
    assert!(!later.before(one));
    assert!(at(99, 7, 0).before(one));
}

#[test]
fn unix_times_become_local() {
    let made = local_datetime_from_unix(1_788_264_000).expect("a time");

    assert_eq!(
        made.parts(),
        local(
            DateTime::<Utc>::from_timestamp(1_788_264_000, 0)
                .unwrap()
                .with_timezone(&Local)
        )
        .parts()
    );
    assert!(local_datetime_from_unix(LAST_SECOND + 1).is_none());
    assert!(local_datetime_from_unix(i64::MIN).is_none());
}

#[test]
fn wall_clock_may_leave_the_calendar() {
    let last = at(LAST_SECOND, 0, 3600);
    let first = at(FIRST_SECOND, 0, -60);

    assert_eq!(format_time(last), "00:59:59");
    assert_eq!(format_expiry_datetime(last), "00:59, 01-01-+262143");
    assert_eq!(last.to_rfc3339(), "+262143-01-01T00:59:59+01:00");
    assert_eq!(format_alarm_list_datetime(first), "23:59 31-12--262144");
    assert_eq!(first.to_rfc3339(), "-262144-12-31T23:59:00-00:01");

    assert_eq!(
        local_datetime_from_unix(LAST_SECOND).expect("a time").parts().0,
        LAST_SECOND
    );
    assert_eq!(
        local_datetime_from_unix(FIRST_SECOND).expect("a time").parts().0,
        FIRST_SECOND
    );
    assert!(local_datetime_from_unix(FIRST_SECOND - 1).is_none());
}
