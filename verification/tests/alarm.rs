use alarm_at_game_end::alarm::{
    local_datetime, next_alarm_id_after, next_alarm_time, next_alarm_time_from,
    normalize_alarm_time_text, parse_alarm_time, parse_alarm_time_parts, remove_alarm, same_alarms,
    same_optional_text, status_of_alarms, Alarm, AlarmEngine, AlarmStatus, AlarmTimeError,
    GameActivity, PendingAlarmSnapshot,
};
use alarm_at_game_end::time::{LocalDateTime, LocalOffsets};
use chrono::{DateTime, Days, Duration, Local, LocalResult, NaiveTime};

fn local(value: DateTime<Local>) -> LocalDateTime {
    LocalDateTime::from_parts(
        value.timestamp(),
        value.timestamp_subsec_nanos(),
        value.offset().local_minus_utc(),
    )
    .expect("a time of the calendar")
}

fn utc(unix_seconds: i64) -> LocalDateTime {
    LocalDateTime::from_parts(unix_seconds, 0, 0).expect("a time of the calendar")
}

fn pending(id: u64, reminder: &str, at: i64) -> PendingAlarmSnapshot {
    PendingAlarmSnapshot {
        id,
        alarm: Alarm::new(reminder, utc(at), true),
        status: AlarmStatus::Scheduled,
        delayed_by_game: false,
    }
}

#[test]
fn inactive_alarm_fires_when_due() {
    let now = Local::now();
    let mut engine = AlarmEngine::default();
    engine.schedule(Alarm::new("Laundry", local(now - Duration::seconds(1)), true));

    let event = engine
        .tick(local(now), GameActivity::Inactive)
        .pop()
        .expect("alarm should fire");

    assert_eq!(event.reminder, "Laundry");
    assert!(!event.delayed_by_game);
    assert_eq!(engine.snapshot().status, AlarmStatus::Fired);
}

#[test]
fn active_game_delays_alarm_until_game_is_inactive() {
    let now = Local::now();
    let mut engine = AlarmEngine::default();
    engine.schedule(Alarm::new("Laundry", local(now - Duration::seconds(1)), true));

    assert!(engine.tick(local(now), GameActivity::Active).is_empty());
    assert_eq!(engine.snapshot().status, AlarmStatus::WaitingForGameEnd);

    let event = engine
        .tick(local(now + Duration::seconds(10)), GameActivity::Inactive)
        .pop()
        .expect("alarm should fire when the game ends");

    assert!(event.delayed_by_game);
    assert_eq!(event.reminder, "Laundry");
}

#[test]
fn unavailable_detection_does_not_block_alarm_before_game_was_seen() {
    let now = Local::now();
    let mut engine = AlarmEngine::default();
    engine.schedule(Alarm::new("Laundry", local(now - Duration::seconds(1)), true));

    let event = engine
        .tick(local(now), GameActivity::Unavailable)
        .pop()
        .expect("alarm should fire");

    assert_eq!(event.reminder, "Laundry");
    assert!(!event.delayed_by_game);
}

#[test]
fn fired_alarm_includes_configured_sound_path() {
    let now = Local::now();
    let sound_path = "C:/sounds/alarm.mp3".to_owned();
    let mut engine = AlarmEngine::default();
    engine.schedule(Alarm::with_sound(
        "Laundry",
        local(now - Duration::seconds(1)),
        true,
        Some(sound_path.clone()),
    ));

    let event = engine
        .tick(local(now), GameActivity::Inactive)
        .pop()
        .expect("alarm should fire");

    assert_eq!(event.sound_path, Some(sound_path));
}

#[test]
fn scheduling_multiple_alarms_keeps_each_alarm() {
    let now = Local::now();
    let mut engine = AlarmEngine::default();

    let later_id = engine.schedule(Alarm::new("Later", local(now + Duration::hours(2)), true));
    let earlier_id = engine.schedule(Alarm::new("Earlier", local(now + Duration::hours(1)), true));

    let snapshot = engine.snapshot();

    assert_eq!(snapshot.status, AlarmStatus::Scheduled);
    assert_eq!(snapshot.alarms.len(), 2);
    assert_eq!(snapshot.alarms[0].id, earlier_id);
    assert_eq!(snapshot.alarms[1].id, later_id);
}

#[test]
fn cancel_alarm_removes_only_selected_alarm() {
    let now = Local::now();
    let mut engine = AlarmEngine::default();
    let keep_id = engine.schedule(Alarm::new("Keep", local(now + Duration::hours(1)), true));
    let cancel_id = engine.schedule(Alarm::new("Cancel", local(now + Duration::hours(2)), true));

    assert!(engine.cancel_alarm(cancel_id));

    let snapshot = engine.snapshot();
    assert_eq!(snapshot.alarms.len(), 1);
    assert_eq!(snapshot.alarms[0].id, keep_id);
    assert_eq!(snapshot.alarms[0].alarm.reminder, "Keep");
}

#[test]
fn restoring_pending_alarms_keeps_ids_and_next_id() {
    let now = Local::now();
    let mut engine = AlarmEngine::from_pending_alarms(vec![PendingAlarmSnapshot {
        id: 7,
        alarm: Alarm::new("Restored", local(now + Duration::hours(1)), true),
        status: AlarmStatus::Scheduled,
        delayed_by_game: false,
    }]);

    let new_id = engine.schedule(Alarm::new("New", local(now + Duration::hours(2)), true));
    let snapshot = engine.snapshot();

    assert_eq!(new_id, 8);
    assert_eq!(snapshot.alarms[0].id, 7);
    assert_eq!(snapshot.alarms[1].id, 8);
}

#[test]
fn multiple_due_alarms_fire_together() {
    let now = Local::now();
    let mut engine = AlarmEngine::default();
    engine.schedule(Alarm::new("One", local(now - Duration::seconds(2)), true));
    engine.schedule(Alarm::new("Two", local(now - Duration::seconds(1)), true));

    let events = engine.tick(local(now), GameActivity::Inactive);

    assert_eq!(events.len(), 2);
    assert_eq!(events[0].reminder, "One");
    assert_eq!(events[1].reminder, "Two");
    assert!(engine.snapshot().alarms.is_empty());
}

#[test]
fn next_alarm_time_accepts_hh_mm() {
    let now = Local::now();
    let input = (now + Duration::hours(2)).format("%H:%M").to_string();

    let scheduled = next_alarm_time(&input, local(now)).expect("valid alarm time");

    assert!(local(now).before(scheduled));
}

#[test]
fn next_alarm_time_accepts_dot_separator() {
    let now = Local::now();
    let input = (now + Duration::hours(2)).format("%H.%M").to_string();

    let scheduled = next_alarm_time(&input, local(now)).expect("valid alarm time");

    assert!(local(now).before(scheduled));
}

#[test]
fn next_alarm_time_accepts_comma_separator() {
    let now = Local::now();
    let input = (now + Duration::hours(2)).format("%H,%M").to_string();

    let scheduled = next_alarm_time(&input, local(now)).expect("valid alarm time");

    assert!(local(now).before(scheduled));
}

#[test]
fn next_alarm_time_accepts_four_digits() {
    let now = Local::now();
    let input = (now + Duration::hours(2)).format("%H%M").to_string();

    let scheduled = next_alarm_time(&input, local(now)).expect("valid alarm time");

    assert!(local(now).before(scheduled));
}

#[test]
fn alarm_time_normalizes_to_dot_separator() {
    assert_eq!(
        normalize_alarm_time_text("1554").expect("valid alarm time"),
        "15.54"
    );
    assert_eq!(
        normalize_alarm_time_text("15:54").expect("valid alarm time"),
        "15.54"
    );
    assert_eq!(
        normalize_alarm_time_text("15,50").expect("valid alarm time"),
        "15.50"
    );
}

#[test]
fn next_alarm_time_rejects_other_formats() {
    let error =
        next_alarm_time("7pm", local(Local::now())).expect_err("format should be rejected");

    assert_eq!(error, AlarmTimeError::InvalidFormat);
}

#[test]
fn alarm_time_rejects_short_digit_input() {
    let error = normalize_alarm_time_text("955").expect_err("format should be rejected");

    assert_eq!(error, AlarmTimeError::InvalidFormat);
}

#[test]
fn alarm_time_rejects_invalid_four_digits() {
    let error = normalize_alarm_time_text("2460").expect_err("format should be rejected");

    assert_eq!(error, AlarmTimeError::InvalidFormat);
}

#[test]
fn odd_alarm_times() {
    assert_eq!(normalize_alarm_time_text("  7:05 ").unwrap(), "07.05");
    assert_eq!(normalize_alarm_time_text("0:00").unwrap(), "00.00");
    assert_eq!(normalize_alarm_time_text("23.59").unwrap(), "23.59");

    for input in [
        "", "   ", "24:00", "12:60", "12", "1:2:3", ":", "12:", ":30", "12 : 30", "-1:00", "12;30",
        "125", "12345", "7:5", "+7:05", "007:05", "7:005", "\u{0661}\u{0662}\u{0663}\u{0664}",
    ] {
        assert_eq!(
            normalize_alarm_time_text(input),
            Err(AlarmTimeError::InvalidFormat),
            "{input:?}"
        );
        assert!(parse_alarm_time(input).is_err(), "{input:?}");
    }

    assert!(parse_alarm_time_parts("23", "59").is_ok());
    assert!(parse_alarm_time_parts("23", "x").is_err());
}

#[test]
fn normalized_time_is_left_alone() {
    for hour in 0..24 {
        for minute in 0..60 {
            let once = normalize_alarm_time_text(&format!("{hour}:{minute:02}")).unwrap();

            assert_eq!(once, format!("{hour:02}.{minute:02}"));
            assert_eq!(normalize_alarm_time_text(&once).unwrap(), once);
        }
    }
}

#[test]
fn alarm_time_errors_are_worded() {
    assert_eq!(
        AlarmTimeError::InvalidFormat.message(),
        "Use 24-hour time, for example 19:30, 19.30, 19,30, or 1930"
    );
    assert_eq!(
        AlarmTimeError::InvalidLocalTime.message(),
        "That local time does not exist on this date"
    );
    assert_eq!(
        AlarmTimeError::DateOverflow.message(),
        "Could not calculate tomorrow's date"
    );
}

#[test]
fn next_alarm_time_is_today_or_tomorrow() {
    // 2026-09-01 12:00:00 UTC, a Tuesday.
    let noon: i64 = 1_788_264_000;
    let single = LocalOffsets::Single(0);
    let at = |text: &str, now: i64| {
        next_alarm_time_from(parse_alarm_time(text).unwrap(), utc(now), single, single)
    };

    assert_eq!(at("12:01", noon), Ok(utc(noon + 60)));
    assert_eq!(at("12:00", noon), Ok(utc(noon + 86400)));
    assert_eq!(at("12:00", noon - 1), Ok(utc(noon)));
    assert_eq!(at("11:59", noon), Ok(utc(noon + 86400 - 60)));
    assert_eq!(at("00:00", noon), Ok(utc(noon + 43200)));
}

#[test]
fn next_alarm_time_follows_the_clock_of_the_place() {
    // 13:00 on a clock that is an hour ahead.
    let now = LocalDateTime::from_parts(1_788_264_000, 0, 3600).unwrap();
    let one_ahead = LocalOffsets::Single(3600);
    let time = parse_alarm_time("13:30").unwrap();

    assert_eq!(
        next_alarm_time_from(time, now, one_ahead, one_ahead)
            .unwrap()
            .parts(),
        (1_788_264_000 + 1800, 0, 3600)
    );

    let early = parse_alarm_time("12:30").unwrap();
    assert_eq!(
        next_alarm_time_from(early, now, one_ahead, LocalOffsets::Missing),
        Err(AlarmTimeError::InvalidLocalTime)
    );
    assert_eq!(
        next_alarm_time_from(early, now, LocalOffsets::Missing, one_ahead),
        Err(AlarmTimeError::InvalidLocalTime)
    );
}

#[test]
fn clock_shown_twice_takes_the_earlier_time() {
    // The same wall clock an hour ahead and two hours ahead: the latter comes first.
    assert_eq!(
        local_datetime(1_788_264_000, LocalOffsets::Ambiguous(7200, 3600))
            .unwrap()
            .parts(),
        (1_788_264_000 - 7200, 0, 7200)
    );
    assert_eq!(
        local_datetime(1_788_264_000, LocalOffsets::Missing),
        Err(AlarmTimeError::InvalidLocalTime)
    );
}

#[test]
fn last_day_has_no_tomorrow() {
    let last = LocalDateTime::from_parts(8_210_266_876_799 - 86_400, 0, 0).unwrap();
    let single = LocalOffsets::Single(0);
    let midnight = parse_alarm_time("00:00").unwrap();

    assert!(next_alarm_time_from(midnight, last, single, single).is_ok());

    let very_last = LocalDateTime::from_parts(8_210_266_876_799, 0, 0).unwrap();
    assert_eq!(
        next_alarm_time_from(midnight, very_last, single, single),
        Err(AlarmTimeError::DateOverflow)
    );
}

#[test]
fn numbers_go_on_after_the_largest() {
    assert_eq!(next_alarm_id_after(&vec![]), 1);
    assert_eq!(
        next_alarm_id_after(&vec![pending(9, "a", 1), pending(3, "b", 2)]),
        10
    );
    assert_eq!(
        next_alarm_id_after(&vec![pending(u64::MAX, "a", 1)]),
        u64::MAX
    );
}

#[test]
fn scheduling_under_a_number_in_use_keeps_both() {
    let mut engine = AlarmEngine::default();
    assert_eq!(engine.schedule_with_id(5, Alarm::new("a", utc(100), true)), 5);
    assert_eq!(engine.schedule_with_id(5, Alarm::new("b", utc(50), true)), 5);
    assert_eq!(engine.schedule(Alarm::new("c", utc(75), true)), 6);

    let reminders: Vec<String> = engine
        .snapshot()
        .alarms
        .into_iter()
        .map(|alarm| alarm.alarm.reminder)
        .collect();
    assert_eq!(
        reminders,
        vec!["b".to_owned(), "c".to_owned(), "a".to_owned()]
    );
    assert!(engine.cancel_alarm(5));
    assert_eq!(engine.snapshot().alarms.len(), 1);
}

#[test]
fn equal_times_go_by_number() {
    let mut engine = AlarmEngine::default();
    engine.schedule_with_id(9, Alarm::new("nine", utc(100), true));
    engine.schedule_with_id(2, Alarm::new("two", utc(100), true));

    let ids: Vec<u64> = engine
        .snapshot()
        .alarms
        .iter()
        .map(|alarm| alarm.id)
        .collect();
    assert_eq!(ids, vec![2, 9]);
}

#[test]
fn alarm_that_ignores_games_fires_during_one() {
    let mut engine = AlarmEngine::default();
    engine.schedule(Alarm::new("Now", utc(100), false));
    engine.schedule(Alarm::new("Later", utc(100), true));

    let events = engine.tick(utc(100), GameActivity::Active);

    assert_eq!(events.len(), 1);
    assert_eq!(events[0].reminder, "Now");
    assert_eq!(events[0].id, 1);
    assert!(!events[0].delayed_by_game);
    assert_eq!(engine.snapshot().alarms.len(), 1);
}

#[test]
fn no_alarm_goes_off_early() {
    let mut engine = AlarmEngine::default();
    engine.schedule(Alarm::new("Soon", utc(100), true));

    assert!(engine.tick(utc(99), GameActivity::Inactive).is_empty());
    assert_eq!(engine.snapshot().status, AlarmStatus::Scheduled);
    assert_eq!(engine.tick(utc(100), GameActivity::Inactive).len(), 1);
    assert!(engine.tick(utc(101), GameActivity::Inactive).is_empty());
}

#[test]
fn waiting_alarm_stays_while_detection_fails() {
    let mut engine = AlarmEngine::default();
    engine.schedule(Alarm::new("Wait", utc(100), true));

    assert!(engine.tick(utc(100), GameActivity::Active).is_empty());
    let events = engine.tick(utc(200), GameActivity::Unavailable);

    assert_eq!(events.len(), 1);
    assert!(events[0].delayed_by_game);
    assert_eq!(events[0].fired_at, utc(200));
    assert_eq!(engine.snapshot().fired_at, Some(utc(200)));
    assert_eq!(
        engine.snapshot().last_fired_reminder,
        Some("Wait".to_owned())
    );
}

#[test]
fn cancelled_alarms_stay_silent() {
    let mut engine = AlarmEngine::default();
    let id = engine.schedule(Alarm::new("Gone", utc(100), true));

    assert!(engine.cancel_alarm(id));
    assert!(!engine.cancel_alarm(id));
    assert!(engine.tick(utc(200), GameActivity::Inactive).is_empty());

    engine.schedule(Alarm::new("Gone too", utc(100), true));
    engine.cancel();
    assert_eq!(engine.snapshot().status, AlarmStatus::Idle);
    assert!(engine.tick(utc(200), GameActivity::Inactive).is_empty());
}

#[test]
fn status_words() {
    assert_eq!(AlarmStatus::Idle.as_str(), "Idle");
    assert_eq!(AlarmStatus::Scheduled.as_str(), "Scheduled");
    assert_eq!(
        AlarmStatus::WaitingForGameEnd.as_str(),
        "Waiting for game end"
    );
    assert_eq!(AlarmStatus::Fired.as_str(), "Fired");
    assert!(GameActivity::Active.is_active());
    assert!(!GameActivity::Inactive.is_active());
    assert!(!GameActivity::Unavailable.is_active());
}

#[test]
fn status_of_a_list() {
    assert_eq!(status_of_alarms(&vec![], None), AlarmStatus::Idle);
    assert_eq!(status_of_alarms(&vec![], Some(utc(1))), AlarmStatus::Fired);
    assert_eq!(
        status_of_alarms(&vec![pending(1, "a", 1)], Some(utc(1))),
        AlarmStatus::Scheduled
    );

    let mut waiting = pending(2, "b", 2);
    waiting.status = AlarmStatus::WaitingForGameEnd;
    assert_eq!(
        status_of_alarms(&vec![pending(1, "a", 1), waiting], None),
        AlarmStatus::WaitingForGameEnd
    );
}

#[test]
fn lists_of_alarms_compare_by_content() {
    let one = vec![pending(1, "a", 1), pending(2, "b", 2)];

    assert!(same_alarms(&one, &one.clone()));
    assert!(!same_alarms(&one, &vec![pending(1, "a", 1)]));
    assert!(!same_alarms(
        &one,
        &vec![pending(1, "a", 1), pending(2, "c", 2)]
    ));
    assert!(!same_alarms(
        &one,
        &vec![pending(1, "a", 1), pending(2, "b", 3)]
    ));
    assert_eq!(
        remove_alarm(one, 1),
        vec![pending(2, "b", 2)]
    );
    assert!(same_optional_text(&None, &None));
    assert!(!same_optional_text(&Some("a".to_owned()), &None));
    assert!(same_optional_text(
        &Some("a".to_owned()),
        &Some("a".to_owned())
    ));
}

#[test]
fn restored_engine_has_the_same_alarms() {
    let mut engine = AlarmEngine::default();
    engine.schedule(Alarm::new("b", utc(200), true));
    engine.schedule(Alarm::new("a", utc(100), true));

    let alarms = engine.snapshot().alarms;
    let restored = AlarmEngine::from_pending_alarms(alarms.clone());

    assert_eq!(restored.snapshot().alarms, alarms);
    assert_eq!(engine.clone().snapshot().alarms, alarms);
}

#[test]
fn numbers_of_gone_alarms_are_not_given_again() {
    let mut fired = pending(7, "fired", 1);
    fired.status = AlarmStatus::Fired;
    let mut engine = AlarmEngine::from_pending_alarms(vec![fired, pending(3, "kept", 500)]);

    assert_eq!(engine.schedule(Alarm::new("a", utc(10), true)), 8);
    assert_eq!(engine.schedule_with_id(20, Alarm::new("b", utc(600), true)), 20);
    assert_eq!(engine.tick(utc(10), GameActivity::Inactive).len(), 1);
    assert!(engine.cancel_alarm(20));
    assert_eq!(engine.schedule(Alarm::new("c", utc(700), true)), 21);

    engine.cancel();
    assert!(engine.snapshot().alarms.is_empty());
    assert_eq!(engine.schedule(Alarm::new("d", utc(800), true)), 22);
}

#[test]
fn scheduling_adds_one_alarm_in_its_place() {
    let mut engine =
        AlarmEngine::from_pending_alarms(vec![pending(1, "a", 100), pending(2, "b", 300)]);
    assert_eq!(engine.tick(utc(100), GameActivity::Inactive).len(), 1);
    assert!(engine.snapshot().fired_at.is_some());

    let id = engine.schedule(Alarm::new("c", utc(200), false));
    let snapshot = engine.snapshot();
    let alarms: Vec<(u64, AlarmStatus, bool)> = snapshot
        .alarms
        .iter()
        .map(|alarm| (alarm.id, alarm.status, alarm.delayed_by_game))
        .collect();

    assert_eq!(
        alarms,
        vec![
            (id, AlarmStatus::Scheduled, false),
            (2, AlarmStatus::Scheduled, false)
        ]
    );
    assert!(snapshot.fired_at.is_none());
    assert!(snapshot.last_fired_reminder.is_none());
}

#[test]
fn snapshot_is_in_order_and_holds_no_fired_alarm() {
    let mut fired = pending(4, "fired", 1);
    fired.status = AlarmStatus::Fired;
    let engine = AlarmEngine::from_pending_alarms(vec![
        pending(9, "late", 300),
        fired,
        pending(5, "early", 100),
        pending(2, "late too", 300),
    ]);

    let ids: Vec<u64> = engine
        .snapshot()
        .alarms
        .iter()
        .map(|alarm| alarm.id)
        .collect();
    assert_eq!(ids, vec![5, 2, 9]);
}

#[test]
fn no_earlier_time_shows_the_clock_asked_for() {
    let offset = LocalOffsets::Single(7200);
    let start: i64 = 1_788_264_000;

    for minutes in 0..200 {
        let now = LocalDateTime::from_parts(start + minutes * 433, 0, 7200).unwrap();
        let time = parse_alarm_time("06:15").unwrap();
        let (found, nanos, found_offset) = next_alarm_time_from(time, now, offset, offset)
            .unwrap()
            .parts();
        let shows = |second: i64| (second + 7200).rem_euclid(86_400) == 6 * 3600 + 15 * 60;

        assert_eq!((nanos, found_offset), (0, 7200));
        assert!(shows(found));
        assert!(now.parts().0 < found);
        assert!((now.parts().0 + 1..found).all(|second| !shows(second)));
    }
}

#[test]
fn day_beyond_the_calendar_has_no_alarm_time() {
    let ahead = LocalDateTime::from_parts(8_210_266_876_799, 0, 3600).unwrap();
    let behind = LocalDateTime::from_parts(-8_334_601_228_800, 0, -3600).unwrap();
    let single = LocalOffsets::Single(0);
    let noon = parse_alarm_time("12:00").unwrap();

    assert_eq!(
        next_alarm_time_from(noon, ahead, single, single),
        Err(AlarmTimeError::DateOverflow)
    );
    assert_eq!(
        next_alarm_time_from(noon, behind, single, single),
        Err(AlarmTimeError::DateOverflow)
    );
    assert_eq!(
        next_alarm_time("12:00", ahead),
        Err(AlarmTimeError::DateOverflow)
    );
    assert_eq!(
        next_alarm_time("noon", ahead),
        Err(AlarmTimeError::InvalidFormat)
    );
}

#[test]
fn local_zone_is_asked_about_the_time_asked_for() {
    let start = Local::now();

    for day in 0..370 {
        let now = start + Duration::days(day);
        for (hour, minute) in [(0, 0), (1, 30), (2, 30), (12, 0), (23, 59)] {
            let time = NaiveTime::from_hms_opt(hour, minute, 0).unwrap();
            let today = now.date_naive();
            let shown = |date: chrono::NaiveDate| match date.and_time(time).and_local_timezone(Local) {
                LocalResult::Single(t) | LocalResult::Ambiguous(t, _) => Ok(t),
                LocalResult::None => Err(AlarmTimeError::InvalidLocalTime),
            };
            let expected = shown(today).and_then(|t| {
                if t > now {
                    Ok(t)
                } else {
                    shown(today.checked_add_days(Days::new(1)).unwrap())
                }
            });

            assert_eq!(
                next_alarm_time(&format!("{hour:02}:{minute:02}"), local(now))
                    .map(|found| found.parts()),
                expected.map(|t| local(t).parts())
            );
        }
    }
}
