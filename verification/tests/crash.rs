use alarm_at_game_end::crash::{
    crash_location, crash_report_text, crash_thread_name, latest_crash_notice,
    latest_crash_summary, panic_message, CrashReport,
};
use alarm_at_game_end::time::LocalDateTime;

fn report(message: &str) -> CrashReport {
    CrashReport {
        occurred_at: LocalDateTime::from_parts(1_788_264_000, 500_000_000, 7200)
            .expect("a time of the calendar"),
        thread_name: "test-thread".to_owned(),
        message: message.to_owned(),
        location: "src/example.rs:12:34".to_owned(),
        backtrace: "fake backtrace".to_owned(),
    }
}

#[test]
fn crash_report_write_can_be_loaded_as_notice() {
    let path = "/tmp/alarm_at_game_end_crash_test/crash.log";
    let contents = crash_report_text(&report("simulated crash"));
    let notice = latest_crash_notice(path, contents.len() as u64, Some(17), &contents)
        .expect("notice should exist");

    assert!(notice.fingerprint.contains(':'));
    assert_eq!(notice.path, path);
    assert_eq!(notice.summary, "simulated crash at src/example.rs:12:34");
}

#[test]
fn crash_report_layout() {
    assert_eq!(
        crash_report_text(&report("simulated crash")),
        "=== crash 2026-09-01T14:00:00.500+02:00 ===\nthread: test-thread\npanic: simulated crash\nlocation: src/example.rs:12:34\nbacktrace:\nfake backtrace\n\n"
    );
}

#[test]
fn last_report_sums_up_the_log() {
    let mut log = crash_report_text(&report("first"));
    log.push_str(&crash_report_text(&report("second")));

    assert_eq!(
        latest_crash_summary(&log),
        Some("second at src/example.rs:12:34".to_owned())
    );

    log.push_str("=== crash half written");
    assert_eq!(
        latest_crash_summary(&log),
        Some("second at src/example.rs:12:34".to_owned())
    );
}

#[test]
fn log_without_reports_has_no_summary() {
    assert_eq!(latest_crash_summary(""), None);
    assert_eq!(latest_crash_summary("=== crash x ===\nthread: y\n"), None);
    assert_eq!(
        latest_crash_summary("panic:none on this line\n"),
        None
    );
    assert_eq!(
        latest_crash_summary("panic: at the very start\r\n"),
        Some("at the very start at unknown".to_owned())
    );
}

#[test]
fn empty_log_gives_no_notice() {
    assert_eq!(latest_crash_notice("crash.log", 0, Some(1), ""), None);

    let notice = latest_crash_notice("crash.log", 5, None, "other").expect("some notice");
    assert_eq!(notice.summary, "panic recorded");
    assert_eq!(notice.fingerprint, "5:0");
    assert_eq!(notice.clone(), notice);
}

#[test]
fn fingerprints_tell_logs_apart() {
    let fingerprint = |length: u64, nanos: u128| {
        latest_crash_notice("crash.log", length, Some(nanos), "x")
            .expect("some notice")
            .fingerprint
    };

    assert_eq!(fingerprint(12, 345), "12:345");
    assert_ne!(fingerprint(1, 23), fingerprint(12, 3));
    assert_ne!(fingerprint(1, 23), fingerprint(1, 24));
}

#[test]
fn parts_of_a_report() {
    assert_eq!(
        crash_location(Some(("src/main.rs".to_owned(), 7, 19))),
        "src/main.rs:7:19"
    );
    assert_eq!(crash_location(None), "unknown");
    assert_eq!(crash_thread_name(Some("main".to_owned())), "main");
    assert_eq!(crash_thread_name(None), "unnamed");
    assert_eq!(panic_message(Some("boom".to_owned())), "boom");
    assert_eq!(panic_message(None), "panic payload was not a string");
}
