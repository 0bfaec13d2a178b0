use alarm_at_game_end::alarm::{Alarm, AlarmStatus, AlarmTimeError, PendingAlarmSnapshot};
use alarm_at_game_end::app::{
    expiry_text, game_detection_config_from_state, AlarmApp, AppAction, SavedSettings, TaskReport,
};
use alarm_at_game_end::app_model::{AppPage, MAX_HANDLED_REQUESTS};
use alarm_at_game_end::crash::CrashNotice;
use alarm_at_game_end::discord_bridge::{
    BridgeBody, CompanionInvite, PairingRegistrationResponse, PollRequestsResponse,
    RemoteAlarmRequest,
};
use alarm_at_game_end::game::{GameMonitorStatus, GameStatus};
use alarm_at_game_end::sound::SoundHandle;
use alarm_at_game_end::storage::{PersistedLogLevel, PersistedState, DEFAULT_SOUND_PATH};
use alarm_at_game_end::time::LocalDateTime;
use alarm_at_game_end::worker::{MonitorCommand, MonitorEvent, MonitorSnapshot};

/// 2026-09-01 12:00:00 UTC.
const NOON: i64 = 1_788_264_000;

fn at(unix_seconds: i64) -> LocalDateTime {
    LocalDateTime::from_parts(unix_seconds, 0, 0).expect("a time of the calendar")
}

fn now() -> LocalDateTime {
    at(NOON)
}

fn state() -> PersistedState {
    PersistedState::with_defaults("a.cfg".to_owned())
}

fn app() -> AlarmApp {
    let mut app = AlarmApp::new(state(), None, None, now());
    app.take_actions();
    app
}

fn paired_app() -> AlarmApp {
    let mut app = app();
    app.state.discord_bridge.bridge_url = "http://bridge".to_owned();
    app.state.discord_bridge.companion_id = "id".to_owned();
    app.state.discord_bridge.api_token = "token".to_owned();
    app.state.discord_bridge.paired_discord_user_id = Some("111".to_owned());
    app.state.discord_bridge.allowed_requester_ids = "222".to_owned();
    app
}

fn pending(id: u64, reminder: &str, time: i64) -> PendingAlarmSnapshot {
    PendingAlarmSnapshot {
        id,
        alarm: Alarm::new(reminder, at(time), true),
        status: AlarmStatus::Scheduled,
        delayed_by_game: false,
    }
}

fn request(id: u64, requester_id: &str, target_id: &str) -> RemoteAlarmRequest {
    RemoteAlarmRequest {
        id,
        requester_id: requester_id.to_owned(),
        requester_label: Some("Jane".to_owned()),
        target_id: target_id.to_owned(),
        hour: 13,
        minute: 30,
        label: " Laundry ".to_owned(),
        created_at_unix: 1,
        expires_at_unix: 2,
    }
}

fn invite(id: u64, invitee_id: &str, invitee_label: &str) -> CompanionInvite {
    CompanionInvite {
        id,
        owner_id: "111".to_owned(),
        invitee_id: invitee_id.to_owned(),
        invitee_label: invitee_label.to_owned(),
        created_at_unix: 1,
        expires_at_unix: 2,
    }
}

fn messages(app: &AlarmApp) -> Vec<&str> {
    app.logs.iter().map(|entry| entry.message.as_str()).collect()
}

fn last_message(app: &AlarmApp) -> &str {
    &app.logs.last().expect("a log entry").message
}

/// The answers to requests among the actions: where they go, the status and the reason.
fn answers(actions: &[AppAction]) -> Vec<(String, String, Option<String>)> {
    actions
        .iter()
        .filter_map(|action| match action {
            AppAction::Report(message) => match &message.body {
                BridgeBody::RequestStatus { status, reason } => {
                    Some((message.url.clone(), status.clone(), reason.clone()))
                }
                BridgeBody::InviteStatus { status } => {
                    Some((message.url.clone(), status.clone(), None))
                }
                _ => None,
            },
            _ => None,
        })
        .collect()
}

fn rejected(id: u64, reason: &str) -> Vec<(String, String, Option<String>)> {
    vec![(
        format!("http://bridge/bridge/requests/{id}/status"),
        "rejected".to_owned(),
        Some(reason.to_owned()),
    )]
}

fn scheduled(actions: &[AppAction]) -> Vec<(u64, &str)> {
    actions
        .iter()
        .filter_map(|action| match action {
            AppAction::Send(MonitorCommand::Schedule { id, alarm }) => {
                Some((*id, alarm.reminder.as_str()))
            }
            _ => None,
        })
        .collect()
}

fn saves(actions: &[AppAction]) -> usize {
    actions
        .iter()
        .filter(|action| matches!(action, AppAction::Save(_)))
        .count()
}

#[test]
fn start_reports_what_was_found() {
    let mut saved = state();
    saved.alarms = vec![
        pending(9, "Later", NOON + 60),
        pending(4, "Missed", NOON - 60),
    ];
    let notice = CrashNotice {
        path: "crash.log".to_owned(),
        fingerprint: "1:2".to_owned(),
        summary: "boom at x".to_owned(),
    };
    let mut app = AlarmApp::new(
        saved,
        Some(notice.clone()),
        Some("could not read".to_owned()),
        now(),
    );

    assert_eq!(
        messages(&app),
        vec![
            "Ready",
            "Graphics backend setting: Auto",
            "Restored 1 pending alarm(s)",
            "Missed alarm from 2026-09-01 11:59:00 while the app was not running: Missed",
            "Previous crash recorded: boom at x. Crash log: crash.log",
            "Could not load saved state: could not read",
        ]
    );
    assert_eq!(app.next_alarm_id, 10);
    assert_eq!(app.snapshot.alarm.status, AlarmStatus::Scheduled);
    assert_eq!(app.state.alarms, vec![pending(9, "Later", NOON + 60)]);
    assert_eq!(app.bridge_status, "Disconnected");
    assert_eq!(app.current_page, AppPage::Alarm);
    assert_eq!(app.alarm_popups.len(), 1);
    assert_eq!(
        app.alarm_popups[0].lines(),
        vec![
            "Missed alarm: Missed".to_owned(),
            "Was due at 2026-09-01 11:59:00".to_owned(),
            "No sound was played.".to_owned(),
        ]
    );
    assert_eq!(
        app.state.last_reported_crash_fingerprint,
        Some("1:2".to_owned())
    );
    let saved_again = app
        .take_actions()
        .into_iter()
        .filter_map(|action| match action {
            AppAction::Save(state) => Some(state),
            _ => None,
        })
        .last()
        .expect("a save");
    assert_eq!(saved_again.logs, app.logs);
    assert_eq!(saved_again.alarms, app.snapshot.alarm.alarms);

    let again = AlarmApp::new(saved_again, Some(notice), None, now());
    assert_eq!(again.logs.len(), 6 + 3);
    assert_eq!(again.snapshot.alarm.alarms, app.snapshot.alarm.alarms);
}

#[test]
fn alarm_is_scheduled_from_the_fields() {
    let mut app = app();
    app.state.label = "  ".to_owned();
    app.state.alarm_time = "1330".to_owned();
    app.schedule_alarm(now());

    assert_eq!(app.state.alarm_time, "13.30");
    assert_eq!(app.snapshot.alarm.alarms.len(), 1);
    assert_eq!(app.snapshot.alarm.alarms[0].alarm.reminder, "Alarm");
    assert_eq!(app.snapshot.alarm.status, AlarmStatus::Scheduled);
    assert_eq!(app.next_alarm_id, 2);
    assert!(last_message(&app).starts_with("Alarm added for "));

    let actions = app.take_actions();
    assert_eq!(scheduled(&actions), vec![(1, "Alarm")]);
    assert!(saves(&actions) >= 2);
    assert!(app.take_actions().is_empty());
}

#[test]
fn outcome_of_looking_for_a_time() {
    let mut app = app();
    app.state.label = " Tea ".to_owned();
    app.state.delay_for_games = false;
    app.finish_scheduling(Ok(at(NOON + 5)), now());
    assert_eq!(last_message(&app), "Alarm added for 2026-09-01 12:00:05");

    let alarm = &app.snapshot.alarm.alarms[0].alarm;
    assert_eq!(alarm.reminder, "Tea");
    assert!(!alarm.delay_for_games);
    assert_eq!(alarm.sound_path, Some(DEFAULT_SOUND_PATH.to_owned()));

    app.finish_scheduling(Err(AlarmTimeError::InvalidLocalTime), now());
    assert_eq!(
        last_message(&app),
        "That local time does not exist on this date"
    );
    assert_eq!(app.snapshot.alarm.alarms.len(), 1);
}

#[test]
fn unreadable_time_schedules_nothing() {
    let mut app = app();
    app.state.alarm_time = "soon".to_owned();
    app.schedule_alarm(now());

    assert!(app.snapshot.alarm.alarms.is_empty());
    assert_eq!(app.logs.last().unwrap().level, PersistedLogLevel::Error);
    assert_eq!(
        last_message(&app),
        "Use 24-hour time, for example 19:30, 19.30, 19,30, or 1930"
    );
    assert_eq!(
        app.normalize_alarm_time_field(),
        Err(AlarmTimeError::InvalidFormat)
    );
    assert!(scheduled(&app.take_actions()).is_empty());

    app.state.alarm_time = "19.30".to_owned();
    assert_eq!(app.normalize_alarm_time_field(), Ok(()));
    assert!(app.take_actions().is_empty());
}

#[test]
fn alarms_are_cancelled_here_and_in_the_monitor() {
    let mut app = app();
    app.schedule_alarm_at("b".to_owned(), at(NOON + 20));
    app.schedule_alarm_at("a".to_owned(), at(NOON + 10));
    app.schedule_alarm_at("c".to_owned(), at(NOON + 20));
    let ids: Vec<u64> = app.snapshot.alarm.alarms.iter().map(|a| a.id).collect();
    assert_eq!(ids, vec![2, 1, 3]);
    app.take_actions();

    app.cancel_alarm(1, "b", now());
    assert_eq!(last_message(&app), "Alarm cancelled: b");
    assert_eq!(app.snapshot.alarm.alarms.len(), 2);
    assert!(app
        .take_actions()
        .iter()
        .any(|action| matches!(action, AppAction::Send(MonitorCommand::CancelAlarm(1)))));

    app.cancel_all_alarms(now());
    assert_eq!(last_message(&app), "All alarms cancelled");
    assert_eq!(app.snapshot.alarm.status, AlarmStatus::Idle);
    assert!(app
        .take_actions()
        .iter()
        .any(|action| matches!(action, AppAction::Send(MonitorCommand::Cancel))));
}

#[test]
fn fired_alarm_is_shown_and_dismissed() {
    let mut app = app();
    app.schedule_alarm_at("Tea".to_owned(), at(NOON));
    app.take_actions();

    assert!(app.drain_monitor_events(
        vec![MonitorEvent::AlarmFired {
            id: 1,
            reminder: "Tea".to_owned(),
            delayed_by_game: true,
            fired_at: at(NOON + 60),
            sound: Some(SoundHandle { id: 7 }),
        }],
        now()
    ));
    assert_eq!(
        last_message(&app),
        "Alarm fired at 2026-09-01 12:01:00 after the game ended: Tea"
    );
    assert!(app.snapshot.alarm.alarms.is_empty());
    assert_eq!(app.alarm_status_label(), "Fired");
    assert_eq!(
        app.alarm_summary(),
        "Last fired at 2026-09-01 12:01:00: Tea"
    );
    assert_eq!(
        app.alarm_popups[0].lines(),
        vec![
            "Tea".to_owned(),
            "Fired at 2026-09-01 12:01:00".to_owned(),
            "Delayed until the game ended".to_owned(),
        ]
    );
    assert!(app
        .take_actions()
        .iter()
        .any(|action| matches!(action, AppAction::RequestAttention)));

    let id = app.alarm_popups[0].id;
    app.dismiss_alarm_popup(id + 1);
    assert_eq!(app.alarm_popups.len(), 1);
    assert!(app.take_actions().is_empty());

    app.dismiss_alarm_popup(id);
    assert!(app.alarm_popups.is_empty());
    assert!(matches!(
        app.take_actions()[..],
        [AppAction::StopSound(SoundHandle { id: 7 })]
    ));
}

#[test]
fn all_popups_are_dismissed() {
    let mut app = app();
    app.push_alarm_popup("a".to_owned(), now(), false, false, Some(SoundHandle { id: 1 }));
    app.push_alarm_popup("b".to_owned(), now(), false, false, None);
    app.push_alarm_popup("c".to_owned(), now(), false, false, Some(SoundHandle { id: 2 }));
    let ids: Vec<u64> = app.alarm_popups.iter().map(|popup| popup.id).collect();
    assert_eq!(ids, vec![1, 2, 3]);

    app.dismiss_all_alarm_popups();
    assert!(app.alarm_popups.is_empty());
    assert!(matches!(
        app.take_actions()[..],
        [
            AppAction::StopSound(SoundHandle { id: 1 }),
            AppAction::StopSound(SoundHandle { id: 2 })
        ]
    ));
}

#[test]
fn snapshots_are_saved_when_alarms_changed() {
    let mut app = app();
    let mut alarm = app.snapshot.alarm.clone();
    let snapshot = |alarm| {
        vec![MonitorEvent::Snapshot(MonitorSnapshot {
            alarm,
            game_status: GameMonitorStatus {
                statuses: vec![GameStatus::active("Go", None)],
            },
            last_checked: at(NOON + 1),
        })]
    };

    app.drain_monitor_events(snapshot(alarm.clone()), now());
    assert!(app.take_actions().is_empty());
    assert_eq!(app.snapshot.last_checked, at(NOON + 1));
    assert!(app.game_status("Go").is_some_and(GameStatus::is_active));
    assert!(app.game_status("Chess").is_none());

    alarm.alarms.push(pending(1, "x", NOON + 9));
    app.drain_monitor_events(snapshot(alarm), now());
    assert_eq!(saves(&app.take_actions()), 1);
    assert_eq!(app.alarm_summary(), "x at 2026-09-01 12:00:09");
    assert!(!app.drain_monitor_events(vec![], now()));
}

#[test]
fn test_sound_is_replaced_and_stopped() {
    let mut app = app();
    app.play_test_sound(now());
    assert_eq!(last_message(&app), "Starting test sound");
    assert!(app.take_actions().iter().any(|action| matches!(
        action,
        AppAction::Send(MonitorCommand::TestSound(Some(path))) if path == DEFAULT_SOUND_PATH
    )));

    for id in [1, 2] {
        app.handle_monitor_event(
            MonitorEvent::TestSoundStarted {
                sound: Some(SoundHandle { id }),
                started_at: now(),
            },
            now(),
        );
    }
    assert_eq!(last_message(&app), "Test sound started at 12:00:00");
    assert!(app
        .take_actions()
        .iter()
        .any(|action| matches!(action, AppAction::StopSound(SoundHandle { id: 1 }))));

    assert!(!app.clear_finished_test_sound(false));
    app.stop_test_sound(now());
    assert_eq!(last_message(&app), "Test sound stopped");
    assert_eq!(app.test_sound, None);
    assert!(app
        .take_actions()
        .iter()
        .any(|action| matches!(action, AppAction::StopSound(SoundHandle { id: 2 }))));

    app.handle_monitor_event(
        MonitorEvent::TestSoundStarted {
            sound: None,
            started_at: now(),
        },
        now(),
    );
    assert_eq!(last_message(&app), "Alarm sound is disabled");

    app.test_sound = Some(SoundHandle { id: 3 });
    assert!(app.clear_finished_test_sound(true));
    assert_eq!(app.test_sound, None);
    assert!(!app.clear_finished_test_sound(true));
}

#[test]
fn test_popup_and_errors_of_the_monitor() {
    let mut app = app();
    app.state.sound_path = " ".to_owned();
    app.test_alarm_popup(now());
    assert_eq!(last_message(&app), "Starting test alarm popup");
    assert!(app
        .take_actions()
        .iter()
        .any(|action| matches!(action, AppAction::Send(MonitorCommand::TestAlarmPopup(None)))));

    app.handle_monitor_event(
        MonitorEvent::TestAlarmPopup {
            reminder: "Test".to_owned(),
            fired_at: now(),
            sound: None,
        },
        now(),
    );
    assert_eq!(last_message(&app), "Test alarm popup shown at 12:00:00");
    assert_eq!(app.alarm_popups.len(), 1);

    app.handle_monitor_event(MonitorEvent::SoundError("no sound".to_owned()), now());
    app.handle_monitor_event(MonitorEvent::NotificationError("no bus".to_owned()), now());
    assert_eq!(last_message(&app), "no bus");
    assert_eq!(app.logs.last().unwrap().level, PersistedLogLevel::Error);
}

#[test]
fn logs_are_written_and_cleared() {
    let mut app = app();
    app.log_info("a".to_owned(), now());
    app.log_error("b".to_owned(), now());
    app.log_at(PersistedLogLevel::Info, at(5), "c".to_owned());
    assert_eq!(saves(&app.take_actions()), 3);
    assert_eq!(app.logs.last().unwrap().occurred_at, at(5));

    app.save_failed("disk full", now());
    assert_eq!(last_message(&app), "Could not save app state: disk full");
    assert!(app.take_actions().is_empty());

    app.clear_logs();
    assert!(app.logs.is_empty());
    assert!(app.state.logs.is_empty());
    assert_eq!(saves(&app.take_actions()), 1);

    for index in 0..600 {
        app.log_info(format!("{index}"), now());
    }
    assert_eq!(app.logs.len(), 500);
    assert_eq!(app.logs[0].message, "100");
}

#[test]
fn settings_reach_the_monitor() {
    let mut app = app();
    app.state.lockfile_path = " /tmp/lockfile ".to_owned();
    app.state.counter_strike_2_gsi_port = 0;
    app.save_settings();

    let actions = app.take_actions();
    assert_eq!(saves(&actions), 1);
    assert!(actions.iter().any(|action| matches!(
        action,
        AppAction::Send(MonitorCommand::SetGameDetectionConfig(config))
            if *config == game_detection_config_from_state(&app.state)
    )));
    assert_eq!(
        game_detection_config_from_state(&app.state).league_lockfile_override,
        Some("/tmp/lockfile".to_owned())
    );
}

#[test]
fn config_of_counter_strike_is_installed() {
    let mut app = app();
    app.state.counter_strike_2_gsi_config_path = "  ".to_owned();
    assert!(app.gsi_config_to_install(now()).is_none());
    assert_eq!(last_message(&app), "CS2 GSI config path is blank");

    app.state.counter_strike_2_gsi_config_path = " x.cfg ".to_owned();
    let (path, contents) = app.gsi_config_to_install(now()).expect("a file");
    assert_eq!(path, "x.cfg");
    assert!(contents.contains("127.0.0.1:31990/cs2"));

    app.gsi_config_installed("x.cfg", false, now());
    assert_eq!(
        last_message(&app),
        "could not access Counter-Strike 2 GSI config"
    );
    app.take_actions();
    app.gsi_config_installed("x.cfg", true, now());
    assert_eq!(last_message(&app), "CS2 GSI config installed at x.cfg");
    assert!(app
        .take_actions()
        .iter()
        .any(|action| matches!(action, AppAction::Send(MonitorCommand::SetGameDetectionConfig(_)))));
}

#[test]
fn pairing_is_started_and_registered() {
    let mut app = app();
    app.state.discord_bridge.bridge_url = "http://bridge".to_owned();
    app.start_bridge_pairing(now());
    assert!(app.registering);
    assert_eq!(app.bridge_status, "Registering pairing code");
    assert!(app.state.discord_bridge.poll_enabled);
    assert_eq!(app.state.discord_bridge.pairing_expires_at, None);
    let code = app.state.discord_bridge.pairing_code.clone();
    assert_eq!(code.len(), 9);
    assert!(app.take_actions().iter().any(|action| matches!(
        action,
        AppAction::Register(message) if message.body == (BridgeBody::Registration {
            companion_id: app.state.discord_bridge.companion_id.clone(),
            api_token: app.state.discord_bridge.api_token.clone(),
            pairing_code: code.clone(),
        })
    )));

    app.maybe_start_bridge_poll(1_000);
    assert!(!app.polling);
    assert!(!app.clear_inactive_bridge_pairing_code(now()));
    app.start_bridge_pairing(now());
    assert_eq!(
        app.bridge_status,
        "Pairing registration already in progress"
    );

    app.finish_registration(
        Ok(PairingRegistrationResponse {
            pairing_code: "CODE".to_owned(),
            expires_at_unix: NOON + 600,
        }),
        now(),
        2_000,
    );
    assert!(!app.registering);
    assert_eq!(app.state.discord_bridge.pairing_code, "CODE");
    assert_eq!(
        app.state.discord_bridge.pairing_expires_at,
        Some(at(NOON + 600))
    );
    assert_eq!(app.bridge_status, "Waiting for /companion pair");
    assert_eq!(last_message(&app), "Discord pairing code registered");
    app.take_actions();

    app.maybe_start_bridge_poll(2_000);
    assert!(app.polling);
    assert_eq!(app.next_bridge_poll_at, 7_000);
    assert!(matches!(
        &app.take_actions()[..],
        [AppAction::Poll(message)] if message.url == "http://bridge/bridge/requests"
    ));

    assert!(app.clear_inactive_bridge_pairing_code(at(NOON + 601)));
    assert!(app.state.discord_bridge.pairing_code.is_empty());
}

#[test]
fn pairing_with_given_values() {
    let mut app = app();
    app.state.discord_bridge.bridge_url = "http://bridge".to_owned();
    app.start_pairing_with(
        "id".to_owned(),
        "token".to_owned(),
        "ABCD-1234".to_owned(),
        now(),
    );
    assert_eq!(app.state.discord_bridge.companion_id, "id");
    assert_eq!(app.state.discord_bridge.api_token, "token");
    assert_eq!(app.state.discord_bridge.pairing_code, "ABCD-1234");

    app.finish_registration(Err("no net".to_owned()), now(), 0);
    assert_eq!(
        last_message(&app),
        "Could not register Discord pairing code: no net"
    );
    assert_eq!(app.bridge_status, "Pairing failed");
    assert!(app.state.discord_bridge.pairing_code.is_empty());
}

#[test]
fn pairing_needs_a_bridge_and_no_account() {
    let mut app = paired_app();
    app.start_bridge_pairing(now());
    assert_eq!(
        app.bridge_status,
        "Clear pairing before generating a new code"
    );

    app.clear_bridge_pairing();
    assert_eq!(app.bridge_status, "Disconnected");
    assert!(app.state.discord_bridge.api_token.is_empty());
    assert!(!app.state.discord_bridge.poll_enabled);

    app.state.discord_bridge.bridge_url = " ".to_owned();
    app.start_bridge_pairing(now());
    assert_eq!(last_message(&app), "Discord bridge URL is blank");

    app.take_actions();
    app.state.discord_bridge.bridge_url = " // ".to_owned();
    app.start_bridge_pairing(now());
    assert_eq!(
        last_message(&app),
        "Discord bridge is not ready: bridge URL is blank"
    );
    assert!(!app.registering);
}

#[test]
fn request_of_an_allowed_user_sets_an_alarm() {
    let mut app = paired_app();
    app.answer_remote_request(&request(5, "222", "111"), Ok(at(NOON + 5400)), now());

    assert_eq!(app.snapshot.alarm.alarms.len(), 1);
    assert_eq!(app.snapshot.alarm.alarms[0].alarm.reminder, "Laundry");
    assert_eq!(app.handled_bridge_request_ids, vec![5]);
    assert_eq!(
        last_message(&app),
        "Accepted Discord alarm request #5 for 2026-09-01 13:30:00"
    );
    assert_eq!(app.state.discord_bridge.allowed_requesters[0].display_name, "Jane");
    let actions = app.take_actions();
    assert_eq!(scheduled(&actions), vec![(1, "Laundry")]);
    assert_eq!(
        answers(&actions),
        vec![(
            "http://bridge/bridge/requests/5/status".to_owned(),
            "accepted".to_owned(),
            None
        )]
    );

    app.answer_remote_request(&request(5, "222", "111"), Ok(at(NOON + 5400)), now());
    let actions = app.take_actions();
    assert!(scheduled(&actions).is_empty());
    assert_eq!(
        answers(&actions),
        vec![(
            "http://bridge/bridge/requests/5/status".to_owned(),
            "accepted".to_owned(),
            Some("already handled".to_owned())
        )]
    );
}

#[test]
fn requests_are_refused() {
    let found = || Ok(at(NOON + 5400));
    let mut app = paired_app();

    app.answer_remote_request(&request(1, "222", "999"), found(), now());
    assert_eq!(
        answers(&app.take_actions()),
        rejected(1, "target Discord user mismatch")
    );

    app.answer_remote_request(&request(2, "333", "111"), found(), now());
    assert_eq!(
        answers(&app.take_actions()),
        rejected(2, "requester is not allowed")
    );
    assert_eq!(
        last_message(&app),
        "Rejected Discord alarm request #2 from 333"
    );

    app.answer_remote_request(
        &request(3, "222", "111"),
        Err(AlarmTimeError::InvalidFormat),
        now(),
    );
    assert_eq!(
        answers(&app.take_actions()),
        rejected(3, &AlarmTimeError::InvalidFormat.message())
    );

    app.state.discord_bridge.paired_discord_user_id = None;
    app.answer_remote_request(&request(4, "222", "111"), found(), now());
    assert_eq!(
        answers(&app.take_actions()),
        rejected(4, "companion is not paired")
    );

    assert!(app.snapshot.alarm.alarms.is_empty());
    assert!(app.handled_bridge_request_ids.is_empty());

    app.state.discord_bridge.api_token.clear();
    app.answer_remote_request(&request(4, "222", "111"), found(), now());
    assert!(app.take_actions().is_empty());
}

#[test]
fn request_is_answered_by_its_own_time() {
    let mut app = paired_app();
    app.process_remote_discord_alarm_request(&request(1, "111", "111"), now());
    assert_eq!(app.snapshot.alarm.alarms.len(), 1);

    let mut late = request(2, "111", "111");
    late.hour = 24;
    app.take_actions();
    app.process_remote_discord_alarm_request(&late, now());
    assert_eq!(
        answers(&app.take_actions()),
        rejected(2, &AlarmTimeError::InvalidFormat.message())
    );
}

#[test]
fn poll_without_an_account_unpairs() {
    let mut app = paired_app();
    app.polling = true;
    app.finish_poll(
        Ok(PollRequestsResponse {
            paired: false,
            paired_discord_user_id: Some("111".to_owned()),
            paired_discord_user_label: None,
            requests: vec![request(1, "111", "111")],
            invites: vec![invite(1, "7", "")],
        }),
        now(),
    );

    assert!(!app.polling);
    assert_eq!(app.state.discord_bridge.paired_discord_user_id, None);
    assert_eq!(app.bridge_status, "Waiting for /companion pair");
    assert!(app.pending_companion_invites.is_empty());
    assert!(app.snapshot.alarm.alarms.is_empty());
}

#[test]
fn poll_brings_requests_and_invites() {
    let mut app = paired_app();
    app.process_bridge_poll_response(
        PollRequestsResponse {
            paired: true,
            paired_discord_user_id: Some("111".to_owned()),
            paired_discord_user_label: Some("Me".to_owned()),
            requests: vec![request(1, "111", "111"), request(2, "222", "111")],
            invites: vec![invite(1, "7", ""), invite(2, "8", "Jo")],
        },
        now(),
    );

    assert_eq!(
        app.bridge_status,
        "Connected; processed 2 request(s), 2 invite(s) pending"
    );
    assert_eq!(app.current_page, AppPage::Discord);
    assert_eq!(app.discord_tab_label(), "Discord (2)");
    assert_eq!(
        last_message(&app),
        "Pending Discord access invite: <@7>, Jo"
    );
    assert_eq!(app.snapshot.alarm.alarms.len(), 2);
    assert_eq!(
        app.state.discord_bridge.paired_discord_user_label,
        Some("Me".to_owned())
    );

    app.current_page = AppPage::Log;
    app.apply_poll_response(
        PollRequestsResponse {
            paired: true,
            paired_discord_user_id: Some("111".to_owned()),
            paired_discord_user_label: Some("Me".to_owned()),
            requests: vec![],
            invites: vec![invite(2, "8", "Jo")],
        },
        &vec![],
        now(),
    );
    assert_eq!(app.current_page, AppPage::Log);
    assert_eq!(
        app.bridge_status,
        "Connected; processed 0 request(s), 1 invite(s) pending"
    );

    app.polling = true;
    app.finish_poll(Err("no net".to_owned()), now());
    assert_eq!(app.bridge_status, "Bridge poll failed: no net");
    assert!(!app.polling);
}

#[test]
fn invites_are_allowed_or_rejected() {
    let mut app = paired_app();
    app.pending_companion_invites = vec![invite(1, "7", "Jo"), invite(2, "8", "")];
    assert_eq!(app.discord_tab_label(), "Discord (2)");

    app.allow_companion_invite(1, now());
    assert_eq!(app.state.discord_bridge.allowed_requester_ids, "222\n7");
    assert_eq!(last_message(&app), "Allowed Jo to request alarms");
    assert_eq!(
        answers(&app.take_actions()),
        vec![(
            "http://bridge/bridge/invites/1/status".to_owned(),
            "allowed".to_owned(),
            None
        )]
    );

    app.reject_companion_invite(2, now());
    assert_eq!(
        last_message(&app),
        "Rejected Discord access invite for <@8>"
    );
    assert_eq!(
        answers(&app.take_actions()),
        vec![(
            "http://bridge/bridge/invites/2/status".to_owned(),
            "rejected".to_owned(),
            None
        )]
    );
    assert!(app.pending_companion_invites.is_empty());
    assert_eq!(app.discord_tab_label(), "Discord");

    app.allow_companion_invite(9, now());
    app.reject_companion_invite(9, now());
    assert!(app.take_actions().is_empty());
}

#[test]
fn users_are_allowed_and_removed_by_hand() {
    let mut app = app();
    app.add_allowed_requester_from_input(now());
    assert_eq!(last_message(&app), "Allowed Discord user field is blank");

    app.new_allowed_requester_id = " <@7> ".to_owned();
    app.add_allowed_requester_from_input(now());
    assert_eq!(
        last_message(&app),
        "Allowed Discord user 7 to request alarms"
    );
    assert_eq!(app.new_allowed_requester_id, "");
    assert_eq!(app.state.discord_bridge.allowed_requester_ids, "7");
    assert_eq!(
        app.state.discord_bridge.allowed_requesters[0].discord_user_id,
        "7"
    );

    app.new_allowed_requester_id = "7".to_owned();
    app.add_allowed_requester_from_input(now());
    assert_eq!(
        last_message(&app),
        "Discord user is already allowed or the ID is invalid"
    );

    app.remove_allowed_requester("7", now());
    assert_eq!(
        last_message(&app),
        "Removed Discord user 7 from allowed users"
    );
    assert_eq!(app.state.discord_bridge.allowed_requester_ids, "");
    assert!(app.state.discord_bridge.allowed_requesters.is_empty());
}

#[test]
fn handled_requests_are_bounded() {
    let mut app = app();
    for id in 0..=MAX_HANDLED_REQUESTS as u64 {
        app.remember_bridge_request_id(id);
    }
    app.remember_bridge_request_id(3);

    assert_eq!(app.handled_bridge_request_ids.len(), 500);
    assert_eq!(app.handled_bridge_request_ids[0], 1);
    assert_eq!(app.handled_bridge_request_ids[499], 500);
}

#[test]
fn summaries_and_statuses() {
    let mut app = app();
    assert_eq!(app.alarm_summary(), "No alarm scheduled");
    assert_eq!(app.alarm_status_label(), "Idle");

    app.schedule_alarm_at("b".to_owned(), at(NOON + 20));
    app.schedule_alarm_at("a".to_owned(), at(NOON + 10));
    assert_eq!(
        app.alarm_summary(),
        "2 alarms scheduled, next: a at 2026-09-01 12:00:10"
    );

    assert!(app.set_bridge_status("x".to_owned()));
    assert!(!app.set_bridge_status("x".to_owned()));
    assert_eq!(expiry_text(now()), "Expires 12:00, 01-09-2026");
}

#[test]
fn popup_numbers_start_again_after_the_last() {
    let mut app = app();
    app.next_alarm_popup_id = u64::MAX;
    app.push_alarm_popup("a".to_owned(), now(), false, false, None);

    assert_eq!(app.alarm_popups[0].id, u64::MAX);
    assert_eq!(app.next_alarm_popup_id, 1);

    app.show_missed_alarm(pending(1, "b", NOON - 1), now());
    assert!(app.alarm_popups[1].missed);
    app.persist_current_state();
    assert_eq!(saves(&app.take_actions()), 2);
}

#[test]
fn time_field_is_left() {
    let mut app = app();
    app.state.alarm_time = "7:05".to_owned();
    app.leave_alarm_time_field(false, now());
    assert_eq!(app.state.alarm_time, "07.05");
    assert!(app.snapshot.alarm.alarms.is_empty());

    app.state.alarm_time = " ".to_owned();
    app.take_actions();
    app.leave_alarm_time_field(false, now());
    assert_eq!(app.state.alarm_time, " ");
    assert!(app.take_actions().is_empty());

    app.state.alarm_time = "0705".to_owned();
    app.leave_alarm_time_field(true, now());
    assert_eq!(app.snapshot.alarm.alarms.len(), 1);
}

#[test]
fn saved_settings_are_noted() {
    let mut app = app();
    let count = app.logs.len();
    app.note_saved(SavedSettings::All, false, now());
    assert_eq!(app.logs.len(), count);

    for (settings, words) in [
        (SavedSettings::All, "Settings saved"),
        (SavedSettings::Games, "Game settings saved"),
        (SavedSettings::GameDelay, "Game delay setting saved"),
        (SavedSettings::Appearance, "Appearance setting saved"),
        (
            SavedSettings::GraphicsBackend,
            "Graphics backend setting saved; restart required",
        ),
    ] {
        app.note_saved(settings, true, now());
        assert_eq!(last_message(&app), words);
        assert_eq!(settings.message(), words);
    }
}

#[test]
fn tasks_of_the_bridge_come_to_an_end() {
    let mut app = paired_app();
    app.registering = true;
    app.polling = true;
    assert!(!app.drain_bridge_tasks(TaskReport::Running, TaskReport::Running, now(), 1));
    assert!(app.registering && app.polling);

    assert!(app.drain_bridge_tasks(TaskReport::Lost, TaskReport::Lost, now(), 1));
    assert!(!app.registering && !app.polling);
    assert_eq!(
        last_message(&app),
        "Could not register Discord pairing code: Pairing registration worker stopped"
    );
    assert_eq!(
        app.bridge_status,
        "Bridge poll failed: Discord bridge polling worker stopped"
    );

    assert!(app.drain_bridge_tasks(
        TaskReport::Over(Ok(PairingRegistrationResponse {
            pairing_code: "CODE".to_owned(),
            expires_at_unix: NOON + 600,
        })),
        TaskReport::Over(Err("no net".to_owned())),
        now(),
        1
    ));
    assert_eq!(app.state.discord_bridge.pairing_code, "CODE");
    assert_eq!(app.bridge_status, "Bridge poll failed: no net");
}

#[test]
fn invited_user_may_ask_until_removed() {
    let mut app = paired_app();
    app.pending_companion_invites = vec![invite(1, "<@7>", "Jo")];
    app.answer_remote_request(&request(1, "7", "111"), Ok(at(NOON + 60)), now());
    assert!(app.snapshot.alarm.alarms.is_empty());

    app.allow_companion_invite(1, now());
    app.answer_remote_request(&request(2, "7", "111"), Ok(at(NOON + 60)), now());
    assert_eq!(app.snapshot.alarm.alarms.len(), 1);

    app.remove_allowed_requester("7", now());
    app.answer_remote_request(&request(3, "7", "111"), Ok(at(NOON + 60)), now());
    assert_eq!(app.snapshot.alarm.alarms.len(), 1);
}

#[test]
fn restart_brings_everything_back() {
    let mut app = paired_app();
    app.state.label = "Tea".to_owned();
    app.state.delay_for_games = false;
    app.schedule_alarm_at("b".to_owned(), at(NOON + 200));
    app.schedule_alarm_at("a".to_owned(), at(NOON + 100));
    app.log_info("last words".to_owned(), now());
    let saved = app
        .take_actions()
        .into_iter()
        .filter_map(|action| match action {
            AppAction::Save(state) => Some(state),
            _ => None,
        })
        .last()
        .expect("a save");

    let soon = AlarmApp::new(saved.clone(), None, None, at(NOON + 50));
    assert_eq!(soon.snapshot.alarm.alarms, app.snapshot.alarm.alarms);
    assert!(soon.alarm_popups.is_empty());
    assert_eq!(soon.next_alarm_id, app.next_alarm_id);
    assert_eq!(soon.state.label, "Tea");
    assert!(!soon.state.delay_for_games);
    assert_eq!(soon.state.discord_bridge, app.state.discord_bridge);
    assert_eq!(soon.logs[..app.logs.len()], app.logs[..]);

    let late = AlarmApp::new(saved, None, None, at(NOON + 150));
    assert_eq!(late.alarm_popups.len(), 1);
    assert!(late.alarm_popups[0].missed);
    assert_eq!(late.alarm_popups[0].reminder, "a");
    assert_eq!(late.snapshot.alarm.alarms.len(), 1);
}
