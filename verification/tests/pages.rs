use alarm_at_game_end::alarm::{Alarm, AlarmEngine, AlarmStatus, PendingAlarmSnapshot};
use alarm_at_game_end::counter_strike::{Cs2GsiConfigStatus, COUNTER_STRIKE_2_GAME_NAME};
use alarm_at_game_end::discord_bridge::{
    remember_allowed_requester, AllowedDiscordRequester, CompanionInvite, DiscordBridgeSettings,
    RemoteAlarmRequest,
};
use alarm_at_game_end::game::GameStatus;
use alarm_at_game_end::pages::{
    alarm_label_from_text, all_games_link, invite_question, log_level_color, allowed_discord_user_rows, clear_inactive_pairing_code,
    counter_strike_2_gsi_is_working, counter_strike_2_setup_message,
    detected_games_overflow_count, discord_invite_user_label, discord_user_label,
    game_status_name, game_status_row, gsi_config_path_from_text, knows_invite,
    lockfile_override_from_text, new_companion_invite_labels, offers_gsi_install, paired,
    paired_discord_account_label, persisted_log_entries_from_logs, push_log,
    refresh_alarm_snapshot_status, remember_requester_label_from_request, same_requesters,
    split_saved_alarms, status_detail, status_detail_or_dash, visible_pairing_code,
    AllowedDiscordUserRow, MAX_LOG_ENTRIES,
};
use alarm_at_game_end::requesters::normalize_allowed_requester_id;
use alarm_at_game_end::storage::{PersistedLogEntry, PersistedLogLevel};
use alarm_at_game_end::theme::{error_text_color, muted_text_color, Color};
use alarm_at_game_end::time::LocalDateTime;
use chrono::{DateTime, Duration, Local, TimeZone};

fn local(value: DateTime<Local>) -> LocalDateTime {
    LocalDateTime::from_parts(
        value.timestamp(),
        value.timestamp_subsec_nanos(),
        value.offset().local_minus_utc(),
    )
    .expect("a time of the calendar")
}

fn at(unix_seconds: i64) -> LocalDateTime {
    LocalDateTime::from_parts(unix_seconds, 0, 0).expect("a time of the calendar")
}

fn request(requester_label: Option<&str>) -> RemoteAlarmRequest {
    RemoteAlarmRequest {
        id: 1,
        requester_id: "222".to_owned(),
        requester_label: requester_label.map(str::to_owned),
        target_id: "111".to_owned(),
        hour: 7,
        minute: 5,
        label: "Laundry".to_owned(),
        created_at_unix: 1,
        expires_at_unix: 2,
    }
}

fn row(discord_user_id: &str, display_name: &str) -> AllowedDiscordUserRow {
    AllowedDiscordUserRow {
        discord_user_id: discord_user_id.to_owned(),
        display_name: display_name.to_owned(),
    }
}

fn invite(id: u64, invitee_id: &str, invitee_label: &str) -> CompanionInvite {
    CompanionInvite {
        id,
        owner_id: "111".to_owned(),
        invitee_id: invitee_id.to_owned(),
        invitee_label: invitee_label.to_owned(),
        created_at_unix: 1,
        expires_at_unix: 2,
    }
}

fn pending(id: u64, time: i64, status: AlarmStatus) -> PendingAlarmSnapshot {
    PendingAlarmSnapshot {
        id,
        alarm: Alarm::new("x", at(time), true),
        status,
        delayed_by_game: false,
    }
}

fn entry(message: &str) -> PersistedLogEntry {
    PersistedLogEntry {
        occurred_at: at(1),
        level: PersistedLogLevel::Info,
        message: message.to_owned(),
    }
}

#[test]
fn blank_lockfile_override_is_ignored() {
    assert_eq!(lockfile_override_from_text("   "), None);
}

#[test]
fn lockfile_override_keeps_entered_path() {
    assert_eq!(
        lockfile_override_from_text("C:/Riot Games/League of Legends/lockfile"),
        Some("C:/Riot Games/League of Legends/lockfile".to_owned())
    );
}

#[test]
fn blank_gsi_config_path_is_ignored() {
    assert_eq!(gsi_config_path_from_text("   "), None);
}

#[test]
fn gsi_config_path_keeps_entered_path() {
    assert_eq!(
        gsi_config_path_from_text("D:/Steam/cfg/gamestate_integration_alarm_at_game_end.cfg"),
        Some("D:/Steam/cfg/gamestate_integration_alarm_at_game_end.cfg".to_owned())
    );
}

#[test]
fn detected_games_overflow_starts_after_inline_limit() {
    assert_eq!(detected_games_overflow_count(4), None);
    assert_eq!(detected_games_overflow_count(5), Some(1));
}

#[test]
fn allowed_discord_user_rows_use_labels_when_available() {
    let mut settings = DiscordBridgeSettings::default();
    settings.allowed_requester_ids = "333\n222".to_owned();
    settings.allowed_requesters.push(AllowedDiscordRequester {
        discord_user_id: "222".to_owned(),
        display_name: "Jane".to_owned(),
    });

    assert_eq!(
        allowed_discord_user_rows(&settings),
        vec![row("222", "Jane"), row("333", "Unknown user")]
    );
}

#[test]
fn requester_label_from_remote_request_updates_allowed_user_row() {
    let mut settings = DiscordBridgeSettings::default();
    settings.allowed_requester_ids = "222".to_owned();

    assert!(remember_requester_label_from_request(
        &mut settings,
        &request(Some("Jane"))
    ));
    assert_eq!(
        allowed_discord_user_rows(&settings),
        vec![row("222", "Jane")]
    );
}

#[test]
fn blank_requester_label_does_not_overwrite_known_allowed_user_name() {
    let mut settings = DiscordBridgeSettings::default();
    settings.allowed_requester_ids = "222".to_owned();
    remember_allowed_requester(&mut settings, "222", "Jane");

    assert!(!remember_requester_label_from_request(
        &mut settings,
        &request(Some("   "))
    ));
    assert_eq!(
        allowed_discord_user_rows(&settings),
        vec![row("222", "Jane")]
    );
}

#[test]
fn paired_discord_account_label_prefers_name_with_id() {
    let mut settings = DiscordBridgeSettings {
        paired_discord_user_id: Some("123".to_owned()),
        paired_discord_user_label: Some("Zyhler".to_owned()),
        ..Default::default()
    };

    assert_eq!(paired_discord_account_label(&settings), "Zyhler (ID: 123)");

    settings.paired_discord_user_label = None;

    assert_eq!(paired_discord_account_label(&settings), "ID: 123");
}

#[test]
fn pairing_code_is_only_visible_while_unpaired_and_unexpired() {
    let now = Local.with_ymd_and_hms(2026, 9, 1, 12, 0, 0).unwrap();
    let mut settings = DiscordBridgeSettings {
        pairing_code: "ABCD-1234".to_owned(),
        pairing_expires_at: Some(local(now + Duration::minutes(5))),
        ..Default::default()
    };

    assert_eq!(
        visible_pairing_code(&settings, local(now)),
        Some("ABCD-1234")
    );

    settings.paired_discord_user_id = Some("123".to_owned());
    assert_eq!(visible_pairing_code(&settings, local(now)), None);

    settings.paired_discord_user_id = None;
    settings.pairing_expires_at = Some(local(now - Duration::seconds(1)));
    assert_eq!(visible_pairing_code(&settings, local(now)), None);
}

#[test]
fn inactive_pairing_code_is_cleared_from_state() {
    let now = Local.with_ymd_and_hms(2026, 9, 1, 12, 0, 0).unwrap();
    let mut settings = DiscordBridgeSettings {
        pairing_code: "ABCD-1234".to_owned(),
        pairing_expires_at: Some(local(now + Duration::minutes(5))),
        paired_discord_user_id: Some("123".to_owned()),
        ..Default::default()
    };

    assert!(clear_inactive_pairing_code(&mut settings, local(now)));
    assert!(settings.pairing_code.is_empty());
    assert_eq!(settings.pairing_expires_at, None);

    assert!(!clear_inactive_pairing_code(&mut settings, local(now)));
}

#[test]
fn new_companion_invite_labels_only_returns_unseen_invites() {
    let existing = vec![CompanionInvite {
        id: 1,
        owner_id: "111".to_owned(),
        invitee_id: "222".to_owned(),
        invitee_label: "Jane".to_owned(),
        created_at_unix: 1,
        expires_at_unix: 2,
    }];
    let incoming = vec![
        CompanionInvite {
            id: 1,
            owner_id: "111".to_owned(),
            invitee_id: "222".to_owned(),
            invitee_label: "Jane".to_owned(),
            created_at_unix: 1,
            expires_at_unix: 2,
        },
        CompanionInvite {
            id: 2,
            owner_id: "111".to_owned(),
            invitee_id: "333".to_owned(),
            invitee_label: String::new(),
            created_at_unix: 3,
            expires_at_unix: 4,
        },
    ];

    assert_eq!(
        new_companion_invite_labels(&existing, &incoming),
        vec!["<@333>".to_owned()]
    );
}

#[test]
fn blank_alarm_label_defaults_to_alarm() {
    assert_eq!(alarm_label_from_text("   "), "Alarm");
    assert_eq!(alarm_label_from_text(" Laundry "), "Laundry");
}

#[test]
fn counter_strike_2_gsi_is_working_when_active() {
    assert!(counter_strike_2_gsi_is_working(Some(&GameStatus::active(
        COUNTER_STRIKE_2_GAME_NAME,
        Some("de_dust2 (live)".to_owned())
    ))));
}

#[test]
fn counter_strike_2_gsi_is_not_working_without_recent_updates() {
    assert!(!counter_strike_2_gsi_is_working(Some(
        &GameStatus::inactive(
            COUNTER_STRIKE_2_GAME_NAME,
            Some("waiting for GSI updates on 127.0.0.1:31990".to_owned())
        )
    )));
    assert!(!counter_strike_2_gsi_is_working(Some(
        &GameStatus::inactive(
            COUNTER_STRIKE_2_GAME_NAME,
            Some("no recent GSI updates".to_owned())
        )
    )));
}

#[test]
fn saved_alarms_are_split_into_restored_and_missed() {
    let now = Local::now();
    let past = PendingAlarmSnapshot {
        id: 1,
        alarm: Alarm::new("Past", local(now - Duration::minutes(1)), true),
        status: AlarmStatus::Scheduled,
        delayed_by_game: false,
    };
    let future = PendingAlarmSnapshot {
        id: 2,
        alarm: Alarm::new("Future", local(now + Duration::minutes(1)), true),
        status: AlarmStatus::Scheduled,
        delayed_by_game: false,
    };

    let (restored, missed) = split_saved_alarms(vec![future.clone(), past.clone()], local(now));

    assert_eq!(restored, vec![future]);
    assert_eq!(missed, vec![past]);
}

#[test]
fn persisted_log_entries_keep_last_entries() {
    let now = local(Local::now());
    let logs = (0..(MAX_LOG_ENTRIES + 5))
        .map(|index| PersistedLogEntry {
            occurred_at: now,
            level: PersistedLogLevel::Info,
            message: format!("entry {index}"),
        })
        .collect::<Vec<_>>();

    let persisted = persisted_log_entries_from_logs(&logs);

    assert_eq!(persisted.len(), MAX_LOG_ENTRIES);
    assert_eq!(persisted.first().expect("first log").message, "entry 5");
    assert_eq!(
        persisted.last().expect("last log").message,
        format!("entry {}", MAX_LOG_ENTRIES + 4)
    );
}

#[test]
fn log_drops_its_oldest_entry() {
    let mut logs = (0..MAX_LOG_ENTRIES)
        .map(|index| entry(&format!("entry {index}")))
        .collect::<Vec<_>>();
    push_log(&mut logs, entry("new"));

    assert_eq!(logs.len(), MAX_LOG_ENTRIES);
    assert_eq!(logs[0].message, "entry 1");
    assert_eq!(logs[MAX_LOG_ENTRIES - 1].message, "new");
    assert_eq!(persisted_log_entries_from_logs(&logs), logs);
}

#[test]
fn fired_alarms_are_neither_restored_nor_lost_when_due() {
    let (restored, missed) = split_saved_alarms(
        vec![
            pending(5, 200, AlarmStatus::Fired),
            pending(4, 300, AlarmStatus::WaitingForGameEnd),
            pending(3, 200, AlarmStatus::Scheduled),
            pending(2, 100, AlarmStatus::Fired),
            pending(1, 100, AlarmStatus::Scheduled),
        ],
        at(100),
    );

    let ids = |alarms: &[PendingAlarmSnapshot]| -> Vec<u64> {
        alarms.iter().map(|alarm| alarm.id).collect()
    };
    assert_eq!(ids(&restored), vec![3, 4]);
    assert_eq!(ids(&missed), vec![1, 2]);
}

#[test]
fn snapshot_status_follows_its_alarms() {
    let mut snapshot = AlarmEngine::default().snapshot();
    snapshot.alarms.push(pending(1, 100, AlarmStatus::Scheduled));
    refresh_alarm_snapshot_status(&mut snapshot);
    assert_eq!(snapshot.status, AlarmStatus::Scheduled);

    snapshot
        .alarms
        .push(pending(2, 100, AlarmStatus::WaitingForGameEnd));
    refresh_alarm_snapshot_status(&mut snapshot);
    assert_eq!(snapshot.status, AlarmStatus::WaitingForGameEnd);

    snapshot.alarms.clear();
    snapshot.fired_at = Some(at(100));
    refresh_alarm_snapshot_status(&mut snapshot);
    assert_eq!(snapshot.status, AlarmStatus::Fired);
}

#[test]
fn status_details() {
    let active = GameStatus::active("Go", Some("endgame".to_owned()));
    let quiet = GameStatus::inactive("Go", None);
    let unavailable = GameStatus::unavailable("Go", "gone");

    assert_eq!(game_status_name(&quiet), "Go");
    assert_eq!(status_detail(&active), "endgame");
    assert_eq!(status_detail(&quiet), "");
    assert_eq!(status_detail(&unavailable), "gone");
    assert_eq!(status_detail_or_dash(Some(&active)), "endgame");
    assert_eq!(status_detail_or_dash(Some(&quiet)), "-");
    assert_eq!(status_detail_or_dash(None), "-");
}

#[test]
fn status_rows() {
    let active = game_status_row(&GameStatus::active("Go", None), true);
    assert_eq!((active.game, active.state), ("Go", "Active"));
    assert_eq!(active.detail, None);
    assert_eq!(
        active.color,
        Color {
            red: 80,
            green: 170,
            blue: 95
        }
    );

    let inactive = game_status_row(&GameStatus::inactive("Go", Some("x".to_owned())), false);
    assert_eq!(inactive.state, "Inactive");
    assert_eq!(inactive.detail, Some("x".to_owned()));
    assert_eq!(inactive.color, muted_text_color(false));

    let unavailable = game_status_row(&GameStatus::unavailable("Go", "gone"), true);
    assert_eq!(unavailable.state, "Unavailable");
    assert_eq!(unavailable.detail, Some("gone".to_owned()));
    assert_eq!(
        unavailable.color,
        Color {
            red: 200,
            green: 145,
            blue: 45
        }
    );
}

#[test]
fn only_reports_of_counter_strike_count_as_working() {
    assert!(!counter_strike_2_gsi_is_working(None));
    assert!(!counter_strike_2_gsi_is_working(Some(
        &GameStatus::active("League of Legends", None)
    )));
    assert!(!counter_strike_2_gsi_is_working(Some(
        &GameStatus::inactive(COUNTER_STRIKE_2_GAME_NAME, None)
    )));
    assert!(!counter_strike_2_gsi_is_working(Some(
        &GameStatus::unavailable(COUNTER_STRIKE_2_GAME_NAME, "x")
    )));
    assert!(counter_strike_2_gsi_is_working(Some(
        &GameStatus::inactive(
            COUNTER_STRIKE_2_GAME_NAME,
            Some("client open, not connected to a server".to_owned())
        )
    )));
}

#[test]
fn setup_of_counter_strike() {
    assert_eq!(
        counter_strike_2_setup_message(Cs2GsiConfigStatus::Missing, true),
        "CS2 GSI is working; alarms only wait during active matches."
    );
    assert_eq!(
        counter_strike_2_setup_message(Cs2GsiConfigStatus::Installed, false),
        "CS2 GSI config is installed; restart CS2 if it was already open."
    );
    assert_eq!(
        counter_strike_2_setup_message(Cs2GsiConfigStatus::Missing, false),
        Cs2GsiConfigStatus::Missing.message()
    );
    assert!(offers_gsi_install(Cs2GsiConfigStatus::Missing, false));
    assert!(!offers_gsi_install(Cs2GsiConfigStatus::Missing, true));
    assert!(!offers_gsi_install(Cs2GsiConfigStatus::Installed, false));
}

#[test]
fn code_without_an_expiry_is_not_shown() {
    let mut settings = DiscordBridgeSettings {
        pairing_code: " ABCD-1234 ".to_owned(),
        ..Default::default()
    };
    assert_eq!(visible_pairing_code(&settings, at(100)), None);

    settings.pairing_expires_at = Some(at(101));
    assert_eq!(visible_pairing_code(&settings, at(100)), Some("ABCD-1234"));
    assert_eq!(visible_pairing_code(&settings, at(101)), None);
    assert!(!clear_inactive_pairing_code(&mut settings, at(100)));

    settings.paired_discord_user_id = Some(" ".to_owned());
    assert!(!paired(&settings));
    assert_eq!(visible_pairing_code(&settings, at(100)), Some("ABCD-1234"));

    settings.pairing_code.clear();
    assert!(clear_inactive_pairing_code(&mut settings, at(100)));
    assert_eq!(settings.pairing_expires_at, None);
}

#[test]
fn account_that_is_not_paired() {
    let mut settings = DiscordBridgeSettings::default();
    assert_eq!(paired_discord_account_label(&settings), "-");
    assert!(!paired(&settings));

    settings.paired_discord_user_id = Some("7".to_owned());
    settings.paired_discord_user_label = Some("  ".to_owned());
    assert!(paired(&settings));
    assert_eq!(paired_discord_account_label(&settings), "ID: 7");
}

#[test]
fn mention_names_the_user() {
    assert_eq!(discord_user_label("42"), "<@42>");
    assert_eq!(
        normalize_allowed_requester_id(&discord_user_label("42")),
        Some("42".to_owned())
    );
    assert_eq!(discord_invite_user_label(&invite(1, "42", " Jo ")), "Jo");
    assert_eq!(discord_invite_user_label(&invite(1, "42", " ")), "<@42>");
    assert!(knows_invite(&vec![invite(1, "42", "")], 1));
    assert!(!knows_invite(&vec![invite(1, "42", "")], 2));
}

#[test]
fn labels_of_requesters_are_compared() {
    let mut settings = DiscordBridgeSettings::default();
    assert!(!remember_requester_label_from_request(
        &mut settings,
        &request(None)
    ));
    assert!(remember_requester_label_from_request(
        &mut settings,
        &request(Some("Jane"))
    ));
    assert!(!remember_requester_label_from_request(
        &mut settings,
        &request(Some(" Jane "))
    ));

    let known = settings.allowed_requesters.clone();
    assert!(same_requesters(&known, &settings.allowed_requesters));
    assert!(!same_requesters(&known, &vec![]));
}

#[test]
fn words_and_colors_of_the_pages() {
    assert_eq!(all_games_link(4), None);
    assert_eq!(
        all_games_link(12),
        Some("View all 12 detected games".to_owned())
    );
    assert_eq!(
        invite_question(&invite(1, "42", "")),
        "Allow <@42> to request alarms"
    );
    for dark_mode in [true, false] {
        assert_eq!(
            log_level_color(PersistedLogLevel::Info, dark_mode),
            muted_text_color(dark_mode)
        );
        assert_eq!(
            log_level_color(PersistedLogLevel::Error, dark_mode),
            error_text_color(dark_mode)
        );
    }
}
