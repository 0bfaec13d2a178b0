use alarm_at_game_end::alarm::{Alarm, AlarmStatus, PendingAlarmSnapshot};
use alarm_at_game_end::counter_strike::DEFAULT_COUNTER_STRIKE_2_GSI_PORT;
use alarm_at_game_end::discord_bridge::DiscordBridgeSettings;
use alarm_at_game_end::storage::{
    after_first_rename, app_config_dir, complete_saved_state, copy_log_entries, crash_log_path,
    graphics_backend_renderer, state_path, PersistedGraphicsBackendPreference, PersistedLogEntry,
    PersistedLogLevel, PersistedState, PersistedThemePreference, Renderer, ReplaceStep, SavedState,
    StorageError, DEFAULT_SOUND_PATH,
};
use alarm_at_game_end::time::LocalDateTime;

const CONFIG_PATH: &str = "cfg/gamestate_integration_alarm_at_game_end.cfg";

fn saved(label: &str, alarm_time: &str, lockfile_path: &str) -> SavedState {
    SavedState {
        label: label.to_owned(),
        alarm_time: alarm_time.to_owned(),
        delay_for_games: None,
        lockfile_path: lockfile_path.to_owned(),
        sound_path: None,
        counter_strike_2_gsi_port: None,
        counter_strike_2_gsi_config_path: None,
        logs: None,
        alarms: None,
        last_reported_crash_fingerprint: None,
        theme_preference: None,
        graphics_backend_preference: None,
        discord_bridge: None,
    }
}

fn at(unix_seconds: i64) -> LocalDateTime {
    LocalDateTime::from_parts(unix_seconds, 0, 0).expect("a time of the calendar")
}

fn entry(message: &str, level: PersistedLogLevel) -> PersistedLogEntry {
    PersistedLogEntry {
        occurred_at: at(1_788_264_000),
        level,
        message: message.to_owned(),
    }
}

#[test]
fn default_state_has_alarm_settings() {
    let state = PersistedState::with_defaults(CONFIG_PATH.to_owned());

    assert!(state.label.is_empty());
    assert_eq!(state.alarm_time, "19:30");
    assert!(state.delay_for_games);
    assert!(state.lockfile_path.is_empty());
    assert_eq!(state.sound_path, DEFAULT_SOUND_PATH);
    assert_eq!(
        state.counter_strike_2_gsi_port,
        DEFAULT_COUNTER_STRIKE_2_GSI_PORT
    );
    assert!(!state.counter_strike_2_gsi_config_path.is_empty());
    assert!(state.logs.is_empty());
    assert!(state.alarms.is_empty());
    assert_eq!(state.last_reported_crash_fingerprint, None);
    assert_eq!(state.theme_preference, PersistedThemePreference::System);
    assert_eq!(
        state.graphics_backend_preference,
        PersistedGraphicsBackendPreference::Auto
    );
    assert_eq!(state.discord_bridge, DiscordBridgeSettings::default());
}

#[test]
fn saved_state_uses_current_defaults_for_missing_fields() {
    let state = complete_saved_state(
        saved(
            "Stretch",
            "20:15",
            "C:/Riot Games/League of Legends/lockfile",
        ),
        CONFIG_PATH.to_owned(),
    );

    assert_eq!(state.label, "Stretch");
    assert_eq!(state.alarm_time, "20:15");
    assert!(state.delay_for_games);
    assert_eq!(
        state.lockfile_path,
        "C:/Riot Games/League of Legends/lockfile"
    );
    assert_eq!(state.sound_path, DEFAULT_SOUND_PATH);
    assert_eq!(
        state.counter_strike_2_gsi_port,
        DEFAULT_COUNTER_STRIKE_2_GSI_PORT
    );
    assert!(!state.counter_strike_2_gsi_config_path.is_empty());
    assert!(state.logs.is_empty());
    assert!(state.alarms.is_empty());
    assert_eq!(state.theme_preference, PersistedThemePreference::System);
    assert_eq!(
        state.graphics_backend_preference,
        PersistedGraphicsBackendPreference::Auto
    );
    assert_eq!(state.discord_bridge, DiscordBridgeSettings::default());
}

#[test]
fn saved_state_keeps_theme_preference() {
    let state = complete_saved_state(
        SavedState {
            delay_for_games: Some(true),
            theme_preference: Some(PersistedThemePreference::Light),
            ..saved("Stretch", "20:15", "")
        },
        CONFIG_PATH.to_owned(),
    );

    assert_eq!(state.theme_preference, PersistedThemePreference::Light);
    assert_eq!(
        state.graphics_backend_preference,
        PersistedGraphicsBackendPreference::Auto
    );
}

#[test]
fn saved_state_keeps_graphics_backend_preference() {
    let state = complete_saved_state(
        SavedState {
            delay_for_games: Some(true),
            graphics_backend_preference: Some(PersistedGraphicsBackendPreference::OpenGl),
            ..saved("Stretch", "20:15", "")
        },
        CONFIG_PATH.to_owned(),
    );

    assert_eq!(
        state.graphics_backend_preference,
        PersistedGraphicsBackendPreference::OpenGl
    );
}

#[test]
fn saved_state_keeps_explicit_blank_sound_path() {
    let state = complete_saved_state(
        SavedState {
            delay_for_games: Some(true),
            sound_path: Some(String::new()),
            ..saved("Stretch", "20:15", "")
        },
        CONFIG_PATH.to_owned(),
    );

    assert!(state.sound_path.is_empty());
    assert_eq!(
        state.counter_strike_2_gsi_port,
        DEFAULT_COUNTER_STRIKE_2_GSI_PORT
    );
    assert!(!state.counter_strike_2_gsi_config_path.is_empty());
}

#[test]
fn saved_state_keeps_counter_strike_2_gsi_settings() {
    let path = "D:/Steam/steamapps/common/Counter-Strike Global Offensive/game/csgo/cfg/gamestate_integration_alarm_at_game_end.cfg";
    let state = complete_saved_state(
        SavedState {
            delay_for_games: Some(true),
            sound_path: Some(String::new()),
            counter_strike_2_gsi_port: Some(31991),
            counter_strike_2_gsi_config_path: Some(path.to_owned()),
            ..saved("Stretch", "20:15", "")
        },
        CONFIG_PATH.to_owned(),
    );

    assert_eq!(state.counter_strike_2_gsi_port, 31991);
    assert_eq!(state.counter_strike_2_gsi_config_path, path);
}

#[test]
fn saved_state_keeps_logs_and_alarms() {
    let mut state = PersistedState::with_defaults(CONFIG_PATH.to_owned());
    state.logs.push(entry("Ready", PersistedLogLevel::Info));
    state.alarms.push(PendingAlarmSnapshot {
        id: 42,
        alarm: Alarm::new("Stretch", at(1_788_267_600), true),
        status: AlarmStatus::Scheduled,
        delayed_by_game: false,
    });

    let reloaded = complete_saved_state(
        SavedState {
            logs: Some(copy_log_entries(&state.logs)),
            alarms: Some(state.alarms.clone()),
            ..saved("", "19:30", "")
        },
        CONFIG_PATH.to_owned(),
    );

    assert_eq!(reloaded.logs, state.logs);
    assert_eq!(reloaded.alarms, state.alarms);
}

#[test]
fn whole_state_is_kept() {
    let mut state = PersistedState::with_defaults("a.cfg".to_owned());
    state.delay_for_games = false;
    state.last_reported_crash_fingerprint = Some("1:2".to_owned());
    state.theme_preference = PersistedThemePreference::Dark;
    state.discord_bridge.poll_enabled = true;
    state.logs.push(entry("x", PersistedLogLevel::Error));

    let reloaded = complete_saved_state(
        SavedState {
            label: state.label.clone(),
            alarm_time: state.alarm_time.clone(),
            delay_for_games: Some(state.delay_for_games),
            lockfile_path: state.lockfile_path.clone(),
            sound_path: Some(state.sound_path.clone()),
            counter_strike_2_gsi_port: Some(state.counter_strike_2_gsi_port),
            counter_strike_2_gsi_config_path: Some(state.counter_strike_2_gsi_config_path.clone()),
            logs: Some(copy_log_entries(&state.logs)),
            alarms: Some(state.alarms.clone()),
            last_reported_crash_fingerprint: state.last_reported_crash_fingerprint.clone(),
            theme_preference: Some(state.theme_preference),
            graphics_backend_preference: Some(state.graphics_backend_preference),
            discord_bridge: Some(state.discord_bridge.clone()),
        },
        "other.cfg".to_owned(),
    );

    assert_eq!(reloaded, state);
    assert_eq!(state.clone(), state);
}

#[test]
fn auto_graphics_backend_keeps_native_default_renderer() {
    assert_eq!(
        graphics_backend_renderer(PersistedGraphicsBackendPreference::Auto),
        None
    );
}

#[test]
fn explicit_graphics_backend_maps_to_renderer() {
    assert_eq!(
        graphics_backend_renderer(PersistedGraphicsBackendPreference::Wgpu),
        Some(Renderer::Wgpu)
    );
    assert_eq!(
        graphics_backend_renderer(PersistedGraphicsBackendPreference::OpenGl),
        Some(Renderer::Glow)
    );
}

#[test]
fn preference_words_and_defaults() {
    assert_eq!(PersistedGraphicsBackendPreference::Auto.label(), "Auto");
    assert_eq!(PersistedGraphicsBackendPreference::Wgpu.label(), "WGPU");
    assert_eq!(PersistedGraphicsBackendPreference::OpenGl.label(), "OpenGL");
    assert_eq!(
        PersistedGraphicsBackendPreference::default(),
        PersistedGraphicsBackendPreference::Auto
    );
    assert_eq!(
        PersistedThemePreference::default(),
        PersistedThemePreference::System
    );
    assert_eq!(PersistedLogLevel::Info.as_str(), "Info");
    assert_eq!(PersistedLogLevel::Error.as_str(), "Error");
}

#[test]
fn storage_error_words() {
    assert_eq!(
        StorageError::Io.message(),
        "could not access local app state"
    );
    assert_eq!(
        StorageError::Json.message(),
        "could not parse local app state"
    );
}

#[test]
fn files_stand_in_the_config_folder() {
    let config = || Some("/home/me/.config".to_owned());
    let current = || Some("/work".to_owned());

    assert_eq!(
        state_path(config(), current()).parts,
        vec![
            "/home/me/.config".to_owned(),
            "Alarm at Game End".to_owned(),
            "state.json".to_owned()
        ]
    );
    assert_eq!(
        crash_log_path(None, current()).parts,
        vec![
            "/work".to_owned(),
            ".alarm_at_game_end".to_owned(),
            "crash.log".to_owned()
        ]
    );
    assert_eq!(
        app_config_dir(None, None).parts,
        vec![".".to_owned(), ".alarm_at_game_end".to_owned()]
    );
}

#[test]
fn old_file_is_removed_only_after_a_failed_rename() {
    assert_eq!(after_first_rename(true, true), ReplaceStep::Done);
    assert_eq!(after_first_rename(true, false), ReplaceStep::Done);
    assert_eq!(
        after_first_rename(false, true),
        ReplaceStep::RemoveOldAndRetry
    );
    assert_eq!(after_first_rename(false, false), ReplaceStep::Fail);
}
