use alarm_at_game_end::counter_strike::{
    apply_report, changed_gsi_port, config_to_install, counter_strike_2_gsi_config_status,
    default_counter_strike_2_cfg_dir, default_counter_strike_2_gsi_config_path,
    gsi_config_contents, gsi_config_matches_current_settings, map_detail, normalize_gsi_port,
    status_from_gsi_snapshot, update_gsi_state, ConfigRead, Cs2GsiConfigStatus, Cs2GsiError,
    Cs2GsiSnapshot, SteamEnvironment, COUNTER_STRIKE_2_GAME_NAME,
    COUNTER_STRIKE_2_GSI_CONFIG_FILENAME, DEFAULT_COUNTER_STRIKE_2_GSI_PORT, GSI_STALE_AFTER_NANOS,
};
use alarm_at_game_end::game::GameStatus;

const NOW: u128 = 1_000_000_000_000;

#[test]
fn no_gsi_payload_is_inactive() {
    let status = status_from_gsi_snapshot(31990, &Cs2GsiSnapshot::default(), NOW);

    assert_eq!(
        status,
        GameStatus::inactive(
            COUNTER_STRIKE_2_GAME_NAME,
            Some("waiting for GSI updates on 127.0.0.1:31990".to_owned())
        )
    );
}

#[test]
fn payload_without_map_is_inactive() {
    let status = status_from_gsi_snapshot(
        31990,
        &Cs2GsiSnapshot {
            last_payload_at: Some(NOW),
            ..Default::default()
        },
        NOW,
    );

    assert_eq!(
        status,
        GameStatus::inactive(
            COUNTER_STRIKE_2_GAME_NAME,
            Some("client open, not connected to a server".to_owned())
        )
    );
}

#[test]
fn live_map_payload_is_active() {
    let status = status_from_gsi_snapshot(
        31990,
        &Cs2GsiSnapshot {
            last_payload_at: Some(NOW),
            map_present: true,
            map_name: Some("de_dust2".to_owned()),
            map_phase: Some("live".to_owned()),
        },
        NOW,
    );

    assert_eq!(
        status,
        GameStatus::active(
            COUNTER_STRIKE_2_GAME_NAME,
            Some("de_dust2 (live)".to_owned())
        )
    );
}

#[test]
fn gameover_map_payload_is_inactive() {
    let status = status_from_gsi_snapshot(
        31990,
        &Cs2GsiSnapshot {
            last_payload_at: Some(NOW),
            map_present: true,
            map_name: Some("de_nuke".to_owned()),
            map_phase: Some("gameover".to_owned()),
        },
        NOW,
    );

    assert_eq!(
        status,
        GameStatus::inactive(
            COUNTER_STRIKE_2_GAME_NAME,
            Some("de_nuke (gameover)".to_owned())
        )
    );
}

#[test]
fn gsi_payload_updates_snapshot_from_map_data() {
    let mut snapshot = Cs2GsiSnapshot::default();

    update_gsi_state(
        &br#"{"provider":{"name":"Counter-Strike: Global Offensive"},"map":{"name":"de_mirage","phase":"warmup"}}"#.to_vec(),
        &mut snapshot,
        NOW,
    );

    assert!(snapshot.last_payload_at.is_some());
    assert!(snapshot.map_present);
    assert_eq!(snapshot.map_name, Some("de_mirage".to_owned()));
    assert_eq!(snapshot.map_phase, Some("warmup".to_owned()));
}

#[test]
fn gsi_config_points_to_local_listener() {
    let config = gsi_config_contents(31991);

    assert!(config.contains(r#""uri" "http://127.0.0.1:31991/cs2""#));
    assert!(config.contains(r#""map" "1""#));
}

#[test]
fn gsi_config_match_requires_current_port() {
    let config = gsi_config_contents(31991);

    assert!(gsi_config_matches_current_settings(&config, 31991));
    assert!(!gsi_config_matches_current_settings(&config, 31992));
}

#[test]
fn whole_config_file() {
    assert_eq!(
        gsi_config_contents(31990),
        "\"Alarm at Game End\"\n{\n    \"uri\" \"http://127.0.0.1:31990/cs2\"\n    \"timeout\" \"5.0\"\n    \"buffer\" \"0.5\"\n    \"throttle\" \"1.0\"\n    \"heartbeat\" \"5.0\"\n    \"data\"\n    {\n        \"provider\" \"1\"\n        \"map\" \"1\"\n    }\n}\n"
    );
    assert_eq!(config_to_install(0), gsi_config_contents(31990));
    assert_eq!(config_to_install(8), gsi_config_contents(8));
}

#[test]
fn port_nought_stands_for_the_default() {
    assert_eq!(normalize_gsi_port(0), DEFAULT_COUNTER_STRIKE_2_GSI_PORT);
    assert_eq!(normalize_gsi_port(1), 1);
    assert_eq!(changed_gsi_port(31990, 0), None);
    assert_eq!(changed_gsi_port(31990, 31990), None);
    assert_eq!(changed_gsi_port(31990, 5), Some(5));
    assert_eq!(changed_gsi_port(5, 0), Some(31990));
    assert!(gsi_config_matches_current_settings(
        &gsi_config_contents(31990),
        0
    ));
}

#[test]
fn config_status_goes_by_the_file() {
    let status = |read: ConfigRead| counter_strike_2_gsi_config_status(&read, 31990);

    assert_eq!(status(ConfigRead::NoPath), Cs2GsiConfigStatus::BlankPath);
    assert_eq!(status(ConfigRead::NotFound), Cs2GsiConfigStatus::Missing);
    assert_eq!(
        status(ConfigRead::Unreadable),
        Cs2GsiConfigStatus::Unreadable
    );
    assert_eq!(
        status(ConfigRead::Contents(config_to_install(31990))),
        Cs2GsiConfigStatus::Installed
    );
    assert_eq!(
        status(ConfigRead::Contents(config_to_install(319))),
        Cs2GsiConfigStatus::NeedsUpdate
    );
    assert_eq!(
        status(ConfigRead::Contents(String::new())),
        Cs2GsiConfigStatus::NeedsUpdate
    );
}

#[test]
fn config_status_words() {
    let all = [
        (
            Cs2GsiConfigStatus::BlankPath,
            true,
            "Install CS2 GSI Config",
            "Choose a CS2 GSI config path before installing.",
        ),
        (
            Cs2GsiConfigStatus::Missing,
            true,
            "Install CS2 GSI Config",
            "Install once and restart CS2 so alarms only wait during active matches.",
        ),
        (
            Cs2GsiConfigStatus::Installed,
            false,
            "Install CS2 GSI Config",
            "CS2 GSI config is installed.",
        ),
        (
            Cs2GsiConfigStatus::NeedsUpdate,
            true,
            "Update CS2 GSI Config",
            "Update the CS2 GSI config after changing the port or path.",
        ),
        (
            Cs2GsiConfigStatus::Unreadable,
            true,
            "Install CS2 GSI Config",
            "The CS2 GSI config could not be checked.",
        ),
    ];

    for (status, needs_action, label, message) in all {
        assert_eq!(status.needs_install_action(), needs_action);
        assert_eq!(status.install_button_label(), label);
        assert_eq!(status.message(), message);
    }

    assert_eq!(
        Cs2GsiError::Io.message(),
        "could not access Counter-Strike 2 GSI config"
    );
}

#[test]
fn reports_go_stale() {
    let snapshot = Cs2GsiSnapshot {
        last_payload_at: Some(NOW),
        map_present: true,
        map_name: None,
        map_phase: None,
    };

    assert_eq!(
        status_from_gsi_snapshot(31990, &snapshot, NOW + GSI_STALE_AFTER_NANOS),
        GameStatus::active(
            COUNTER_STRIKE_2_GAME_NAME,
            Some("server connected".to_owned())
        )
    );
    assert_eq!(
        status_from_gsi_snapshot(31990, &snapshot, NOW + GSI_STALE_AFTER_NANOS + 1),
        GameStatus::inactive(
            COUNTER_STRIKE_2_GAME_NAME,
            Some("no recent GSI updates".to_owned())
        )
    );
    assert_eq!(GSI_STALE_AFTER_NANOS, 15_000_000_000);
}

#[test]
fn map_detail_shows_what_is_known() {
    let mut snapshot = Cs2GsiSnapshot::default();
    assert_eq!(map_detail(&snapshot, "nothing"), "nothing");

    snapshot.map_phase = Some("GameOver".to_owned());
    assert_eq!(map_detail(&snapshot, "nothing"), "GameOver");

    snapshot.map_present = true;
    snapshot.last_payload_at = Some(NOW);
    assert_eq!(
        status_from_gsi_snapshot(31990, &snapshot, NOW),
        GameStatus::inactive(COUNTER_STRIKE_2_GAME_NAME, Some("GameOver".to_owned()))
    );

    snapshot.map_name = Some("de_inferno".to_owned());
    snapshot.map_phase = None;
    assert_eq!(map_detail(&snapshot, "nothing"), "de_inferno");
}

#[test]
fn unreadable_report_changes_nothing() {
    let before = Cs2GsiSnapshot {
        last_payload_at: Some(5),
        map_present: true,
        map_name: Some("de_dust2".to_owned()),
        map_phase: None,
    };
    let mut snapshot = before.clone();

    update_gsi_state(&b"{\"map\":".to_vec(), &mut snapshot, NOW);
    assert_eq!(snapshot, before);

    apply_report(&mut snapshot, None, NOW);
    assert_eq!(snapshot, before);
}

#[test]
fn report_without_a_map_or_with_odd_values() {
    let mut snapshot = Cs2GsiSnapshot::default();

    update_gsi_state(&b"[1, 2]".to_vec(), &mut snapshot, 7);
    assert_eq!(
        snapshot,
        Cs2GsiSnapshot {
            last_payload_at: Some(7),
            ..Default::default()
        }
    );

    update_gsi_state(&br#"{"map":"de_dust2"}"#.to_vec(), &mut snapshot, 8);
    assert!(!snapshot.map_present);

    update_gsi_state(
        &br#"{"map":{"name":"","phase":3}}"#.to_vec(),
        &mut snapshot,
        9,
    );
    assert_eq!(
        snapshot,
        Cs2GsiSnapshot {
            last_payload_at: Some(9),
            map_present: true,
            map_name: None,
            map_phase: None,
        }
    );
}

#[test]
fn config_file_stands_in_the_steam_folder() {
    let environment = |on_windows: bool, x86: Option<&str>, home: Option<&str>| SteamEnvironment {
        on_windows,
        program_files_x86: x86.map(str::to_owned),
        program_files: None,
        home: home.map(str::to_owned),
    };

    let linux = default_counter_strike_2_gsi_config_path(&environment(false, None, Some("/home/me")));
    assert_eq!(linux.parts.first().map(String::as_str), Some("/home/me"));
    assert_eq!(
        linux.parts.last().map(String::as_str),
        Some(COUNTER_STRIKE_2_GSI_CONFIG_FILENAME)
    );
    assert_eq!(
        linux.parts[1..9].join("/"),
        ".steam/steam/steamapps/common/Counter-Strike Global Offensive/game/csgo/cfg"
    );

    assert_eq!(
        default_counter_strike_2_cfg_dir(&environment(false, Some("C:/Programs"), None)),
        None
    );
    assert_eq!(
        default_counter_strike_2_gsi_config_path(&environment(false, None, None)).parts,
        vec![COUNTER_STRIKE_2_GSI_CONFIG_FILENAME.to_owned()]
    );

    let windows = default_counter_strike_2_cfg_dir(&environment(true, Some("C:/Programs"), None))
        .expect("a folder under the programs");
    assert_eq!(
        windows.parts.join("/"),
        "C:/Programs/Steam/steamapps/common/Counter-Strike Global Offensive/game/csgo/cfg"
    );
}
