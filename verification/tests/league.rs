use alarm_at_game_end::alarm::GameActivity;
use alarm_at_game_end::game::GameStatus;
use alarm_at_game_end::http::HttpStatus;
use alarm_at_game_end::json::{Json, Member};
use alarm_at_game_end::league::{
    after_lockfile, after_reply, all_lockfile_places, candidate_lockfile_paths,
    classify_gameflow_phase, discover_lockfile, gameflow_request, keep_places,
    lockfile_paths_in, parse_lockfile, phase_in_body, phase_of_document, push_candidate_path,
    riot_client_install_lockfile_paths_from_json,
    status_from_gameflow_phase, GameflowReply, LeagueEnvironment, LeagueError, LeagueStep,
    Lockfile, LockfileRead, Platform, GAME_NAME,
};
use alarm_at_game_end::paths::PathParts;

fn joined(places: &[PathParts]) -> Vec<String> {
    places.iter().map(|place| place.parts.join("|")).collect()
}

fn environment(platform: Platform) -> LeagueEnvironment {
    LeagueEnvironment {
        platform,
        league_lockfile: None,
        program_files: None,
        program_files_x86: None,
        system_drive: None,
        riot_client_installs: None,
        home: None,
    }
}

#[test]
fn lockfile_parser_accepts_valid_lcu_shape() {
    let lockfile = match parse_lockfile("LeagueClient:1234:2999:secret:https") {
        Ok(lockfile) => lockfile,
        Err(error) => panic!("valid lockfile: {error:?}"),
    };

    assert_eq!(lockfile.process_name, "LeagueClient");
    assert_eq!(lockfile.pid, 1234);
    assert_eq!(lockfile.port, 2999);
    assert_eq!(lockfile.password, "secret");
    assert_eq!(lockfile.protocol, "https");
}

#[test]
fn lockfile_parser_rejects_missing_fields() {
    assert!(matches!(
        parse_lockfile("LeagueClient:1234:2999"),
        Err(LeagueError::InvalidLockfile)
    ));
}

#[test]
fn active_phases_delay_alarm() {
    for phase in [
        "ReadyCheck",
        "ChampSelect",
        "GameStart",
        "InProgress",
        "Reconnect",
    ] {
        assert_eq!(classify_gameflow_phase(phase), GameActivity::Active);
    }
}

#[test]
fn end_phases_do_not_delay_alarm() {
    for phase in [
        "None",
        "Lobby",
        "Matchmaking",
        "WaitingForStats",
        "PreEndOfGame",
        "EndOfGame",
    ] {
        assert_eq!(classify_gameflow_phase(phase), GameActivity::Inactive);
    }
}

#[test]
fn candidate_lockfile_paths_include_default_riot_install() {
    assert!(
        joined(&candidate_lockfile_paths(&environment(Platform::Windows)))
            .contains(&r"C:\|Riot Games|League of Legends|lockfile".to_owned())
    );
}

#[test]
fn riot_client_installs_json_adds_associated_client_lockfiles() {
    let paths = riot_client_install_lockfile_paths_from_json(
        r#"{
            "associated_client": {
                "D:/Riot Games/League of Legends/": "D:/Riot Games/Riot Client/RiotClientServices.exe"
            },
            "rc_live": "D:/Riot Games/Riot Client/RiotClientServices.exe"
        }"#,
    );

    let paths: Vec<std::path::PathBuf> = paths
        .iter()
        .map(|path| path.parts.iter().collect())
        .collect();
    assert_eq!(
        paths,
        vec![std::path::PathBuf::from(
            "D:/Riot Games/League of Legends/lockfile"
        )]
    );
}

#[test]
fn lockfile_errors() {
    let error = |contents: &str| parse_lockfile(contents).err();

    assert_eq!(error("a:b:c:d:e:f"), Some(LeagueError::InvalidLockfile));
    assert_eq!(error(""), Some(LeagueError::InvalidLockfile));
    assert_eq!(error("a:x:1:d:e"), Some(LeagueError::InvalidPid));
    assert_eq!(error("a:4294967296:1:d:e"), Some(LeagueError::InvalidPid));
    assert_eq!(error("a:1:65536:d:e"), Some(LeagueError::InvalidPort));
    assert_eq!(error("a:1::d:e"), Some(LeagueError::InvalidPort));
    assert_eq!(error("  a:+1:65535:d:e\r\n"), None);
    assert!(parse_lockfile("a:1:2:d:e\n").ok() == parse_lockfile("a:1:2:d:e").ok());
}

#[test]
fn league_error_words() {
    let status = HttpStatus::from_code(404).expect("a status");

    assert_eq!(LeagueError::Io.message(), "could not read League lockfile");
    assert_eq!(
        LeagueError::InvalidLockfile.message(),
        "invalid League lockfile format"
    );
    assert_eq!(
        LeagueError::InvalidPid.message(),
        "invalid League lockfile pid"
    );
    assert_eq!(
        LeagueError::InvalidPort.message(),
        "invalid League lockfile port"
    );
    assert_eq!(
        LeagueError::Client.message(),
        "could not create League HTTP client"
    );
    assert_eq!(
        LeagueError::HttpStatus(status).message(),
        "League API returned HTTP 404 Not Found"
    );
    assert_eq!(
        LeagueError::InvalidAuthHeader.message(),
        "could not build League authorization header"
    );
}

#[test]
fn status_names_the_phase() {
    assert_eq!(
        status_from_gameflow_phase("InProgress".to_owned()),
        GameStatus::active(GAME_NAME, Some("InProgress".to_owned()))
    );
    assert_eq!(
        status_from_gameflow_phase("Lobby".to_owned()),
        GameStatus::inactive(GAME_NAME, Some("client open, phase Lobby".to_owned()))
    );
}

#[test]
fn client_is_asked_under_its_password() {
    let request = gameflow_request(&Lockfile {
        process_name: "LeagueClient".to_owned(),
        pid: 1,
        port: 2999,
        password: "secret".to_owned(),
        protocol: "https".to_owned(),
    });

    assert_eq!(
        request.url,
        "https://127.0.0.1:2999/lol-gameflow/v1/gameflow-phase"
    );
    assert_eq!(request.authorization, "Basic cmlvdDpzZWNyZXQ=");
}

#[test]
fn lockfile_decides_the_next_step() {
    let done = |read: LockfileRead| match after_lockfile(read) {
        LeagueStep::Done(status) => Some(status),
        LeagueStep::Ask(_) => None,
    };

    assert_eq!(
        done(LockfileRead::NotFound),
        Some(GameStatus::inactive(
            GAME_NAME,
            Some("client not running".to_owned())
        ))
    );
    assert_eq!(
        done(LockfileRead::Unreadable),
        Some(GameStatus::unavailable(
            GAME_NAME,
            "could not read League lockfile"
        ))
    );
    assert_eq!(
        done(LockfileRead::Contents("x".to_owned())),
        Some(GameStatus::unavailable(
            GAME_NAME,
            "invalid League lockfile format"
        ))
    );
    assert!(match after_lockfile(LockfileRead::Contents("a:1:2:d:e".to_owned())) {
        LeagueStep::Ask(lockfile) => Some(lockfile) == parse_lockfile("a:1:2:d:e").ok(),
        LeagueStep::Done(_) => false,
    });
}

#[test]
fn reply_decides_the_status() {
    let ok = HttpStatus::from_code(200).expect("a status");
    let forbidden = HttpStatus::from_code(403).expect("a status");

    assert_eq!(
        after_reply(GameflowReply::Reply {
            status: ok,
            phase: Some("ChampSelect".to_owned())
        }),
        GameStatus::active(GAME_NAME, Some("ChampSelect".to_owned()))
    );
    assert_eq!(
        after_reply(GameflowReply::Reply {
            status: ok,
            phase: None
        }),
        GameStatus::unavailable(GAME_NAME, "could not create League HTTP client")
    );
    assert_eq!(
        after_reply(GameflowReply::Reply {
            status: forbidden,
            phase: Some("InProgress".to_owned())
        }),
        GameStatus::unavailable(GAME_NAME, "League API returned HTTP 403 Forbidden")
    );
    assert_eq!(
        after_reply(GameflowReply::NoReply),
        GameStatus::unavailable(GAME_NAME, "could not create League HTTP client")
    );
    assert_eq!(
        after_reply(GameflowReply::InvalidHeader),
        GameStatus::unavailable(GAME_NAME, "could not build League authorization header")
    );
}

#[test]
fn places_go_by_the_system() {
    let mut other = environment(Platform::Other);
    assert!(all_lockfile_places(&other).is_empty());

    other.home = Some("/home/me".to_owned());
    other.league_lockfile = Some("/tmp/lockfile".to_owned());
    assert_eq!(
        joined(&candidate_lockfile_paths(&other)),
        vec![
            "/tmp/lockfile".to_owned(),
            "/home/me|Games|league-of-legends|drive_c|Riot Games|League of Legends|lockfile"
                .to_owned(),
            "/home/me|.local|share|league-of-legends|lockfile".to_owned(),
        ]
    );

    assert_eq!(
        joined(&candidate_lockfile_paths(&environment(Platform::MacOs))),
        vec!["/Applications/League of Legends.app/Contents/LoL/lockfile".to_owned()]
    );
}

#[test]
fn places_are_listed_once() {
    let mut windows = environment(Platform::Windows);
    windows.league_lockfile = Some(String::new());
    windows.program_files = Some("P".to_owned());
    windows.program_files_x86 = Some("P".to_owned());
    windows.system_drive = Some("C:\\".to_owned());
    windows.riot_client_installs =
        Some(r#"{"associated_client":{"X":1,"P/Riot Games/League of Legends":2}}"#.to_owned());

    assert_eq!(all_lockfile_places(&windows).len(), 7);
    assert_eq!(
        joined(&candidate_lockfile_paths(&windows)),
        vec![
            "C:\\|Riot Games|League of Legends|lockfile".to_owned(),
            "P|Riot Games|League of Legends|lockfile".to_owned(),
            "X|lockfile".to_owned(),
        ]
    );

    let mut places = vec![PathParts::from_text("a")];
    push_candidate_path(&mut places, PathParts::from_text("b"), true);
    push_candidate_path(&mut places, PathParts::from_text("").join(""), false);
    assert_eq!(joined(&places), vec!["a".to_owned()]);
    push_candidate_path(&mut places, PathParts::from_text("b"), false);
    assert_eq!(joined(&places), vec!["a".to_owned(), "b".to_owned()]);
}

#[test]
fn list_of_installs_may_be_unusable() {
    let member = |name: &str, value: Json| Member {
        name: name.to_owned(),
        value,
    };

    for contents in ["", "[]", "{}", r#"{"associated_client": []}"#, "{"] {
        assert!(riot_client_install_lockfile_paths_from_json(contents).is_empty());
    }
    assert!(lockfile_paths_in(None).is_empty());
    assert_eq!(
        joined(&lockfile_paths_in(Some(Json::Object(vec![member(
            "associated_client",
            Json::Object(vec![member("b", Json::Null), member("a", Json::Null)])
        )])))),
        vec!["b|lockfile".to_owned(), "a|lockfile".to_owned()]
    );
}

#[test]
fn first_place_with_a_file_is_taken() {
    let candidates = vec![PathParts::from_text("a"), PathParts::from_text("b")];
    let user = Some("u".to_owned());

    assert_eq!(
        discover_lockfile(&user, true, &candidates, &vec![true, true]),
        Some(PathParts::from_text("u"))
    );
    assert_eq!(
        discover_lockfile(&user, false, &candidates, &vec![false, true]),
        Some(PathParts::from_text("b"))
    );
    assert_eq!(
        discover_lockfile(&None, true, &candidates, &vec![true, true]),
        Some(PathParts::from_text("a"))
    );
    assert_eq!(
        discover_lockfile(&None, false, &candidates, &vec![false, false]),
        None
    );
}

#[test]
fn repeats_are_not_kept() {
    let places = vec![
        PathParts::from_text("a"),
        PathParts::from_text(""),
        PathParts::from_text("b"),
        PathParts::from_text("c"),
    ];

    assert_eq!(
        joined(&keep_places(places, &vec![false, false, true, false])),
        vec!["a".to_owned(), "c".to_owned()]
    );
}

#[test]
fn no_place_is_passed_over() {
    let mut windows = environment(Platform::Windows);
    windows.league_lockfile = Some("D:/Games/lockfile".to_owned());
    windows.program_files = Some("P".to_owned());
    windows.riot_client_installs =
        Some(r#"{"associated_client":{"P//Riot Games/League of Legends":1}}"#.to_owned());
    let all = all_lockfile_places(&windows);
    let kept = candidate_lockfile_paths(&windows);

    let path = |place: &PathParts| place.parts.iter().collect::<std::path::PathBuf>();
    assert_eq!(kept[0].parts, vec!["D:/Games/lockfile".to_owned()]);
    assert!(kept.len() < all.len());
    for place in &all {
        assert!(place.is_empty() || kept.iter().any(|other| path(other) == path(place)));
    }
    for (i, place) in kept.iter().enumerate() {
        assert!(kept[..i].iter().all(|other| path(other) != path(place)));
    }
}

#[test]
fn body_gives_the_phase() {
    let phase = |body: &str| phase_in_body(&body.as_bytes().to_vec());

    assert_eq!(phase("\"InProgress\""), Some("InProgress".to_owned()));
    assert_eq!(phase(" \"Champ\\u0053elect\"\n"), Some("ChampSelect".to_owned()));
    assert_eq!(phase("InProgress"), None);
    assert_eq!(phase("{\"phase\":\"InProgress\"}"), None);
    assert_eq!(phase("null"), None);
    assert_eq!(phase(""), None);
    assert_eq!(phase_in_body(&vec![b'"', 0xff, b'"']), None);

    assert_eq!(
        phase_of_document(Some(Json::Text("Lobby".to_owned()))),
        Some("Lobby".to_owned())
    );
    assert_eq!(phase_of_document(Some(Json::Null)), None);
    assert_eq!(phase_of_document(None), None);
}
