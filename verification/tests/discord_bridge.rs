use alarm_at_game_end::alarm::normalize_alarm_time_text;
use alarm_at_game_end::discord_bridge::{
    check_reply, display_pairing_code, ensure_credentials, fill_credentials,
    forget_allowed_requester, generate_pairing_code, position_of_requester,
    remember_allowed_requester, saved_bridge_url, AllowedDiscordRequester, BridgeBody,
    BridgeClientConfig, BridgeError, BridgeMessage, DiscordBridgeSettings, InviteStatus,
    RemoteAlarmRequest, RequestStatus, DEFAULT_BRIDGE_URL, HTTP_TIMEOUT_MILLIS,
    POLL_INTERVAL_MILLIS,
};
use alarm_at_game_end::http::HttpStatus;

fn requester(id: &str, name: &str) -> AllowedDiscordRequester {
    AllowedDiscordRequester {
        discord_user_id: id.to_owned(),
        display_name: name.to_owned(),
    }
}

fn request(hour: u8, minute: u8) -> RemoteAlarmRequest {
    RemoteAlarmRequest {
        id: 1,
        requester_id: "111".to_owned(),
        requester_label: None,
        target_id: "222".to_owned(),
        hour,
        minute,
        label: "Laundry".to_owned(),
        created_at_unix: 1,
        expires_at_unix: 2,
    }
}

#[test]
fn default_bridge_url_points_to_configured_server() {
    assert_eq!(
        DiscordBridgeSettings::default().bridge_url,
        DEFAULT_BRIDGE_URL
    );
}

#[test]
fn saved_bridge_settings_without_url_use_default_bridge_url() {
    let settings = DiscordBridgeSettings {
        bridge_url: saved_bridge_url(None),
        ..Default::default()
    };

    assert_eq!(settings.bridge_url, DEFAULT_BRIDGE_URL);
}

#[test]
fn saved_bridge_settings_with_blank_url_use_default_bridge_url() {
    let settings = DiscordBridgeSettings {
        bridge_url: saved_bridge_url(Some("   ".to_owned())),
        ..Default::default()
    };

    assert_eq!(settings.bridge_url, DEFAULT_BRIDGE_URL);
}

#[test]
fn saved_bridge_settings_keep_custom_bridge_url() {
    let settings = DiscordBridgeSettings {
        bridge_url: saved_bridge_url(Some("http://127.0.0.1:3000".to_owned())),
        ..Default::default()
    };

    assert_eq!(settings.bridge_url, "http://127.0.0.1:3000");
}

#[test]
fn ensure_credentials_only_generates_missing_values() {
    let mut settings = DiscordBridgeSettings::default();

    assert!(ensure_credentials(&mut settings));
    assert_eq!(settings.companion_id.len(), 32);
    assert!(settings.api_token.len() >= 32);

    let companion_id = settings.companion_id.clone();
    let api_token = settings.api_token.clone();

    assert!(!ensure_credentials(&mut settings));
    assert_eq!(settings.companion_id, companion_id);
    assert_eq!(settings.api_token, api_token);
}

#[test]
fn can_poll_when_bridge_url_and_credentials_exist() {
    let mut settings = DiscordBridgeSettings {
        bridge_url: "http://127.0.0.1:3000".to_owned(),
        ..Default::default()
    };

    assert!(ensure_credentials(&mut settings));
    assert!(settings.can_poll());
}

#[test]
fn pairing_code_uses_four_four_hex_shape() {
    let code = generate_pairing_code();

    assert_eq!(code.len(), 9);
    assert_eq!(&code[4..5], "-");
    assert!(code
        .chars()
        .filter(|character| *character != '-')
        .all(|character| character.is_ascii_hexdigit()));
}

#[test]
fn remembered_allowed_requester_stores_latest_display_name() {
    let mut settings = DiscordBridgeSettings::default();

    remember_allowed_requester(&mut settings, "222", "Jane");
    remember_allowed_requester(&mut settings, "222", "Jane D");

    assert_eq!(
        settings.allowed_requesters,
        vec![AllowedDiscordRequester {
            discord_user_id: "222".to_owned(),
            display_name: "Jane D".to_owned()
        }]
    );
}

#[test]
fn request_time_text_matches_alarm_input_format() {
    assert_eq!(request(7, 5).time_text(), "07.05");
}

#[test]
fn request_times_read_back() {
    for hour in 0..24 {
        for minute in 0..60 {
            let text = request(hour, minute).time_text();
            assert_eq!(normalize_alarm_time_text(&text).unwrap(), text);
        }
    }

    assert_eq!(request(255, 200).time_text(), "255.200");
    assert!(normalize_alarm_time_text(&request(24, 0).time_text()).is_err());
}

#[test]
fn made_up_credentials_differ() {
    let mut one = DiscordBridgeSettings::default();
    let mut other = DiscordBridgeSettings::default();
    ensure_credentials(&mut one);
    ensure_credentials(&mut other);

    assert_ne!(one.companion_id, other.companion_id);
    assert_ne!(one.api_token, other.api_token);
    assert!(one
        .companion_id
        .chars()
        .all(|c| c.is_ascii_digit() || ('a'..='f').contains(&c)));
    assert_eq!(one.api_token.len(), 43);
    assert!(one
        .api_token
        .chars()
        .all(|c| c.is_ascii_alphanumeric() || c == '-' || c == '_'));
}

#[test]
fn only_blank_credentials_are_filled() {
    let mut settings = DiscordBridgeSettings {
        companion_id: " kept ".to_owned(),
        api_token: " \t".to_owned(),
        ..Default::default()
    };

    assert!(fill_credentials(
        &mut settings,
        "new id".to_owned(),
        "new token".to_owned()
    ));
    assert_eq!(settings.companion_id, " kept ");
    assert_eq!(settings.api_token, "new token");
    assert!(!fill_credentials(
        &mut settings,
        "newer id".to_owned(),
        "newer token".to_owned()
    ));
}

#[test]
fn pairing_codes_are_shown_in_two_halves() {
    assert_eq!(display_pairing_code(0), "0000-0000");
    assert_eq!(display_pairing_code(0xABCD_1234), "ABCD-1234");
    assert_eq!(display_pairing_code(u32::MAX), "FFFF-FFFF");
}

#[test]
fn client_config_needs_url_and_credentials() {
    assert!(matches!(
        BridgeClientConfig::new(" / ", "id", "token"),
        Err(BridgeError::MissingBridgeUrl)
    ));
    assert!(matches!(
        BridgeClientConfig::new("", "", ""),
        Err(BridgeError::MissingBridgeUrl)
    ));
    assert!(matches!(
        BridgeClientConfig::new("http://x", " ", "token"),
        Err(BridgeError::MissingCredentials)
    ));
    assert!(matches!(
        BridgeClientConfig::new("http://x", "id", ""),
        Err(BridgeError::MissingCredentials)
    ));
    assert!(matches!(
        DiscordBridgeSettings::default().client_config(),
        Err(BridgeError::MissingCredentials)
    ));
    assert!(!DiscordBridgeSettings::default().can_poll());
}

#[test]
fn messages_to_the_bridge() {
    let config =
        BridgeClientConfig::new("  http://bridge.example// ", " id ", " token ").expect("valid");

    assert_eq!(
        config.pairing_registration("ABCD-1234"),
        BridgeMessage {
            url: "http://bridge.example/bridge/pairings".to_owned(),
            bearer_token: None,
            body: BridgeBody::Registration {
                companion_id: "id".to_owned(),
                api_token: "token".to_owned(),
                pairing_code: "ABCD-1234".to_owned(),
            },
        }
    );
    assert_eq!(
        config.request_poll(),
        BridgeMessage {
            url: "http://bridge.example/bridge/requests".to_owned(),
            bearer_token: Some("token".to_owned()),
            body: BridgeBody::Nothing,
        }
    );
    assert_eq!(
        config.request_report(17, RequestStatus::Rejected, Some("no".to_owned())),
        BridgeMessage {
            url: "http://bridge.example/bridge/requests/17/status".to_owned(),
            bearer_token: Some("token".to_owned()),
            body: BridgeBody::RequestStatus {
                status: "rejected".to_owned(),
                reason: Some("no".to_owned()),
            },
        }
    );
    assert_eq!(
        config.request_report(u64::MAX, RequestStatus::Accepted, None).url,
        "http://bridge.example/bridge/requests/18446744073709551615/status"
    );
    assert_eq!(
        config.clone().invite_report(3, InviteStatus::Allowed),
        BridgeMessage {
            url: "http://bridge.example/bridge/invites/3/status".to_owned(),
            bearer_token: Some("token".to_owned()),
            body: BridgeBody::InviteStatus {
                status: "allowed".to_owned(),
            },
        }
    );
}

#[test]
fn status_words_on_the_wire() {
    assert_eq!(RequestStatus::Accepted.as_str(), "accepted");
    assert_eq!(RequestStatus::Rejected.as_str(), "rejected");
    assert_eq!(InviteStatus::Allowed.as_str(), "allowed");
    assert_eq!(InviteStatus::Rejected.as_str(), "rejected");
    assert_eq!(POLL_INTERVAL_MILLIS, 5000);
    assert_eq!(HTTP_TIMEOUT_MILLIS, 10000);
}

#[test]
fn replies_other_than_success_are_errors() {
    let status = |code: u16| HttpStatus::from_code(code).expect("a status");

    assert!(check_reply(status(200), None).is_ok());
    assert!(check_reply(status(299), Some("ignored".to_owned())).is_ok());

    let error = check_reply(status(403), Some("go away".to_owned())).expect_err("an error");
    assert_eq!(error.message(), "bridge returned 403 Forbidden: go away");

    let error = check_reply(status(500), None).expect_err("an error");
    assert_eq!(
        error.message(),
        "bridge returned 500 Internal Server Error: "
    );
}

#[test]
fn bridge_error_words() {
    assert_eq!(
        BridgeError::MissingBridgeUrl.message(),
        "bridge URL is blank"
    );
    assert_eq!(
        BridgeError::MissingCredentials.message(),
        "companion credentials are missing"
    );
    assert_eq!(BridgeError::Request.message(), "bridge request failed");
}

#[test]
fn remembered_requesters_are_in_order() {
    let mut settings = DiscordBridgeSettings::default();
    remember_allowed_requester(&mut settings, "<@!333>", "  Joe ");
    remember_allowed_requester(&mut settings, "222", "");
    remember_allowed_requester(&mut settings, "nobody", "Jim");

    assert_eq!(
        settings.allowed_requesters,
        vec![requester("222", ""), requester("333", "Joe")]
    );

    remember_allowed_requester(&mut settings, "333", "   ");
    assert_eq!(settings.allowed_requesters[1], requester("333", "Joe"));
    assert_eq!(position_of_requester(&settings.allowed_requesters, "333"), 1);
    assert_eq!(position_of_requester(&settings.allowed_requesters, "4"), 2);
}

#[test]
fn forgotten_requester_is_unknown() {
    let mut settings = DiscordBridgeSettings::default();
    remember_allowed_requester(&mut settings, "222", "Jane");
    remember_allowed_requester(&mut settings, "333", "Joe");

    forget_allowed_requester(&mut settings, "nobody");
    assert_eq!(settings.allowed_requesters.len(), 2);

    forget_allowed_requester(&mut settings, "<@222>");
    assert_eq!(settings.allowed_requesters, vec![requester("333", "Joe")]);
}
