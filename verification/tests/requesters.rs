use alarm_at_game_end::requesters::{
    add_allowed_requester, allowed_requester_ids, is_among, normalize_allowed_requester_id,
    normalize_discord_user_id, remove_allowed_requester, requester_is_allowed,
};

#[test]
fn requester_is_allowed_for_owner_or_allowed_ids() {
    assert!(requester_is_allowed("111", "", "111"));
    assert!(requester_is_allowed("111", "222, 333\n444", "333"));
    assert!(!requester_is_allowed("111", "222", "333"));
}

#[test]
fn allowed_requester_ids_accept_mentions_and_sort() {
    assert_eq!(
        allowed_requester_ids("333, <@222>; <@!444> nope 333"),
        vec!["222".to_owned(), "333".to_owned(), "444".to_owned()]
    );
}

#[test]
fn normalize_allowed_requester_id_accepts_ids_and_mentions_only() {
    assert_eq!(
        normalize_allowed_requester_id("222"),
        Some("222".to_owned())
    );
    assert_eq!(
        normalize_allowed_requester_id("<@!333>"),
        Some("333".to_owned())
    );
    assert_eq!(normalize_allowed_requester_id("thisguysname"), None);
}

#[test]
fn add_allowed_requester_adds_once_and_normalizes_list() {
    assert_eq!(add_allowed_requester("", "222"), "222");
    assert_eq!(add_allowed_requester("333, 222", "222"), "222\n333");
    assert_eq!(add_allowed_requester("abc, 333", "222"), "222\n333");
    assert_eq!(add_allowed_requester("333", "<@222>"), "222\n333");
}

#[test]
fn remove_allowed_requester_removes_normalized_id() {
    assert_eq!(remove_allowed_requester("333\n222", "222"), "333");
    assert_eq!(remove_allowed_requester("333\n222", "<@333>"), "222");
}

#[test]
fn user_ids_in_many_forms() {
    let id = |value: &str| normalize_discord_user_id(value);

    assert_eq!(id(" 007 "), Some("007".to_owned()));
    assert_eq!(id("!12"), Some("12".to_owned()));
    assert_eq!(id("<@12>"), Some("12".to_owned()));
    assert_eq!(id("<@!12"), None);
    assert_eq!(id("<@>"), None);
    assert_eq!(id("<@!!12>"), None);
    assert_eq!(id("12>"), None);
    assert_eq!(id(""), None);
    assert_eq!(id("1 2"), None);
    assert_eq!(id("\u{0661}"), None);
    assert_eq!(id("\u{a0}12\u{3000}"), Some("12".to_owned()));
}

#[test]
fn ids_are_ordered_as_text() {
    assert_eq!(
        allowed_requester_ids("9 10 1"),
        vec!["1".to_owned(), "10".to_owned(), "9".to_owned()]
    );
    assert!(allowed_requester_ids(" ,;\t\r\n\x0c nobody").is_empty());
    assert_eq!(allowed_requester_ids("1\x0b2"), Vec::<String>::new());
}

#[test]
fn unusable_id_changes_nothing() {
    assert_eq!(add_allowed_requester("3, 2", "nobody"), "2\n3");
    assert_eq!(remove_allowed_requester("3, 2", "nobody"), "2\n3");
    assert_eq!(remove_allowed_requester("3, 2", "4"), "2\n3");
}

#[test]
fn added_and_removed_users() {
    let list = add_allowed_requester("5", "7");
    assert!(requester_is_allowed("1", &list, "7"));
    assert!(!requester_is_allowed("1", &list, "<@7>"));

    let list = remove_allowed_requester(&list, "7");
    assert!(!requester_is_allowed("1", &list, "7"));
    assert!(requester_is_allowed("1", &list, "5"));
    assert!(requester_is_allowed("7", &list, "7"));
    assert_eq!(allowed_requester_ids(&list).join("\n"), list);
}

#[test]
fn looking_for_an_id() {
    let ids = vec!["1".to_owned(), "2".to_owned()];

    assert!(is_among(&ids, "2"));
    assert!(!is_among(&ids, "12"));
    assert!(!is_among(&vec![], ""));
}
