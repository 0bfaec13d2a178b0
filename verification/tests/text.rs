use alarm_at_game_end::http::HttpStatus;
use alarm_at_game_end::json::{Json, Member};
use alarm_at_game_end::order::put_in_order;
use alarm_at_game_end::paths::{path_from_text, PathParts};
use alarm_at_game_end::text::{
    blank, contains, decimal_text, eq_ignoring_ascii_case, hex_bytes, is_text_before,
    is_white_space, join, lines, only_digits, parse_unsigned, same_text, split, starts_with,
    strip_prefix, trim, trim_end_char,
};

#[test]
fn white_space_is_that_of_unicode() {
    for c in (0..=u32::from(char::MAX)).filter_map(char::from_u32) {
        assert_eq!(is_white_space(c), c.is_whitespace(), "{c:?}");
    }
}

#[test]
fn texts_are_trimmed() {
    for text in ["", " ", " a b ", "\u{2003}x\u{85}", "no", "\t\r\n", "é "] {
        assert_eq!(trim(text), text.trim());
        assert_eq!(blank(text), text.trim().is_empty());
    }
    assert_eq!(trim_end_char("a//b//", '/'), "a//b");
    assert_eq!(trim_end_char("///", '/'), "");
    assert_eq!(path_from_text("  "), None);
    assert_eq!(path_from_text(" a b "), Some("a b".to_owned()));
}

#[test]
fn texts_are_searched() {
    for (text, part) in [("abcabd", "abd"), ("abc", ""), ("", "a"), ("aab", "ab"), ("é!", "!")] {
        assert_eq!(contains(text, part), text.contains(part));
        assert_eq!(starts_with(text, part), text.starts_with(part));
        assert_eq!(strip_prefix(text, part), text.strip_prefix(part));
        assert_eq!(same_text(text, part), text == part);
        assert_eq!(is_text_before(text, part), text < part);
    }
    assert_eq!(strip_prefix("panic: x", "panic: "), Some("x"));
    assert!(eq_ignoring_ascii_case("Content-Length", "content-LENGTH"));
    assert!(!eq_ignoring_ascii_case("É", "é"));
}

#[test]
fn texts_are_split_and_joined() {
    assert_eq!(split("a,b;;c", ",;").join("|"), "a|b||c");
    assert_eq!(split("", ",").len(), 1);
    assert_eq!(
        join(&vec!["a".to_owned(), "".to_owned(), "b".to_owned()], ", "),
        "a, , b"
    );
    assert_eq!(join(&vec![], ", "), "");

    for text in ["", "a", "a\n", "a\r\nb", "\n\n", "a\rb\r\n", "a\n\r"] {
        assert_eq!(lines(text), text.lines().map(str::to_owned).collect::<Vec<_>>());
    }
}

#[test]
fn numbers_are_read_and_written() {
    for text in ["0", "00", "+7", "-7", "", "+", "65535", "65536", "1 ", "x", "99999999999999999999"] {
        assert_eq!(
            parse_unsigned(text, u64::from(u16::MAX)),
            text.parse::<u16>().ok().map(u64::from),
            "{text}"
        );
        assert_eq!(parse_unsigned(text, u64::MAX), text.parse::<u64>().ok());
    }
    for n in [0, 9, 10, 123_456, u128::MAX] {
        assert_eq!(decimal_text(n), n.to_string());
    }
    assert_eq!(hex_bytes(&vec![0, 255, 26]), "00ff1a");
    assert!(only_digits("0123456789"));
    assert!(!only_digits("1a"));
}

#[test]
fn texts_are_put_in_order() {
    let texts: Vec<String> = ["b", "", "ab", "a", "\u{ff}", "a"]
        .iter()
        .map(|text| text.to_string())
        .collect();
    let mut expected = texts.clone();
    expected.sort();

    assert_eq!(put_in_order(texts), expected);
}

#[test]
fn statuses_of_http() {
    let status = HttpStatus::from_code(204).expect("a status");

    assert_eq!(status.code(), 204);
    assert!(status.is_success());
    assert_eq!(status.text(), "204 No Content");
    assert!(!HttpStatus::from_code(199).expect("a status").is_success());
    assert!(!HttpStatus::from_code(300).expect("a status").is_success());
    assert_eq!(
        HttpStatus::from_code(799).expect("a status").text(),
        "799 <unknown status code>"
    );
    assert!(HttpStatus::from_code(99).is_none());
    assert!(HttpStatus::from_code(1000).is_none());
}

#[test]
fn values_are_looked_into() {
    let value = Json::Object(vec![Member {
        name: "a".to_owned(),
        value: Json::Text("x".to_owned()),
    }]);

    assert!(value.is_object());
    assert_eq!(value.names(), Some(vec!["a".to_owned()]));
    assert_eq!(value.member("a").and_then(Json::as_str), Some("x"));
    assert!(value.member("b").is_none());
    assert!(Json::Null.member("a").is_none());
    assert_eq!(Json::Number.names(), None);
    assert_eq!(Json::Bool(true).as_str(), None);
    assert!(!Json::Array(vec![]).is_object());
}

#[test]
fn paths_are_lists_of_parts() {
    let path = PathParts::from_text("a").join("b");

    assert_eq!(path.parts, vec!["a".to_owned(), "b".to_owned()]);
    assert_eq!(path.clone(), path);
    assert!(!path.is_empty());
    assert!(PathParts::from_text("").join("").is_empty());
}
