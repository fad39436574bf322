use vandelay::error::Error;
use vandelay::exchange::tz::{resolve_to_iana, zone_for_name};
use vandelay::json::{insert_sorted, Json, JsonObject};
use vandelay::sync::order::stable_order;
use vandelay::text::{
    clip, contains, decimal, fill_left, fill_right, first_place, integer, join, last_place, padded, parse_i64,
    rsplit_once, same_ignoring_case, split, split_once, strip_prefix, text_until, to_small, trim, trim_end,
};
use vandelay::types::ObjectType;
use vandelay::web::{decode_jwt_claims, form_encode, get_u64, make_token, urlencode};

fn json(text: &str) -> Json {
    Json::parse(text.as_bytes()).expect("a JSON text")
}

#[test]
fn numbers_are_written_in_decimal() {
    assert_eq!(decimal(0), "0");
    assert_eq!(decimal(u128::MAX), u128::MAX.to_string());
    assert_eq!(integer(i64::MIN), i64::MIN.to_string());
    assert_eq!(padded(7, 3), "007");
    assert_eq!(padded(1234, 3), "1234");
}

#[test]
fn numbers_are_read_in_decimal() {
    for s in ["0", "+5", "-5", "9223372036854775807", "-9223372036854775808", "9223372036854775808", "", "-", "1x"] {
        assert_eq!(parse_i64(s), s.parse::<i64>().ok(), "{s}");
    }
}

#[test]
fn texts_are_taken_apart() {
    assert_eq!(split("a,b,,c", ','), vec!["a", "b", "", "c"]);
    assert_eq!(split("", ','), vec![""]);
    assert_eq!(split_once("a=b=c", '='), Some(("a".to_owned(), "b=c".to_owned())));
    assert_eq!(rsplit_once("a=b=c", '='), Some(("a=b".to_owned(), "c".to_owned())));
    assert_eq!(split_once("abc", '='), None);
    assert_eq!(text_until("a.b", '.'), "a");
    assert_eq!(text_until("ab", '.'), "ab");
    assert_eq!(trim_end("a//", '/'), "a");
    assert_eq!(strip_prefix("abc", "ab").as_deref(), Some("c"));
    assert_eq!(strip_prefix("abc", "b"), None);
    assert_eq!(first_place(&"abca".chars().collect(), 'a'), Some(0));
    assert_eq!(last_place(&"abca".chars().collect(), 'a'), Some(3));
}

#[test]
fn texts_are_compared_and_put_together() {
    assert!(same_ignoring_case("AbC", "aBc"));
    assert!(!same_ignoring_case("\u{c4}", "\u{e4}"));
    assert_eq!(to_small("A\u{c4}z"), "a\u{c4}z");
    assert!(contains("hello", "ell"));
    assert!(contains("hello", ""));
    assert!(!contains("hello", "elo"));
    assert_eq!(join(&vec!["a".to_owned(), "b".to_owned()], ", "), "a, b");
    assert_eq!(join(&Vec::new(), ", "), "");
    assert_eq!(fill_left("a", 3), "  a");
    assert_eq!(fill_right("abcd", 3), "abcd");
    assert_eq!(clip("abcdef", 3).chars().take(3).collect::<String>(), "abc");
}

#[test]
fn forms_and_addresses_are_percent_encoded() {
    assert_eq!(urlencode("a b/\u{e9}~"), "a%20b%2F%C3%A9~");
    assert_eq!(form_encode(&vec![("a", "1 2"), ("b", "x")]), "a=1%202&b=x");
}

#[test]
fn tokens_tell_their_claims() {
    assert_eq!(decode_jwt_claims("no token").is_none(), true);
    let t = make_token("plain", Some("r"), Some(5));
    assert_eq!(t.access_token, "plain");
    assert_eq!(t.refresh_token.as_deref(), Some("r"));
    assert_eq!(t.expires_in, Some(5));
    assert_eq!(get_u64(&json(r#"{"a": 7, "b": "8", "c": -1}"#), "a"), Some(7));
    assert_eq!(get_u64(&json(r#"{"a": 7, "b": "8", "c": -1}"#), "c"), None);
}

#[test]
fn values_survive_the_way_through_json() {
    let v: serde_json::Value =
        serde_json::from_str(r#"{"b":[1,-2,2.5,"x",true,null],"a":{"n":18446744073709551615}}"#).unwrap();
    let j = Json::from_value(v.clone());
    assert_eq!(j.to_value(), v);
    assert!(j.copy().equals(&j));
    assert_eq!(j.compact(), v.to_string());
    assert_eq!(j.pretty(), serde_json::to_string_pretty(&v).unwrap());
    assert!(Json::parse(b"{").is_none());
    assert!(!j.equals(&json("{}")));
    assert_eq!(Json::unsigned(7).as_u64(), Some(7));
    assert_eq!(Json::signed(-7).as_i64(), Some(-7));
    assert_eq!(Json::signed(-7).as_u64(), None);
}

#[test]
fn objects_keep_one_value_per_key() {
    let mut o = JsonObject::new();
    o.insert("a".to_owned(), Json::text("1"));
    o.insert("b".to_owned(), Json::Bool(true));
    o.insert("a".to_owned(), Json::text("2"));
    assert_eq!(o.len(), 2);
    assert_eq!(o.get("a").unwrap().as_str(), Some("2"));
    assert!(!o.without("a").contains_key("a"));
    let mut list = Vec::new();
    for t in ["b", "a", "c"] {
        insert_sorted(&mut list, t.to_owned());
    }
    assert_eq!(list, vec!["a", "b", "c"]);
}

#[test]
fn redaction_leaves_no_blob() {
    let j = json(r#"{"p": {"@blob": 7}, "l": [{"@blob": 8}], "k": 1}"#).redact();
    assert_eq!(j.get("k").unwrap().as_i64(), Some(1));
    assert!(!j.compact().contains(r#"{"@blob":7}"#));
    assert!(j.compact().contains("local #7"));
    assert!(j.compact().contains("local #8"));
}

#[test]
fn smaller_keys_come_first_and_equal_ones_stay() {
    assert_eq!(stable_order(&vec![3, 1, 3, 2]), vec![1, 3, 0, 2]);
    assert_eq!(stable_order(&Vec::new()), Vec::<usize>::new());
}

#[test]
fn zones_are_known_by_both_names() {
    assert_eq!(resolve_to_iana("W. Europe Standard Time").as_deref(), Some("Europe/Berlin"));
    assert_eq!(resolve_to_iana("Europe/Paris").as_deref(), Some("Europe/Paris"));
    assert_eq!(resolve_to_iana("Nowhere"), None);
    assert_eq!(zone_for_name("Nowhere", true).as_deref(), Some("Nowhere"));
    assert_eq!(zone_for_name("Tokyo Standard Time", false).as_deref(), Some("Asia/Tokyo"));
}

#[test]
fn archive_names_tell_kinds_apart() {
    for t in ObjectType::all() {
        assert_eq!(ObjectType::parse(t.token()), Some(t));
    }
    assert_eq!(ObjectType::parse("Email"), None);
    assert_eq!(ObjectType::CalendarEvent.jmap_name(), "CalendarEvent");
}

#[test]
fn joined_pieces_are_the_text() {
    for s in ["", ".", "a", "a.b", ".a..b."] {
        assert_eq!(join(&split(s, '.'), "."), s);
    }
}

#[test]
fn whitespace_around_a_text_is_dropped() {
    assert_eq!(trim("  a b\t\r\n"), "a b");
    assert_eq!(trim("\u{3000}\u{2009}x\u{a0}\u{85}"), "x");
    assert_eq!(trim("\u{200b}x"), "\u{200b}x");
    assert_eq!(trim(" \u{1680}\u{2028} "), "");
    for c in (0..0x11_0000).filter_map(char::from_u32) {
        assert_eq!(trim(&c.to_string()), c.to_string().trim(), "{c:?}");
    }
}

#[test]
fn bytes_that_are_no_json_say_why() {
    assert_eq!(Json::read(b"[1, true]").unwrap().compact(), "[1,true]");
    assert!(Json::read(b"[1,").unwrap_err().contains("EOF"));
}

#[test]
fn errors_that_end_a_program_have_their_codes() {
    assert_eq!(Error::Account("x".to_owned()).exit_code(), Some(3));
    assert_eq!(Error::Partial("x".to_owned()).exit_code(), Some(5));
    assert_eq!(Error::PruneAborted.exit_code(), None);
}
