use std::path::PathBuf;

use agent_browser::json::{get_member, set_member, Fields, Json, Number};
use agent_browser::registry::Registry;
use agent_browser::session::{
    choose_base_dir, is_valid_session, namespaced_socket_dir, port_for_identity,
    sanitize_component, socket_base_dir,
};
use agent_browser::text::{
    contains_text, decimal_text, is_blank, parse_unsigned, same_folded, signed_decimal_text,
    starts_with_folded, trim, trim_end, trim_line_end,
};

#[test]
fn values_are_read_and_written() {
    let value = Json::parse(r#" {"b": [1, -2, 2.50, "x\u0001"], "a": {"c": null, "d": true}} "#).unwrap();
    assert_eq!(value.to_text(), r#"{"a":{"c":null,"d":true},"b":[1,-2,2.5,"x\u0001"]}"#);
    assert_eq!(
        value.to_bytes().unwrap(),
        br#"{"a":{"c":null,"d":true},"b":[1,-2,2.5,"x\u0001"]}"#.to_vec()
    );
    assert_eq!(
        Json::parse_bytes(br#"{"k":[]}"#).unwrap().to_pretty_text().unwrap(),
        "{\n  \"k\": []\n}"
    );
    assert_eq!(
        value.get("b").and_then(Json::as_array).unwrap()[2],
        Json::Number(Number::Decimal("2.5".to_string()))
    );
}

#[test]
fn text_that_is_no_value_is_refused() {
    assert_eq!(
        Json::parse("[1,]").unwrap_err(),
        "trailing comma at line 1 column 4"
    );
    assert_eq!(
        Json::parse_bytes(b"\"\xff\"").unwrap_err(),
        "invalid unicode code point at line 1 column 2"
    );
}

#[test]
fn the_last_member_of_a_name_counts() {
    let value = Json::parse(r#"{"a":1,"a":2}"#).unwrap();
    assert_eq!(value.get("a").and_then(Json::as_u64), Some(2));
    assert_eq!(value.to_text(), r#"{"a":2}"#);
    assert_eq!(value.get("b"), None);
    assert_eq!(Json::text("a").get("a"), None);
}

#[test]
fn members_are_replaced_and_added() {
    let mut members = Fields::new().with("a", Json::unsigned(1)).members;
    set_member(&mut members, "a", Json::unsigned(2));
    set_member(&mut members, "b", Json::flag(true));
    assert_eq!(members.len(), 2);
    assert_eq!(get_member(&members, "a"), Some(&Json::unsigned(2)));
    assert_eq!(get_member(&members, "b").and_then(Json::as_bool), Some(true));
}

#[test]
fn numbers_keep_their_kind() {
    let number = |text: &str| Json::parse(text).unwrap();
    assert_eq!(number("18446744073709551615").as_u64(), Some(u64::MAX));
    assert_eq!(number("18446744073709551615").as_i64(), None);
    assert_eq!(number("-9223372036854775808").as_i64(), Some(i64::MIN));
    assert_eq!(number("-1").as_u64(), None);
    assert_eq!(number("1.0").as_u64(), None);
    assert_eq!(Json::signed(5).as_u64(), Some(5));
    assert_eq!(Json::signed(-5).to_text(), "-5");
    assert_eq!(number("1e300").to_text(), "1e+300");
    assert_eq!(Json::parse("1e400").unwrap_err(), "number out of range at line 1 column 5");
}

#[test]
fn copies_are_equal() {
    let value = Json::parse(r#"{"a":[1,-1,1.5,"x",null,true,{"b":[]}]}"#).unwrap();
    assert_eq!(value.clone(), value);
}

#[test]
fn a_registry_holds_one_entry_for_each_key() {
    let mut registry: Registry<String, u32> = Registry::new();
    registry.put("a".to_string(), 1);
    registry.put("b".to_string(), 2);
    registry.put("a".to_string(), 3);
    assert_eq!(registry.get(&"a".to_string()), Some(&3));
    assert!(registry.contains(&"b".to_string()));
    assert_eq!(registry.take(&"a".to_string()), Some(3));
    assert_eq!(registry.take(&"a".to_string()), None);
    registry.clear();
    assert!(!registry.contains(&"b".to_string()));
}

#[test]
fn words_are_trimmed_and_compared() {
    assert_eq!(trim("\u{3000} a b \n"), "a b");
    assert_eq!(trim_end(" a \t"), " a");
    assert_eq!(trim_line_end("a \r\n\n"), "a ");
    assert!(is_blank("\u{2003}\n") && !is_blank("x"));
    assert!(contains_text("an Unknown action here", "Unknown action"));
    assert!(contains_text("x", "") && !contains_text("", "x"));
    assert!(starts_with_folded("ABOUT:blank", "about:") && !starts_with_folded("abou", "about:"));
    assert!(same_folded("FaLsE", "false") && !same_folded("falsey", "false"));
}

#[test]
fn numbers_are_spelled_and_read() {
    assert_eq!(decimal_text(0), "0");
    assert_eq!(decimal_text(u64::MAX), "18446744073709551615");
    for number in [0, 9, 10, 907, u64::MAX] {
        assert_eq!(parse_unsigned(&decimal_text(number), u64::MAX), Some(number));
    }
    assert_eq!(signed_decimal_text(i64::MIN), "-9223372036854775808");
    assert_eq!(parse_unsigned("+007", 10), Some(7));
    assert_eq!(parse_unsigned("18446744073709551616", u64::MAX), None);
    assert_eq!(parse_unsigned("11", 10), None);
    assert_eq!(parse_unsigned("", 10), None);
    assert_eq!(parse_unsigned("-1", 10), None);
    assert_eq!(parse_unsigned("+", 10), None);
}

#[test]
fn names_become_slugs() {
    assert_eq!(sanitize_component("ÄÖ straße İ"), "äö-straße-i\u{307}");
    assert_eq!(sanitize_component("a__b--c"), "a_b-c");
    assert_eq!(sanitize_component("..."), "");
    assert_eq!(sanitize_component("plain-name"), "plain-name");
    assert!(is_valid_session("é-1_x") && !is_valid_session("a.b"));
}

#[test]
fn directories_are_joined() {
    let run = |base: &str, name: &str| {
        namespaced_socket_dir(PathBuf::from(base), Some(name)).to_str().unwrap().to_string()
    };
    assert_eq!(run("/a", "b"), "/a/namespaces/b/run");
    assert_eq!(run("/a/", "b"), "/a/namespaces/b/run");
    assert_eq!(run("", "b"), "namespaces/b/run");
    assert_eq!(run("/a", "/b"), "/b/run");
    assert_eq!(run("/a", "é"), "/a/namespaces/é/run");
    assert_eq!(run("/a", "C:"), "/a/namespaces/C:/run");
    let base = PathBuf::from("/a");
    assert_eq!(namespaced_socket_dir(base.clone(), Some("")), base);
    assert_eq!(namespaced_socket_dir(base.clone(), None), base);
}

#[test]
fn the_socket_directory_is_chosen_in_order() {
    let choose = |asked, runtime, home: Option<&str>| {
        let dir = choose_base_dir(asked, runtime, home.map(PathBuf::from), &PathBuf::from("/tmp"));
        dir.to_str().unwrap().to_string()
    };
    assert_eq!(choose(Some("/s"), Some("/r"), Some("/h")), "/s");
    assert_eq!(choose(Some(""), Some("/r"), Some("/h")), "/r/agent-browser");
    assert_eq!(choose(None, Some(""), Some("/h")), "/h/.agent-browser");
    assert_eq!(choose(None, None, None), "/tmp/agent-browser");
    let temporary = PathBuf::from("/tmp/nowhere");
    assert_eq!(socket_base_dir(Some("/s"), None, &temporary), PathBuf::from("/s"));
    let found = socket_base_dir(None, None, &temporary);
    match dirs::home_dir() {
        Some(home) => assert_eq!(found, home.join(".agent-browser")),
        None => assert_eq!(found, PathBuf::from("/tmp/nowhere/agent-browser")),
    }
}

#[test]
fn ports_are_picked_by_the_hash() {
    assert_eq!(port_for_identity(""), 49_152);
    assert_eq!(port_for_identity("a"), 49_152 + 97);
    assert!(port_for_identity("a rather long identity that wraps around") >= 49_152);
}
