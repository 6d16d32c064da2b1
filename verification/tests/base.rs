use beacon::base::decimal::{integer, natural, parse_signed, parse_unsigned};
use beacon::base::dict::{Dict, Text};
use beacon::base::json::{yaml_of, Json};
use beacon::base::meta::{ObjectMeta, OwnerReference};
use beacon::base::sort::sort_strings;
use beacon::base::text::{
    contains, join, less, lines, replace, split, split_once, split_text, strip_prefix, trim,
};
use beacon::base::time::{Timestamp, LATEST};

fn json(text: &str) -> Json {
    Json::parse(text.as_bytes()).expect("valid JSON")
}

#[test]
fn numbers_are_written_and_read_in_decimal() {
    assert_eq!(natural(0), "0");
    assert_eq!(natural(u128::MAX), u128::MAX.to_string());
    for n in [0, 1, -1, 42, i64::MAX, i64::MIN] {
        assert_eq!(integer(n), n.to_string());
    }
    for text in ["0", "7", "+7", "007", "-7", "", "+", "x", "18446744073709551616"] {
        assert_eq!(parse_unsigned(text, u64::MAX), text.parse::<u64>().ok(), "{text}");
        assert_eq!(parse_signed(text, i64::MAX), text.parse::<i64>().ok(), "{text}");
    }
    assert_eq!(parse_unsigned("65536", u16::MAX as u64), None);
}

#[test]
fn text_is_taken_apart_as_the_standard_library_does() {
    for text in ["", "a", ",a,,b,", "αβ,γ"] {
        assert_eq!(split(text, ','), text.split(',').collect::<Vec<_>>());
        assert_eq!(split_text(text, ","), text.split(",").collect::<Vec<_>>());
        assert_eq!(replace(text, ",", "--"), text.replace(",", "--"));
    }
    for text in ["", "a\nb", "a\r\nb\n", "\n", "a\n\nb"] {
        assert_eq!(lines(text), text.lines().collect::<Vec<_>>());
    }
    for text in ["  a b\t\n", "", "\u{3000}x\u{a0}"] {
        assert_eq!(trim(text), text.trim());
    }
    assert_eq!(split_once("a: b: c", ": "), Some(("a".into(), "b: c".into())));
    assert_eq!(split_once("abc", "d"), None);
    assert!(contains("haystack", "sta") && !contains("hay", "stack"));
    assert_eq!(strip_prefix("Init:0/3", "Init:").as_deref(), Some("0/3"));
    assert_eq!(join(&vec!["a".into(), "b".into()], ", "), "a, b");
}

#[test]
fn json_is_read_and_written() {
    let value = json(r#"{ "a": [1, -2.5, null, true, "x\n"], "b": { "c": {} } }"#);
    assert_eq!(value.get("a").and_then(|a| a.nth(0)).and_then(Json::as_i64), Some(1));
    assert_eq!(value.get("a").and_then(|a| a.nth(1)).and_then(Json::as_i64), None);
    assert_eq!(value.get("a").and_then(|a| a.nth(3)).and_then(Json::as_bool), Some(true));
    assert_eq!(value.get("a").and_then(|a| a.nth(4)).and_then(Json::as_str), Some("x\n"));
    assert_eq!(value.get("missing"), None);
    assert_eq!(value.to_text(), r#"{"a":[1,-2.5,null,true,"x\n"],"b":{"c":{}}}"#);
    assert_eq!(json(&value.to_text()), value);
    assert_eq!(value.copy(), value);
    assert_eq!(json(r#"{ "z": 1, "a": 2 }"#).to_text(), r#"{"z":1,"a":2}"#);
    assert_eq!(Json::parse(b"{"), None);
    assert_eq!(Json::parse(b"1 2"), None);
}

#[test]
fn timestamps_are_read_and_written() {
    let at = Timestamp::parse("2026-09-17T12:00:00.25+02:00").expect("a timestamp");
    assert_eq!(at.as_second(), 1_789_639_200);
    assert_eq!(at.display(), "2026-09-17T10:00:00.25Z");
    let later = Timestamp::parse("2026-09-17T10:01:30Z").expect("a timestamp");
    assert_eq!(later.seconds_since(&at), 89);
    assert!(later.after(&at) && !at.after(&later) && !at.after(&at));
    assert_eq!(Timestamp::parse("yesterday"), None);
    assert_eq!(Timestamp::from_nanosecond(LATEST + 1), None);
    let epoch = Timestamp::from_nanosecond(0).expect("the epoch");
    assert_eq!(epoch.as_nanosecond(), 0);
    assert_eq!(epoch.to_text(), "1970-01-01T00:00:00Z");
}

#[test]
fn metadata_reads_as_the_api_writes_it() {
    let metadata = ObjectMeta {
        name: Some("api".into()),
        labels: Some(vec![("app".into(), "api".into())]),
        creation_timestamp: Timestamp::parse("2026-09-17T12:00:00Z"),
        generation: Some(3),
        owner_references: Some(vec![OwnerReference {
            api_version: "apps/v1".into(),
            block_owner_deletion: None,
            controller: Some(true),
            kind: "ReplicaSet".into(),
            name: "api".into(),
            uid: "1".into(),
        }]),
        ..ObjectMeta::default()
    };
    let value = metadata.to_json();
    assert_eq!(value.get("name"), Some(&json(r#""api""#)));
    assert_eq!(value.get("labels"), Some(&json(r#"{ "app": "api" }"#)));
    assert_eq!(value.get("generation"), Some(&json("3")));
    assert_eq!(
        value.get("creationTimestamp"),
        Some(&json(r#""2026-09-17T12:00:00Z""#))
    );
    assert_eq!(
        value.get("ownerReferences"),
        Some(&json(
            r#"[{ "apiVersion": "apps/v1", "controller": true, "kind": "ReplicaSet",
                  "name": "api", "uid": "1" }]"#
        ))
    );
    assert_eq!(value.get("namespace"), None);
    assert_eq!(ObjectMeta::default().to_json(), json("{}"));
}

#[test]
fn strings_are_sorted_by_code_point() {
    let sorted = sort_strings(&["b", "a", "B", "é", "a"].map(String::from).to_vec());
    assert_eq!(sorted, ["B", "a", "a", "b", "é"]);
}

#[test]
fn a_dictionary_keeps_its_keys_in_order() {
    let mut dict: Dict<Text, u32> = Dict::new();
    let key = |text: &str| Text { text: text.to_string() };
    for (n, text) in ["m", "z", "a", "m"].into_iter().enumerate() {
        dict.insert(key(text), n as u32);
    }
    assert_eq!(dict.len(), 3);
    let keys: Vec<&str> = (0..3).map(|i| dict.key(i).text.as_str()).collect();
    assert_eq!(keys, ["a", "m", "z"]);
    assert_eq!(dict.get(&key("m")), Some(&3));
    assert_eq!(dict.remove(&key("m")), Some(3));
    assert_eq!(dict.remove(&key("m")), None);
    assert_eq!(dict.get(&key("m")), None);
    assert_eq!(*dict.value(1), 1);
}

#[test]
fn a_value_is_written_as_yaml() {
    let text = yaml_of(&json(r#"{"kind":"Pod","spec":{"replicas":3,"names":["a"]}}"#))
        .expect("YAML");
    assert!(text.starts_with("kind: Pod\n"), "{text}");
    assert!(text.contains("replicas: 3"), "{text}");
}

#[test]
fn strings_are_ordered_as_the_standard_library_orders_them() {
    let list = ["", "a", "ab", "b", "B", "\u{e9}", "\u{ffff}", "\u{10000}", "a\u{10000}"];
    for a in list {
        for b in list {
            assert_eq!(less(a, b), a < b, "{a:?} {b:?}");
        }
    }
}
