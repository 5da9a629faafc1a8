//! JSON values and numerals.

use gander::json::{get_member, insert_member, merge_members, Json};
use gander::text::{decimal_text, signed_text};

fn json(text: &str) -> Json {
    Json::parse(text).unwrap()
}

#[test]
fn values_read_back_as_they_were_written() {
    let text = "{\"a\":[1,-2,null,true],\"b\":{\"c\":\"x\\\"y\"}}";
    assert_eq!(json(text).to_text(), text);
    assert_eq!(json(" [ 1 , 2 ] ").to_text(), "[1,2]");
    assert_eq!(json("9223372036854775807").to_text(), "9223372036854775807");
    assert_eq!(json("18446744073709551615").to_text(), "18446744073709551615");
    assert_eq!(json("1.5").to_text(), "1.5");
}

#[test]
fn a_text_that_is_no_json_gives_the_words_of_the_error() {
    let words = Json::parse("{\"a\":}").unwrap_err();
    assert!(words.contains("line 1"), "{words}");
    assert!(Json::parse("").is_err());
    assert!(Json::parse("1 2").is_err());
}

#[test]
fn of_equal_keys_the_last_value_stays_in_the_first_place() {
    let twice = Json::Object(vec![
        ("a".to_string(), Json::Int(1)),
        ("b".to_string(), Json::Int(2)),
        ("a".to_string(), Json::Int(3)),
    ]);
    assert_eq!(twice.to_text(), "{\"a\":3,\"b\":2}");
}

#[test]
fn members_are_found_replaced_and_merged() {
    let mut members: Vec<(String, Json)> = Vec::new();
    insert_member(&mut members, "a".to_string(), Json::Int(1));
    insert_member(&mut members, "b".to_string(), Json::Int(2));
    insert_member(&mut members, "a".to_string(), Json::Int(3));
    assert_eq!(members.len(), 2);
    assert!(matches!(get_member(&members, "a"), Some(Json::Int(3))));
    assert!(get_member(&members, "c").is_none());
    let update = vec![
        ("b".to_string(), Json::Int(4)),
        ("c".to_string(), Json::Int(5)),
    ];
    merge_members(&mut members, &update);
    assert_eq!(Json::Object(members).to_text(), "{\"a\":3,\"b\":4,\"c\":5}");
}

#[test]
fn values_are_taken_apart_by_their_kind() {
    let v = json("{\"s\": \"t\", \"n\": 7, \"l\": [1], \"f\": 2.9, \"m\": -1}");
    assert_eq!(v.get_str("s"), Some("t"));
    assert_eq!(v.get_str("n"), None);
    assert_eq!(v.get("l").unwrap().as_array().unwrap().len(), 1);
    assert_eq!(v.get("s").unwrap().as_str(), Some("t"));
    assert_eq!(v.get("n").unwrap().as_count(), Some(7));
    assert_eq!(v.get("f").unwrap().as_count(), Some(2));
    assert_eq!(v.get("m").unwrap().as_count(), Some(0));
    assert_eq!(v.get("s").unwrap().as_count(), None);
    assert!(Json::Null.get("s").is_none());
}

#[test]
fn numerals_have_no_leading_zeros() {
    assert_eq!(decimal_text(0), "0");
    assert_eq!(decimal_text(1205), "1205");
    assert_eq!(decimal_text(u64::MAX), "18446744073709551615");
    assert_eq!(signed_text(-17), "-17");
    assert_eq!(signed_text(i64::MIN), "-9223372036854775808");
    assert_eq!(signed_text(5), "5");
}
