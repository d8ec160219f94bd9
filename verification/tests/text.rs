use vibepanel::hashed::{items_of, keys_of, IdSet};
use vibepanel::json::{parse, parse_bytes, parse_json_line, Json};
use vibepanel::order::stable_sort;
use vibepanel::table::{Comparable, Table};
use vibepanel::text::{
    after_prefix, alphabetized, contains_run, decimal, has_prefix, list_contains, padded, parse_u32, parse_u64,
    same_ignoring_case, start_trimmed, str_before, trimmed,
};

#[test]
fn white_space_is_trimmed() {
    assert_eq!(trimmed(" \t\u{a0}a b\n\u{3000}"), "a b");
    assert_eq!(trimmed("\u{200b}a"), "\u{200b}a");
    assert_eq!(start_trimmed("\u{85} a "), "a ");
    assert_eq!(trimmed("   "), "");
}

#[test]
fn texts_are_searched() {
    assert!(has_prefix("niri-socket", "niri"));
    assert!(!has_prefix("ni", "niri"));
    assert_eq!(after_prefix("tag:3", "tag:").as_deref(), Some("3"));
    assert_eq!(after_prefix("3", "tag:"), None);
    assert!(contains_run("connection refused", "refused"));
    assert!(!contains_run("refuse", "refused"));
    assert!(contains_run("abc", ""));
    assert!(list_contains(&vec!["a".to_string(), "b".to_string()], "b"));
    assert!(str_before("a", "ab") && str_before("a", "b") && !str_before("b", "a"));
    assert!(same_ignoring_case("Prefer-Dark", "pREFER-dARK"));
    assert!(!same_ignoring_case("\u{c4}", "\u{e4}"));
}

#[test]
fn numbers_are_written_and_read() {
    assert_eq!(decimal(0), "0");
    assert_eq!(decimal(u64::MAX), "18446744073709551615");
    assert_eq!(padded(7), "07");
    assert_eq!(padded(123), "123");
    for n in [0, 9, 10, 4_294_967_295, u64::MAX] {
        assert_eq!(parse_u64(&decimal(n)), Some(n));
    }
    assert_eq!(parse_u64("18446744073709551616"), None);
    assert_eq!(parse_u64("+12"), Some(12));
    assert_eq!(parse_u64("+"), None);
    assert_eq!(parse_u64(""), None);
    assert_eq!(parse_u64("-1"), None);
    assert_eq!(parse_u32("4294967295"), Some(u32::MAX));
    assert_eq!(parse_u32("4294967296"), None);
    for text in ["007", "+0", "1 ", "1a", "\u{661}"] {
        assert_eq!(parse_u32(text), text.parse::<u32>().ok());
    }
}

#[test]
fn documents_are_parsed() {
    let json = parse(r#"{"a": [1, -2, 2.5, "x"], "b": true, "a": null, "c": {"d": 7}}"#).unwrap();
    assert!(matches!(json.get("a"), Some(Json::Null)));
    assert_eq!(json.get_bool("b"), Some(true));
    assert!(json.has_flag("b") && !json.has_flag("c"));
    assert_eq!(json.member("c").get_u64("d"), Some(7));
    assert!(matches!(json.member("e"), Json::Null));
    let list = parse(r#"[1, -2, 2.5, "x"]"#).unwrap();
    assert_eq!(list.as_array().unwrap().len(), 4);
    assert_eq!(list.at(0).unwrap().as_u64(), Some(1));
    assert_eq!(list.at(1).unwrap().as_u64(), None);
    assert_eq!(list.at(1).unwrap().as_i64(), Some(-2));
    assert_eq!(list.at(2).unwrap().as_bits(), Some(2.5f64.to_bits()));
    assert_eq!(list.at(3).unwrap().as_str(), Some("x"));
    assert!(list.at(4).is_none());
    assert!(parse("{").is_none());
    assert!(parse_bytes(b"[1]").is_some());
    assert!(parse_bytes(b"\xff").is_none());
    assert!(parse_json_line("  \n").is_none());
    assert!(parse_json_line(" {} \n").is_some());
    assert!(parse_json_line(" } ").is_none());
}

#[test]
fn sorting_keeps_what_is_tied_in_order() {
    assert_eq!(stable_sort(vec![3u32, 1, 2, 1]), vec![1, 1, 2, 3]);
    assert_eq!(stable_sort(Vec::<u32>::new()), Vec::<u32>::new());
}

#[test]
fn tables_hold_the_last_value_of_a_key() {
    let mut table: Table<String, u32> = Table::new();
    assert!(table.is_empty());
    table.insert("a".to_string(), 1);
    table.insert("b".to_string(), 2);
    table.insert("a".to_string(), 3);
    assert_eq!(table.len(), 2);
    assert_eq!(table.get_named("a"), Some(&3));
    assert_eq!(table.get(&"b".to_string()), Some(&2));
    assert_eq!(table.remove_named("a"), Some(3));
    assert_eq!(table.remove_named("a"), None);
    assert!(table.contains_key(&"b".to_string()));
}

#[test]
fn hash_collections_are_compared_by_what_they_hold() {
    let set = |items: &[i32]| {
        let mut ids = IdSet::new();
        for item in items {
            ids.insert(*item);
        }
        ids
    };
    assert!(set(&[4, 5, 4]).equals(&set(&[5, 4])));
    assert!(!set(&[4]).equals(&set(&[4, 5])));
    let mut items = items_of(&set(&[4, 5, 4]));
    items.sort();
    assert_eq!(items, vec![4, 5]);
    let map = |value: u32| {
        let mut counts = std::collections::HashMap::new();
        counts.insert(1, value);
        counts
    };
    assert!(map(2).equals(&map(2)));
    assert!(!map(2).equals(&map(3)));
    assert_eq!(keys_of(&map(2)), vec![1]);
}

#[test]
fn texts_are_put_in_their_order() {
    let texts = |list: &[&str]| list.iter().map(|t| t.to_string()).collect::<Vec<_>>();
    let sorted = alphabetized(texts(&["b", "\u{e9}", "B", "", "ba", "a"]));
    assert_eq!(sorted, texts(&["", "B", "a", "b", "ba", "\u{e9}"]));
    assert!(alphabetized(vec![]).is_empty());
}
