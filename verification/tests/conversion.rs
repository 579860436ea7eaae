use redis_protocol_bridge::util::convert::{AsFrame, Frame};
use redis_protocol_bridge::util::errors::{
    error_too_few_arguments, error_too_many_arguments, error_unsupported_command,
    error_wrong_arity, ProtocolError,
};
use redis_protocol_bridge::util::convert::map_to_array;
use redis_protocol_bridge::util::table::Table;
use redis_protocol_bridge::util::text::{
    all_to_lowercase, all_to_uppercase, decimal_string, join, parse_u64, str_eq,
};

fn leaf(text: &str) -> Frame {
    Frame::BlobString(text.as_bytes().to_vec())
}

fn list(items: &[&str]) -> Vec<String> {
    items.iter().map(|item| item.to_string()).collect()
}

#[test]
fn integers_become_integer_leaves() {
    assert_eq!(7i64.as_frame(), Frame::Number(7));
    assert_eq!(i64::MIN.as_frame(), Frame::Number(i64::MIN));
    assert_eq!((-7i32).as_frame(), Frame::Number(-7));
    assert_eq!(i32::MAX.as_frame(), Frame::Number(2147483647));
    assert_eq!(65535u16.as_frame(), Frame::Number(65535));
    assert_eq!(0usize.as_frame(), Frame::Number(0));
    assert_eq!(12usize.as_frame(), Frame::Number(12));
}

#[test]
fn a_count_too_large_for_a_leaf_is_the_largest_integer() {
    assert_eq!(usize::MAX.as_frame(), Frame::Number(i64::MAX));
    assert_eq!((i64::MAX as usize).as_frame(), Frame::Number(i64::MAX));
}

#[test]
fn strings_become_byte_string_leaves() {
    assert_eq!("abc".as_frame(), leaf("abc"));
    assert_eq!("abc".to_string().as_frame(), leaf("abc"));
    assert_eq!((&"abc".to_string()).as_frame(), leaf("abc"));
    assert_eq!("abc".as_frame(), Frame::BlobString(vec![97, 98, 99]));
    assert_eq!("é€".as_frame(), Frame::BlobString(vec![0xc3, 0xa9, 0xe2, 0x82, 0xac]));
    assert_eq!("".as_frame(), Frame::BlobString(vec![]));
    assert_eq!(Frame::text("x"), leaf("x"));
}

#[test]
fn failures_become_simple_errors_with_their_message() {
    let error = ProtocolError::new("went wrong".to_string());
    assert_eq!(error.details(), "went wrong");
    assert_eq!(error.as_frame(), Frame::SimpleError("went wrong".to_string()));
}

#[test]
fn frames_convert_to_themselves() {
    let frame = Frame::Array(vec![
        Frame::Null,
        Frame::Mapping(vec![(leaf("k"), Frame::Array(vec![Frame::Number(1)]))]),
        Frame::SimpleError("e".to_string()),
    ]);
    assert_eq!(frame.as_frame(), frame);
    assert_eq!(frame.copy(), frame);
    assert_eq!(frame.clone(), frame);
}

#[test]
fn sequences_become_sequences() {
    assert_eq!(
        vec![1i64, 2, 3].as_frame(),
        Frame::Array(vec![Frame::Number(1), Frame::Number(2), Frame::Number(3)])
    );
    assert_eq!(Vec::<String>::new().as_frame(), Frame::Array(vec![]));
    assert_eq!(
        vec![vec!["a".to_string()], vec![]].as_frame(),
        Frame::Array(vec![Frame::Array(vec![leaf("a")]), Frame::Array(vec![])])
    );
}

#[test]
fn lists_of_pairs_become_flat_sequences() {
    let none: Vec<(String, String)> = vec![];
    assert_eq!(none.as_frame(), Frame::Array(vec![]));
    let one = vec![("k".to_string(), "v".to_string())];
    assert_eq!(one.as_frame(), Frame::Array(vec![leaf("k"), leaf("v")]));
    let three = vec![(1u16, 2u16), (3, 4), (5, 6)];
    assert_eq!(
        three.as_frame(),
        Frame::Array(vec![
            Frame::Number(1),
            Frame::Number(2),
            Frame::Number(3),
            Frame::Number(4),
            Frame::Number(5),
            Frame::Number(6),
        ])
    );
}

#[test]
fn flat_sequence_has_two_items_for_each_pair() {
    for count in 0..20usize {
        let pairs: Vec<(i64, i64)> = (0..count).map(|i| (i as i64, -(i as i64))).collect();
        match pairs.as_frame() {
            Frame::Array(items) => {
                assert_eq!(items.len(), 2 * count);
                for (place, pair) in pairs.iter().enumerate() {
                    assert_eq!(items[2 * place], Frame::Number(pair.0));
                    assert_eq!(items[2 * place + 1], Frame::Number(pair.1));
                }
            }
            _ => panic!("no sequence"),
        }
    }
}

#[test]
fn tables_become_mappings_in_the_order_of_their_keys() {
    let mut table: Table<i64> = Table::new();
    table.insert("b".to_string(), 2);
    table.insert("a".to_string(), 1);
    table.insert("b".to_string(), 3);
    assert_eq!(
        table.as_frame(),
        Frame::Mapping(vec![(leaf("b"), Frame::Number(3)), (leaf("a"), Frame::Number(1))])
    );
    assert_eq!(
        map_to_array(table),
        Frame::Array(vec![leaf("b"), Frame::Number(3), leaf("a"), Frame::Number(1)])
    );
    let empty: Table<String> = Table::new();
    assert_eq!(map_to_array(empty), Frame::Array(vec![]));
}

#[test]
fn table_keeps_one_value_for_each_key() {
    let mut table: Table<String> = Table::new();
    assert_eq!(table.len(), 0);
    assert_eq!(table.get("a"), None);
    assert!(!table.contains_key("a"));
    assert_eq!(table.insert("a".to_string(), "1".to_string()), None);
    assert_eq!(table.insert("b".to_string(), "2".to_string()), None);
    assert_eq!(table.insert("a".to_string(), "3".to_string()), Some("1".to_string()));
    assert_eq!(table.len(), 2);
    assert!(table.contains_key("a"));
    assert_eq!(table.get("a"), Some(&"3".to_string()));
    assert_eq!(table.get("b"), Some(&"2".to_string()));
    assert_eq!(table.get("A"), None);
    assert_eq!(table.key(0), "a");
    assert_eq!(table.key(1), "b");
    assert_eq!(table.value(0), "3");
    assert_eq!(table.value(1), "2");
}

#[test]
fn error_messages() {
    assert_eq!(error_too_many_arguments("QUIT").details(), "QUIT does not take additional arguments");
    assert_eq!(error_too_few_arguments("CONFIG", Some(1)).details(), "CONFIG needs at least 1 arguments");
    assert_eq!(
        error_too_few_arguments("X", Some(255)).details(),
        "X needs at least 255 arguments"
    );
    assert_eq!(error_too_few_arguments("CONFIG", None).details(), "CONFIG needs additional arguments");
    assert_eq!(error_unsupported_command("DEL").details(), "Unsupported command: DEL");
    assert_eq!(error_wrong_arity("GET", 12, 1).details(), "GET received 12 arguments, expected 1");
}

#[test]
fn decimal_numerals() {
    assert_eq!(decimal_string(0), "0");
    assert_eq!(decimal_string(9), "9");
    assert_eq!(decimal_string(10), "10");
    assert_eq!(decimal_string(1234567890), "1234567890");
    assert_eq!(decimal_string(u64::MAX), "18446744073709551615");
}

#[test]
fn unsigned_numerals_are_read_as_the_standard_library_reads_them() {
    let samples = [
        "", "0", "1", "+", "+0", "+12", "-0", "-1", "++1", "1+", "00", "0012", "12a", "a12",
        " 12", "12 ", "1 2", "1_000", "0x10", "１２", "18446744073709551615",
        "18446744073709551616", "+18446744073709551615", "99999999999999999999999", "1.0", "1e3",
    ];
    for sample in samples {
        assert_eq!(parse_u64(sample), sample.parse::<u64>().ok());
    }
    assert_eq!(parse_u64("+12"), Some(12));
    assert_eq!(parse_u64("18446744073709551616"), None);
}

#[test]
fn numerals_round_trip() {
    for value in [0u64, 1, 9, 10, 99, 100, 65535, 4294967296, u64::MAX - 1, u64::MAX] {
        assert_eq!(parse_u64(&decimal_string(value)), Some(value));
        assert_eq!(decimal_string(value), value.to_string());
    }
}

#[test]
fn joining() {
    assert_eq!(join(&list(&[]), " "), "");
    assert_eq!(join(&list(&["a"]), " "), "a");
    assert_eq!(join(&list(&["a", "b", "c"]), ", "), "a, b, c");
    assert_eq!(join(&list(&["", "", ""]), "-"), "--");
}

#[test]
fn string_equality() {
    assert!(str_eq("", ""));
    assert!(str_eq("abc", "abc"));
    assert!(!str_eq("abc", "abd"));
    assert!(!str_eq("abc", "ab"));
    assert!(!str_eq("abc", "ABC"));
    assert!(str_eq("grüße", "grüße"));
}

#[test]
fn case_mapping_of_lists() {
    assert_eq!(all_to_uppercase(&list(&["get", "Straße", "ınfo"])), list(&["GET", "STRASSE", "INFO"]));
    assert_eq!(all_to_lowercase(&list(&["SERVER", "ÄB", "x"])), list(&["server", "äb", "x"]));
    assert_eq!(all_to_lowercase(&list(&[])), list(&[]));
}
