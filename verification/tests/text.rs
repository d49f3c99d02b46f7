use framewire::decimal::{
    decimal_string, parse_isize, parse_u16, parse_u32, parse_unsigned, signed_decimal_string,
};
use framewire::json::object_text;
use framewire::rounding::{find_power_from, round_bits, round_quotient, TWO_24, TWO_53};
use framewire::table::Table;
use framewire::text::{from_chars, join, same_text, split, strip_prefix, to_chars};

#[test]
fn numbers_are_read_like_the_standard_library_does() {
    for text in
        ["", "+", "-", "0", "+5", "-5", "007", "65535", "65536", "4294967295", "4294967296", " 1",
         "1 ", "1_0", "\u{ff11}", "--1", "+-1", "-0", "99999999999999999999999"]
    {
        assert_eq!(parse_u32(text), text.parse::<u32>().ok(), "{text}");
        assert_eq!(parse_u16(text), text.parse::<u16>().ok(), "{text}");
        assert_eq!(parse_isize(text), text.parse::<isize>().ok(), "{text}");
        assert_eq!(parse_unsigned(text, u64::MAX), text.parse::<u64>().ok(), "{text}");
    }
    for n in [isize::MIN, isize::MAX] {
        assert_eq!(parse_isize(&n.to_string()), Some(n));
    }
    assert_eq!(parse_isize("9223372036854775808"), None);
    assert_eq!(parse_isize("-9223372036854775809"), None);
}

#[test]
fn numbers_are_written_like_the_standard_library_does() {
    for n in [0, 9, 10, 99, 100, 12345, u64::MAX] {
        assert_eq!(decimal_string(n), n.to_string());
    }
    for n in [0, -1, 1, i64::MIN, i64::MAX, -10] {
        assert_eq!(signed_decimal_string(n), n.to_string());
    }
}

#[test]
fn text_helpers() {
    assert_eq!(to_chars("aビ"), vec!['a', 'ビ']);
    assert_eq!(from_chars(&vec!['a', 'b', 'c', 'd'], 1, 3), "bc");
    assert!(same_text("abc", "abc"));
    assert!(!same_text("abc", "abd"));
    assert!(!same_text("abc", "ab"));
    assert_eq!(join("a", "b"), "ab");
    assert_eq!(strip_prefix("prefix rest", "prefix "), Some("rest".to_string()));
    assert_eq!(strip_prefix("pre", "prefix"), None);
    assert_eq!(split("a..b", '.'), vec!["a".to_string(), "".to_string(), "b".to_string()]);
    assert_eq!(split("", '.'), vec!["".to_string()]);
}

#[test]
fn tables_keep_one_value_per_key() {
    let mut table: Table<u8> = Table::new();
    assert!(table.get("a").is_none());
    table.insert("a".to_string(), 1);
    table.insert("b".to_string(), 2);
    table.insert("a".to_string(), 3);
    assert_eq!(table.len(), 2);
    assert_eq!(table.get("a"), Some(&3));
    assert!(table.contains_key("b"));
    assert_eq!(table.remove("b"), Some(2));
    assert_eq!(table.remove("b"), None);
    assert_eq!(*table.value_at(0), 3);
    table.clear();
    assert_eq!(table.len(), 0);
}

#[test]
fn objects_are_written_as_json() {
    let pairs = vec![
        ("type".to_string(), "x".to_string()),
        ("quote".to_string(), "\"\\\n".to_string()),
        ("type".to_string(), "y".to_string()),
    ];
    assert_eq!(object_text(pairs), "{\"quote\":\"\\\"\\\\\\n\",\"type\":\"y\"}");
    assert_eq!(object_text(vec![]), "{}");
}

#[test]
fn rounding_goes_to_the_nearest_and_to_even() {
    assert_eq!(round_quotient(7, 2), 4);
    assert_eq!(round_quotient(5, 2), 2);
    assert_eq!(round_quotient(8, 3), 3);
    assert_eq!(round_quotient(7, 3), 2);
    assert_eq!(round_bits(16777217, TWO_24), 16777216);
    assert_eq!(round_bits(16777219, TWO_24), 16777220);
    for n in [0u32, 1, 16777215, 33554431, 123456789, 4294967295, 4294967040, 4294967167] {
        assert_eq!(round_bits(n as u128, TWO_24), (n as f32) as u128);
    }
    for n in [9007199254740993u64, 9007199254740995, 18014398509481983, u64::MAX] {
        assert_eq!(round_bits(n as u128, TWO_53), (n as f64) as u128);
    }
    assert_eq!(find_power_from(0), 1);
    assert_eq!(find_power_from(60), 64);
    assert_eq!(find_power_from(64), 64);
    assert_eq!(find_power_from(65), 128);
}
