use anthropic_proxy::daemon::read_pid;
use anthropic_proxy::json::Json;
use anthropic_proxy::numerals::{parse_i32, parse_u16, parse_u32, parse_u64};
use anthropic_proxy::strmap::StrMap;
use anthropic_proxy::text::{
    char_is_space, entry_texts, join_texts, replace_text, strip_end_text, text_precedes, trim_text,
};

#[test]
fn white_space_is_that_of_unicode() {
    for n in 0..0x11_0000u32 {
        if let Some(c) = char::from_u32(n) {
            assert_eq!(char_is_space(c), c.is_whitespace(), "{n:x}");
        }
    }
    assert_eq!(trim_text("\u{2003} a b\u{a0}\n"), "a b");
}

#[test]
fn texts_are_taken_apart_and_joined() {
    assert_eq!(entry_texts(" a ;; b\n", &[';', '\n']), ["a", "b"]);
    let parts = vec!["a".to_string(), "".to_string(), "b".to_string()];
    assert_eq!(join_texts(&parts, ", "), "a, , b");
    assert_eq!(replace_text("a/x/x/b", "/x", "-"), "a--/b");
    assert_eq!(strip_end_text("a//", "/"), "a");
    assert!(text_precedes("a", "ab"));
    assert!(!text_precedes("b", "ab"));
}

#[test]
fn numbers_are_read_as_std_reads_them() {
    for text in ["0", "00", "+7", "-7", "65535", "65536", "", "+", "-", " 1", "1_0", "٣"] {
        assert_eq!(parse_u16(text), text.parse().ok(), "{text}");
        assert_eq!(parse_u32(text), text.parse().ok(), "{text}");
        assert_eq!(parse_i32(text), text.parse().ok(), "{text}");
    }
    for text in ["4294967295", "4294967296", "2147483647", "2147483648", "-2147483648"] {
        assert_eq!(parse_u32(text), text.parse().ok(), "{text}");
        assert_eq!(parse_i32(text), text.parse().ok(), "{text}");
    }
    assert_eq!(parse_u64("18446744073709551615"), Some(u64::MAX));
    assert_eq!(parse_u64("18446744073709551616"), None);
}

#[test]
fn process_numbers_are_read() {
    assert_eq!(read_pid(" 4242\n"), Ok(4242));
    assert_eq!(read_pid("-1"), Ok(-1));
    assert_eq!(
        read_pid("12a"),
        Err("Invalid PID in file: 12a".to_string())
    );
}

#[test]
fn maps_have_each_key_once() {
    let mut map = StrMap::new();
    assert!(map.is_empty());
    map.insert("a".to_string(), 1);
    map.insert("b".to_string(), 2);
    map.insert("a".to_string(), 3);
    assert_eq!(map.len(), 2);
    assert_eq!(map.get("a"), Some(&3));
    assert_eq!(map.get("c"), None);
    assert!(map.contains_key("b"));
    assert_eq!(map.entry(1), (&"b".to_string(), &2));
}

#[test]
fn json_is_written_and_read() {
    let text = "{\"a\":[1,-2.5,null,true,\"x\\n\"],\"b\":{}}";
    let value = Json::parse(text).unwrap();
    assert_eq!(value.to_text(), text);
    assert_eq!(value.copy(), value);
    assert_eq!(value.get("a").unwrap().at(0).unwrap().as_u64(), Some(1));
    assert_eq!(value.get("a").unwrap().at(1).unwrap().as_u64(), None);
    assert_eq!(value.get("a").unwrap().at(9), None);
    assert_eq!(Json::parse("{\"a\":1,\"a\":2}").unwrap().to_text(), "{\"a\":2}");
    assert_eq!(Json::parse("{"), None);
    assert_eq!(Json::whole(u64::MAX).to_text(), "18446744073709551615");
    assert_eq!(Json::text("\"").to_text(), "\"\\\"\"");
    let built = Json::empty_object().with("k", Json::Bool(true)).with("k", Json::Null);
    assert_eq!(built.to_text(), "{\"k\":null}");
}
