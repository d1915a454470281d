use api_lorem_ipsum::domain::text::{
    append_decimal, parse_u32, parse_u64, same_text, split_from, text_is,
};

#[test]
fn parse_u32_reads_plain_numbers() {
    assert_eq!(parse_u32("0"), Some(0));
    assert_eq!(parse_u32("5"), Some(5));
    assert_eq!(parse_u32("1000"), Some(1000));
    assert_eq!(parse_u32("00012"), Some(12));
    assert_eq!(parse_u32("+7"), Some(7));
}

#[test]
fn parse_u32_stops_at_the_largest_value() {
    assert_eq!(parse_u32("4294967295"), Some(u32::MAX));
    assert_eq!(parse_u32("4294967296"), None);
    assert_eq!(parse_u32("99999999999999999999999999"), None);
    assert_eq!(parse_u32("000000000000000000000000000000000000042"), Some(42));
}

#[test]
fn parse_u64_stops_at_the_largest_value() {
    assert_eq!(parse_u64("18446744073709551615"), Some(u64::MAX));
    assert_eq!(parse_u64("18446744073709551616"), None);
    assert_eq!(parse_u64("18446744073709551620"), None);
    assert_eq!(parse_u64("28446744073709551615"), None);
}

#[test]
fn parse_rejects_what_is_no_number() {
    for text in ["", "+", "-", "-1", "++1", "1+", " 1", "1 ", "1_000", "0x10", "abc", "12a", "١٢", "1.0"] {
        assert_eq!(parse_u32(text), None, "{text:?}");
        assert_eq!(parse_u64(text), None, "{text:?}");
    }
}

#[test]
fn parse_agrees_with_the_standard_library() {
    let samples = [
        "", "0", "+0", "-0", "7", "+", "42", "0042", "4294967295", "4294967296", "18446744073709551615",
        "18446744073709551616", "12x", "x12", "1 2", "+-1", "९", "1e3", "٣",
    ];
    for text in samples {
        assert_eq!(parse_u32(text), text.parse::<u32>().ok(), "{text:?}");
        assert_eq!(parse_u64(text), text.parse::<u64>().ok(), "{text:?}");
    }
}

#[test]
fn append_decimal_writes_the_usual_notation() {
    for number in [0u64, 1, 9, 10, 11, 99, 100, 101, 1000, 12345, 4294967295, u64::MAX] {
        let mut out = String::from("n=");
        append_decimal(&mut out, number);
        assert_eq!(out, format!("n={number}"));
    }
}

#[test]
fn decimal_text_reads_back() {
    for number in [0u64, 5, 10, 1000, 987654321, u64::MAX] {
        let mut out = String::new();
        append_decimal(&mut out, number);
        assert_eq!(parse_u64(&out), Some(number));
    }
}

#[test]
fn split_gives_one_piece_more_than_separators() {
    assert_eq!(split_from("", 0, '/'), vec![""]);
    assert_eq!(split_from("abc", 0, '/'), vec!["abc"]);
    assert_eq!(split_from("a/b", 0, '/'), vec!["a", "b"]);
    assert_eq!(split_from("/a/", 0, '/'), vec!["", "a", ""]);
    assert_eq!(split_from("//", 0, '/'), vec!["", "", ""]);
}

#[test]
fn split_starts_where_it_is_told() {
    assert_eq!(split_from("/api/5/short", 5, '/'), vec!["5", "short"]);
    assert_eq!(split_from("abc", 3, '/'), vec![""]);
    assert_eq!(split_from("é/ü/ø", 2, '/'), vec!["ü", "ø"]);
}

#[test]
fn split_agrees_with_the_standard_library() {
    for text in ["", "/", "a", "a/b/c", "/a//b/", "héllo/wörld", "5/short/headers/link", "///"] {
        let expected: Vec<&str> = text.split('/').collect();
        assert_eq!(split_from(text, 0, '/'), expected, "{text:?}");
    }
}

#[test]
fn texts_compare_by_their_characters() {
    assert!(same_text("false", "false"));
    assert!(!same_text("false", "False"));
    assert!(!same_text("0", ""));
    assert!(text_is(&"short".to_string(), "short"));
    assert!(!text_is(&"short".to_string(), "shor"));
    assert!(!text_is(&"shor".to_string(), "short"));
}
