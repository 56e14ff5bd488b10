use polymarket_arb_bot::market::{parse_clob_token_ids, TokenIds};
use polymarket_arb_bot::text::{numeral_text, parse_unsigned, same_text, split_bare, strip_suffixes};

#[test]
fn numerals_are_those_of_display() {
    for n in [0u64, 7, 9, 10, 11, 99, 100, 900, 1_700_000_100, u64::MAX] {
        assert_eq!(numeral_text(n), n.to_string());
    }
}

#[test]
fn numerals_are_read_back() {
    for n in [0u64, 1, 255, 256, 123_456_789, u64::MAX] {
        assert_eq!(parse_unsigned(&numeral_text(n), u64::MAX), Some(n));
    }
    assert_eq!(parse_unsigned(&numeral_text(256), 255), None);
}

#[test]
fn unsigned_numbers_are_read_as_std_reads_them() {
    let texts = [
        "", "+", "-", "-0", "-1", "0", "+0", "00", "007", "+12", "++1", "1+", " 1", "1 ", "1_0", "12a",
        "255", "256", "+255", "4294967295", "4294967296", "18446744073709551615",
        "18446744073709551616", "99999999999999999999999999999999999999999999999", "\u{0661}", "0x10",
        "1.0", "000000000000000000000000000000000000000000001",
        "99999999999999999999999999999999999999999999999x",
    ];
    for text in texts {
        assert_eq!(
            parse_unsigned(text, u8::MAX as u64),
            text.parse::<u8>().ok().map(u64::from),
            "{text:?}"
        );
        assert_eq!(
            parse_unsigned(text, u32::MAX as u64),
            text.parse::<u32>().ok().map(u64::from),
            "{text:?}"
        );
        assert_eq!(parse_unsigned(text, u64::MAX), text.parse::<u64>().ok(), "{text:?}");
    }
}

#[test]
fn suffixes_are_stripped_as_std_strips_them() {
    let texts = [
        "", "/", "//", "/ws", "ws", "wss://x", "wss://x/", "wss://x///", "wss://x/ws", "wss://x/ws/ws",
        "wss://x/ws/", "s/ws/w", "\u{e9}/ws",
    ];
    for text in texts {
        for suffix in ["/ws", "/", "x", "\u{e9}/ws"] {
            assert_eq!(strip_suffixes(text, suffix), text.trim_end_matches(suffix), "{text:?} {suffix:?}");
        }
    }
    assert_eq!(strip_suffixes("abc", ""), "abc");
}

#[test]
fn texts_are_compared() {
    assert!(same_text("PONG", "PONG"));
    assert!(!same_text("PONG", "pong"));
    assert!(same_text("", ""));
}

fn split_by_std(text: &str) -> Vec<String> {
    text.split(',').map(|s| s.trim().trim_matches('"').to_string()).collect()
}

#[test]
fn pieces_are_those_of_std() {
    let texts = [
        "", ",", "a", "a,b", " a , b ", "\"a\",\"b\"", " \"a\" , \"\"b\"\" ", "\" a \"", ",,", "\"", "\"\"",
        "\u{3000}a\u{a0},\u{2003}\"b\"\t", "a\"b", "x , y , z",
    ];
    for text in texts {
        assert_eq!(split_bare(text, ','), split_by_std(text), "{text:?}");
    }
}

#[test]
fn white_space_is_that_of_std() {
    for n in 0u32..=0xffff {
        if let Some(c) = char::from_u32(n) {
            let text = format!("{c}a{c}");
            assert_eq!(split_bare(&text, ','), split_by_std(&text), "{n:x}");
        }
    }
}

#[test]
fn token_ids_of_a_list_are_its_strings() {
    let value = TokenIds::List(vec![Some("1".to_string()), None, Some("2".to_string()), None]);
    assert_eq!(parse_clob_token_ids(&value), vec!["1", "2"]);
    assert!(parse_clob_token_ids(&TokenIds::List(vec![])).is_empty());
    assert!(parse_clob_token_ids(&TokenIds::Other).is_empty());
}

#[test]
fn token_ids_of_a_text_may_be_json() {
    let json = TokenIds::Text("[\"11\", \"2\\u0032\"]".to_string());
    assert_eq!(parse_clob_token_ids(&json), vec!["11", "22"]);
    let empty = TokenIds::Text("[]".to_string());
    assert!(parse_clob_token_ids(&empty).is_empty());
}

#[test]
fn token_ids_of_a_text_may_stand_between_commas() {
    let plain = TokenIds::Text(" 11 , \"22\" ".to_string());
    assert_eq!(parse_clob_token_ids(&plain), vec!["11", "22"]);
    let numbers = TokenIds::Text("[1, 2]".to_string());
    assert_eq!(parse_clob_token_ids(&numbers), vec!["[1", "2]"]);
    let nothing = TokenIds::Text(String::new());
    assert_eq!(parse_clob_token_ids(&nothing), vec![""]);
}
