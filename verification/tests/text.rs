use inference_gateway::clock::{epoch_minute, low_ms, minute_of, ms_read, unix_ms, unix_timestamp_ms};
use inference_gateway::frontdoor::dispatch_names;
use inference_gateway::ids::fresh_name;
use inference_gateway::text::{
    contains, count_words, decimal_text, hex_text, is_white_space, join, parse_u64, split_char,
    split_words, starts_with, strip_prefix, take_chars, trim, trim_end_char,
};

#[test]
fn white_space_is_unicode_white_space() {
    for n in 0..=0x10ffffu32 {
        if let Some(c) = char::from_u32(n) {
            assert_eq!(is_white_space(c), c.is_whitespace(), "{n:x}");
        }
    }
}

#[test]
fn words_are_split_as_std_splits_them() {
    for text in ["", " ", "a", " a\u{3000}b\t\tcd ", "one two\nthree", "\u{85}x\u{a0}"] {
        let expected: Vec<String> = text.split_whitespace().map(str::to_string).collect();
        assert_eq!(split_words(text), expected);
        assert_eq!(count_words(text), expected.len());
        assert_eq!(trim(text), text.trim());
    }
}

#[test]
fn numbers_are_read_as_std_reads_them() {
    for text in [
        "",
        "+",
        "-1",
        "0",
        "007",
        "+12",
        "++1",
        "1 ",
        "18446744073709551615",
        "18446744073709551616",
        "99999999999999999999999",
    ] {
        assert_eq!(parse_u64(text), text.parse::<u64>().ok(), "{text}");
    }
}

#[test]
fn numbers_are_written_in_decimal_and_hexadecimal() {
    assert_eq!(decimal_text(0), "0");
    assert_eq!(decimal_text(u128::MAX), u128::MAX.to_string());
    assert_eq!(hex_text(&vec![0x00, 0x0f, 0xa0, 0xff]), "000fa0ff");
}

#[test]
fn texts_are_cut_and_joined() {
    assert_eq!(split_char("a,,b", ','), vec!["a", "", "b"]);
    assert_eq!(split_char("", ','), vec![""]);
    assert_eq!(join(&vec!["a".to_string(), "b".to_string()], "\n"), "a\nb");
    assert_eq!(join(&vec![], "\n"), "");
    assert_eq!(trim_end_char("a//", '/'), "a");
    assert_eq!(take_chars("häß", 2), "hä");
    assert_eq!(strip_prefix("Bearer x", "Bearer "), Some("x".to_string()));
    assert_eq!(strip_prefix("bearer x", "Bearer "), None);
    assert!(starts_with("https://x", "https://"));
    assert!(contains("BUSYGROUP Consumer Group", "BUSYGROUP"));
    assert!(!contains("BUSY", "BUSYGROUP"));
}

#[test]
fn identifiers_are_written_hyphenated() {
    assert_eq!(dispatch_names(0, true).request_id, "00000000-0000-0000-0000-000000000000");
    assert_eq!(
        dispatch_names(0x67e55044_10b1_426f_9247_bb680e5fe0c8, true).request_id,
        "67e55044-10b1-426f-9247-bb680e5fe0c8"
    );
}

#[test]
fn fresh_names_end_with_an_identifier() {
    let name = fresh_name("engine-");
    let id = uuid::Uuid::parse_str(name.strip_prefix("engine-").unwrap()).unwrap();
    assert_eq!(id.get_version_num(), 4);
    assert_eq!(id.to_string(), name["engine-".len()..]);
}

#[test]
fn times_are_whole_numbers() {
    assert_eq!(ms_read(None), 0);
    assert_eq!(ms_read(Some(60_001)), 60_001);
    assert_eq!(minute_of(59_999), 0);
    assert_eq!(minute_of(120_000), 2);
    assert_eq!(low_ms(1 << 64), 0);
    assert_eq!(low_ms((1 << 64) + 7), 7);
    let before = unix_timestamp_ms();
    let now = unix_ms() as u128;
    let minute = epoch_minute() as u128;
    let after = unix_timestamp_ms();
    assert!(before > 1_700_000_000_000);
    assert!(before <= now && now <= after);
    assert!(before / 60_000 <= minute && minute <= after / 60_000);
}
