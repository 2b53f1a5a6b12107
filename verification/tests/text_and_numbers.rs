use sic_machine::number::{parse_count, parse_word};
use sic_machine::report::format_word;
use sic_machine::text::{same_text, split_fields, split_pieces, to_chars, trim_whitespace, Separator};

fn strings(items: &[&str]) -> Vec<String> {
    items.iter().map(|s| s.to_string()).collect()
}

#[test]
fn fields_keep_empty_parts() {
    assert_eq!(split_fields("a\n\nb\n", Separator::Newline), strings(&["a", "", "b", ""]));
    assert_eq!(split_fields("", Separator::Newline), strings(&[""]));
    assert_eq!(split_fields("abc", Separator::Newline), strings(&["abc"]));
    assert_eq!(split_fields(",", Separator::Comma), strings(&["", ""]));
}

#[test]
fn pieces_drop_empty_parts() {
    assert_eq!(split_pieces("#1,,X,", Separator::Comma), strings(&["#1", "X"]));
    assert_eq!(split_pieces(",", Separator::Comma), Vec::<String>::new());
    assert_eq!(split_pieces("", Separator::Blank), Vec::<String>::new());
    assert_eq!(split_pieces("  \t ", Separator::Blank), Vec::<String>::new());
}

#[test]
fn words_are_parted_by_any_white_space() {
    assert_eq!(
        split_pieces("\tLOOP  LDA\u{a0}#1\r", Separator::Blank),
        strings(&["LOOP", "LDA", "#1"])
    );
    assert_eq!(split_pieces("a\u{3000}b", Separator::Blank), strings(&["a", "b"]));
    assert_eq!(split_pieces("a_b", Separator::Blank), strings(&["a_b"]));
}

#[test]
fn trim_whitespace_collapses_runs() {
    assert_eq!(trim_whitespace("  A   LDA \t #5  "), "A LDA #5");
    assert_eq!(trim_whitespace(""), "");
    assert_eq!(trim_whitespace(" \t "), "");
    assert_eq!(trim_whitespace("one"), "one");
    assert_eq!(trim_whitespace("a\n b"), "a b");
}

#[test]
fn texts_compare_by_characters() {
    assert!(same_text("ADD", "ADD"));
    assert!(!same_text("ADD", "ADDR"));
    assert!(!same_text("ADD", "ADd"));
    assert!(same_text("", ""));
    assert_eq!(to_chars("é#1"), vec!['é', '#', '1']);
}

#[test]
fn word_literals() {
    assert_eq!(parse_word("5"), Some(5));
    assert_eq!(parse_word("-5"), Some(-5));
    assert_eq!(parse_word("+5"), Some(5));
    assert_eq!(parse_word("0005"), Some(5));
    assert_eq!(parse_word("-0"), Some(0));
    assert_eq!(parse_word("32767"), Some(32767));
    assert_eq!(parse_word("-32768"), Some(-32768));
    assert_eq!(parse_word("32768"), None);
    assert_eq!(parse_word("-32769"), None);
    assert_eq!(parse_word("99999999999999999999999999"), None);
    assert_eq!(parse_word(""), None);
    assert_eq!(parse_word("+"), None);
    assert_eq!(parse_word("-"), None);
    assert_eq!(parse_word("12a"), None);
    assert_eq!(parse_word(" 5"), None);
    assert_eq!(parse_word("5 "), None);
    assert_eq!(parse_word("--5"), None);
    assert_eq!(parse_word("٣"), None);
}

#[test]
fn word_literals_agree_with_std() {
    for text in ["5", "-5", "+5", "", "+", "-", "32768", "-32768", "007", "1_0", "0x10", "+-1"] {
        assert_eq!(parse_word(text), text.parse::<i16>().ok(), "{:?}", text);
        assert_eq!(parse_count(text), text.parse::<usize>().ok(), "{:?}", text);
    }
}

#[test]
fn count_literals() {
    assert_eq!(parse_count("3"), Some(3));
    assert_eq!(parse_count("+3"), Some(3));
    assert_eq!(parse_count("0"), Some(0));
    assert_eq!(parse_count("-0"), None);
    assert_eq!(parse_count("-3"), None);
    assert_eq!(parse_count(""), None);
    assert_eq!(parse_count("3x"), None);
    let most = usize::MAX.to_string();
    assert_eq!(parse_count(&most), Some(usize::MAX));
    let beyond = format!("{}0", most);
    assert_eq!(parse_count(&beyond), None);
    assert_eq!(parse_count("340282366920938463463374607431768211456"), None);
}

#[test]
fn decimal_text_of_words() {
    assert_eq!(format_word(0), "0");
    assert_eq!(format_word(7), "7");
    assert_eq!(format_word(-7), "-7");
    assert_eq!(format_word(10), "10");
    assert_eq!(format_word(32767), "32767");
    assert_eq!(format_word(-32768), "-32768");
    assert_eq!(format_word(1005), "1005");
}

#[test]
fn decimal_text_reads_back() {
    for value in [i16::MIN, -1000, -1, 0, 1, 9, 10, 99, 100, 12345, i16::MAX] {
        assert_eq!(parse_word(&format_word(value)), Some(value));
    }
}
