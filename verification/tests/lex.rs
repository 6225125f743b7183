use mcinfo::lex::{copy_range, read_unsigned, split_fields, split_lines, split_words};
use mcinfo::stats::{chars_of, string_of};

fn chars(s: &str) -> Vec<char> {
    s.chars().collect()
}

fn texts(parts: Vec<Vec<char>>) -> Vec<String> {
    parts.iter().map(|p| p.iter().collect()).collect()
}

#[test]
fn lines_are_cut_at_crlf() {
    assert_eq!(texts(split_lines(&chars("a\r\nb\r\n"))), vec!["a", "b", ""]);
    assert_eq!(texts(split_lines(&chars("a\nb\rc"))), vec!["a\nb\rc"]);
    assert_eq!(texts(split_lines(&chars(""))), vec![""]);
    assert_eq!(texts(split_lines(&chars("\r\n"))), vec!["", ""]);
    assert_eq!(texts(split_lines(&chars("\r\r\n\n"))), vec!["\r", "\n"]);
    assert_eq!(texts(split_lines(&chars("a\r\n\r\nb\r"))), vec!["a", "", "b\r"]);
}

#[test]
fn words_are_runs_without_whitespace() {
    assert_eq!(texts(split_words(&chars("STAT  pid\t12 "))), vec!["STAT", "pid", "12"]);
    assert_eq!(texts(split_words(&chars(""))), Vec::<String>::new());
    assert_eq!(texts(split_words(&chars(" \t\r\n\u{c}"))), Vec::<String>::new());
    assert_eq!(texts(split_words(&chars("a"))), vec!["a"]);
    assert_eq!(texts(split_words(&chars("a\u{b}b"))), vec!["a\u{b}b"]);
}

#[test]
fn fields_are_cut_at_colons() {
    assert_eq!(texts(split_fields(&chars("items:1:age"))), vec!["items", "1", "age"]);
    assert_eq!(texts(split_fields(&chars("uptime"))), vec!["uptime"]);
    assert_eq!(texts(split_fields(&chars(""))), vec![""]);
    assert_eq!(texts(split_fields(&chars(":"))), vec!["", ""]);
    assert_eq!(texts(split_fields(&chars("a::b:"))), vec!["a", "", "b", ""]);
}

#[test]
fn unsigned_numbers_are_read() {
    assert_eq!(read_unsigned(&chars("0"), 255), Some(0));
    assert_eq!(read_unsigned(&chars("255"), 255), Some(255));
    assert_eq!(read_unsigned(&chars("256"), 255), None);
    assert_eq!(read_unsigned(&chars("+17"), 255), Some(17));
    assert_eq!(read_unsigned(&chars("0000000000000000000000017"), 255), Some(17));
    assert_eq!(read_unsigned(&chars(""), 255), None);
    assert_eq!(read_unsigned(&chars("+"), 255), None);
    assert_eq!(read_unsigned(&chars("++1"), 255), None);
    assert_eq!(read_unsigned(&chars("-1"), 255), None);
    assert_eq!(read_unsigned(&chars("1 "), 255), None);
    assert_eq!(read_unsigned(&chars("1_0"), 255), None);
    assert_eq!(read_unsigned(&chars("\u{663}"), 255), None);
    assert_eq!(read_unsigned(&chars("18446744073709551615"), u64::MAX), Some(u64::MAX));
    assert_eq!(read_unsigned(&chars("18446744073709551616"), u64::MAX), None);
    assert_eq!(read_unsigned(&chars("99999999999999999999"), u64::MAX), None);
    assert_eq!(read_unsigned(&chars("5"), 0), None);
    assert_eq!(read_unsigned(&chars("0"), 0), Some(0));
}

#[test]
fn ranges_and_texts_are_copied() {
    assert_eq!(copy_range(&chars("abcdef"), 2, 4), chars("cd"));
    assert_eq!(copy_range(&chars("abcdef"), 3, 3), chars(""));
    assert_eq!(chars_of("h\u{e9}llo"), chars("h\u{e9}llo"));
    assert_eq!(chars_of(""), chars(""));
    assert_eq!(string_of(&chars("h\u{e9}llo")), "h\u{e9}llo");
}
