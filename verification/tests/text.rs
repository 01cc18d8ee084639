use mdcrawl::table::write_table;
use mdcrawl::text::{
    chars_eq, collapse, find_language, limit_line_breaks, starts_with, to_chars, to_decimal,
    to_string, trim,
};

fn s(v: &Vec<char>) -> String {
    v.iter().collect()
}

#[test]
fn strings_and_buffers_convert_both_ways() {
    let v = to_chars("héllo\n");
    assert_eq!(v, vec!['h', 'é', 'l', 'l', 'o', '\n']);
    assert_eq!(to_string(&v), "héllo\n");
    assert_eq!(to_string(&vec![]), "");
}

#[test]
fn trim_removes_white_space_at_both_ends() {
    assert_eq!(s(&trim(&to_chars("  \t a b \n\u{a0}"))), "a b");
    assert_eq!(s(&trim(&to_chars("ab"))), "ab");
    assert_eq!(s(&trim(&to_chars(" \n\t "))), "");
    assert_eq!(s(&trim(&to_chars(""))), "");
    assert_eq!(s(&trim(&to_chars("\u{3000}x\u{2003}"))), "x");
}

#[test]
fn collapse_makes_one_space_of_each_run() {
    assert_eq!(s(&collapse(&to_chars("a  b\t\n c"), false)), "a b c");
    assert_eq!(s(&collapse(&to_chars("a\nb"), false)), "a b");
    assert_eq!(s(&collapse(&to_chars("abc"), false)), "abc");
    assert_eq!(s(&collapse(&to_chars(""), true)), "");
}

#[test]
fn collapse_keeps_one_line_break_where_asked() {
    assert_eq!(s(&collapse(&to_chars("a\nb"), true)), "a\nb");
    assert_eq!(s(&collapse(&to_chars("a\n\n\nb"), true)), "a\n b");
    assert_eq!(s(&collapse(&to_chars("a \n b"), true)), "a \n b");
    assert_eq!(s(&collapse(&to_chars("a\n \nb"), true)), "a\n \nb");
}

#[test]
fn line_breaks_are_limited_to_two() {
    assert_eq!(s(&limit_line_breaks(&to_chars("a\n\n\n\nb\n\n\nc\n"))), "a\n\nb\n\nc\n");
    assert_eq!(s(&limit_line_breaks(&to_chars("a\n\nb"))), "a\n\nb");
    assert_eq!(s(&limit_line_breaks(&to_chars("\n\n\n"))), "\n\n");
    assert_eq!(s(&limit_line_breaks(&to_chars("a\n \n\n\nb"))), "a\n \n\nb");
}

#[test]
fn numbers_are_written_in_decimal() {
    assert_eq!(s(&to_decimal(0)), "0");
    assert_eq!(s(&to_decimal(7)), "7");
    assert_eq!(s(&to_decimal(10)), "10");
    assert_eq!(s(&to_decimal(256)), "256");
    assert_eq!(s(&to_decimal(u64::MAX)), "18446744073709551615");
}

#[test]
fn language_is_found_in_the_class_list() {
    let lang = |c: &str| find_language(&to_chars(c)).map(|l| s(&l));
    assert_eq!(lang("language-rust"), Some("rust".to_string()));
    assert_eq!(lang("a  language-c++\tb language-d"), Some("c++".to_string()));
    assert_eq!(lang("language-"), Some("".to_string()));
    assert_eq!(lang("lang-rust highlight"), None);
    assert_eq!(lang(""), None);
    assert_eq!(lang("xlanguage-rust"), None);
}

#[test]
fn prefixes_and_equality_compare_characters() {
    assert!(starts_with(&to_chars("https://x"), &to_chars("https://")));
    assert!(!starts_with(&to_chars("http"), &to_chars("https://")));
    assert!(starts_with(&to_chars("x"), &to_chars("")));
    assert!(chars_eq(&to_chars("ab"), &to_chars("ab")));
    assert!(!chars_eq(&to_chars("ab"), &to_chars("ac")));
    assert!(!chars_eq(&to_chars("ab"), &to_chars("abc")));
}

#[test]
fn table_columns_are_as_wide_as_the_bytes_of_their_widest_cell() {
    let row = |cells: &[&str]| cells.iter().map(|c| to_chars(c)).collect::<Vec<_>>();
    let rows = vec![row(&["é", "b"]), row(&["abc"]), row(&["", "", "z"])];
    let mut out = to_chars(">");
    write_table(&mut out, &rows);
    assert_eq!(s(&out), ">| é  | b |   |\n| --- | - | - |\n| abc |   |   |\n|     |   | z |\n");
    let mut untouched = to_chars("x");
    write_table(&mut untouched, &vec![]);
    assert_eq!(s(&untouched), "x");
}
