use easydb::text::{
    chars_of, contains_text, i64_to_text, index_of, is_whitespace, matches_at, prefix_ends_with,
    replace, same_text, to_ascii_lowercase, trim, trim_end_matches, trim_matches, trimmed_end,
    u64_to_text,
};

fn chars(s: &str) -> Vec<char> {
    s.chars().collect()
}

#[test]
fn chars_of_gives_the_characters() {
    assert_eq!(chars_of("añb"), vec!['a', 'ñ', 'b']);
    assert_eq!(chars_of(""), Vec::<char>::new());
}

#[test]
fn replace_agrees_with_std_on_plain_cases() {
    let cases = [
        ("select * from 'a.csv'", "'a.csv'", "temp_1_abcd"),
        ("aaaa", "aa", "b"),
        ("aaa", "aa", "b"),
        ("abc", "x", "y"),
        ("", "x", "y"),
        ("abcabc", "abc", ""),
        ("abab", "ab", "abab"),
        ("héllo wörld", "ö", "oe"),
    ];
    for (text, from, to) in cases {
        assert_eq!(replace(text, from, to), text.replace(from, to));
    }
}

#[test]
fn replace_with_an_empty_pattern_puts_the_text_between_all_characters() {
    assert_eq!(replace("ab", "", "-"), "-a-b-");
    assert_eq!(replace("", "", "-"), "-");
    assert_eq!(replace("ab", "", "-"), "ab".replace("", "-"));
}

#[test]
fn replace_takes_every_occurrence() {
    assert_eq!(
        replace("select * from 'a.csv' x join 'a.csv' y", "'a.csv'", "t"),
        "select * from t x join t y"
    );
}

#[test]
fn replace_of_a_pattern_longer_than_the_text() {
    assert_eq!(replace("ab", "abc", "x"), "ab");
}

#[test]
fn trim_takes_whitespace_from_both_ends() {
    assert_eq!(trim("  select 1 \n\t"), "select 1");
    assert_eq!(trim("select 1"), "select 1");
    assert_eq!(trim("   "), "");
    assert_eq!(trim(""), "");
    assert_eq!(trim("\u{a0}x\u{3000}"), "x");
    assert_eq!(trim(" a b "), " a b ".trim());
}

#[test]
fn whitespace_is_what_std_says() {
    for code in 0u32..0x3100 {
        if let Some(c) = char::from_u32(code) {
            assert_eq!(is_whitespace(c), c.is_whitespace(), "U+{:04X}", code);
        }
    }
}

#[test]
fn trim_end_matches_takes_the_whole_run() {
    assert_eq!(trim_end_matches("select 1;;;", ';'), "select 1");
    assert_eq!(trim_end_matches("select 1", ';'), "select 1");
    assert_eq!(trim_end_matches(";a;", ';'), ";a");
    assert_eq!(trim_end_matches(";;", ';'), "");
}

#[test]
fn trim_matches_takes_the_runs_at_both_ends() {
    assert_eq!(trim_matches("'data/sample.csv'", '\''), "data/sample.csv");
    assert_eq!(trim_matches("''it''s.csv'", '\''), "it''s.csv");
    assert_eq!(trim_matches("plain", '\''), "plain");
    assert_eq!(trim_matches("''", '\''), "");
}

#[test]
fn trimmed_end_gives_the_length_that_stays() {
    assert_eq!(trimmed_end(&chars("ab''"), '\''), 2);
    assert_eq!(trimmed_end(&chars("''"), '\''), 0);
    assert_eq!(trimmed_end(&chars(""), '\''), 0);
}

#[test]
fn index_of_gives_the_first_occurrence_or_the_length() {
    assert_eq!(index_of(&chars("a#b#c"), '#'), 1);
    assert_eq!(index_of(&chars("abc"), '#'), 3);
    assert_eq!(index_of(&chars(""), '#'), 0);
}

#[test]
fn prefix_ends_with_looks_at_the_prefix_only() {
    assert!(prefix_ends_with(&chars("a.csv'"), 5, &chars(".csv")));
    assert!(!prefix_ends_with(&chars("a.csv'"), 6, &chars(".csv")));
    assert!(!prefix_ends_with(&chars("csv"), 3, &chars(".csv")));
    assert!(prefix_ends_with(&chars("abc"), 0, &chars("")));
    assert!(!prefix_ends_with(&chars("a.csv"), 6, &chars(".csv")));
}

#[test]
fn matches_at_compares_in_place() {
    assert!(matches_at(&chars("hello"), &chars("ll"), 2));
    assert!(!matches_at(&chars("hello"), &chars("ll"), 3));
    assert!(!matches_at(&chars("hello"), &chars("lo"), 4));
    assert!(matches_at(&chars("hello"), &chars(""), 5));
    assert!(!matches_at(&chars("hello"), &chars(""), 6));
}

#[test]
fn numbers_are_written_in_decimal() {
    assert_eq!(u64_to_text(0), "0");
    assert_eq!(u64_to_text(7), "7");
    assert_eq!(u64_to_text(10), "10");
    assert_eq!(u64_to_text(1234567890), "1234567890");
    assert_eq!(u64_to_text(u64::MAX), u64::MAX.to_string());
}

#[test]
fn signed_numbers_are_written_with_their_sign() {
    assert_eq!(i64_to_text(0), "0");
    assert_eq!(i64_to_text(-1), "-1");
    assert_eq!(i64_to_text(1700000000), "1700000000");
    assert_eq!(i64_to_text(i64::MIN), i64::MIN.to_string());
    assert_eq!(i64_to_text(i64::MAX), i64::MAX.to_string());
}

#[test]
fn lower_case_changes_capital_letters_only() {
    assert_eq!(to_ascii_lowercase("INT"), "int");
    assert_eq!(to_ascii_lowercase("Varchar(10)"), "varchar(10)");
    assert_eq!(to_ascii_lowercase("AZaz@[`{"), "azaz@[`{");
    assert_eq!(to_ascii_lowercase("ÀÉ Ω"), "ÀÉ Ω");
    assert_eq!(to_ascii_lowercase(""), "");
    for text in ["ABCDEFGHIJKLMNOPQRSTUVWXYZ", "Mixed Case 123", "straße"] {
        assert_eq!(to_ascii_lowercase(text), text.to_ascii_lowercase());
    }
}

#[test]
fn same_text_compares_contents() {
    assert!(same_text("abc", "abc"));
    assert!(!same_text("abc", "abd"));
    assert!(!same_text("abc", "ab"));
    assert!(same_text("", ""));
}

#[test]
fn contains_text_searches_the_list() {
    let list = vec!["a".to_string(), "b".to_string()];
    assert!(contains_text(&list, "b"));
    assert!(!contains_text(&list, "c"));
    assert!(!contains_text(&vec![], "a"));
}
