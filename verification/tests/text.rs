use openorchestrator::number::{decimal_text, parse_i64, parse_u64};
use openorchestrator::text::{
    char_is_space, contains, eq_ignore_case, find, find_first_places, join, push_distinct, replace,
    same_text, split,
    starts_with, strip_prefix, to_ascii_lower, trim, trim_end_matches, trim_matches,
    trim_start_matches, words, CharSet,
};

const SAMPLES: [&str; 12] = [
    "", " ", "a", " a b ", "\u{3000}wide\u{a0}", "--a--", "aaa", "aba", "ÄÖü", "x\ty\nz\r\n",
    "a|b||c", "\u{85}\u{2028}q",
];

#[test]
fn white_space_is_that_of_unicode() {
    for n in 0..=0x10ffff_u32 {
        if let Some(c) = char::from_u32(n) {
            assert_eq!(char_is_space(c), c.is_whitespace(), "{:x}", n);
        }
    }
}

#[test]
fn trimming_agrees_with_std() {
    for s in SAMPLES {
        assert_eq!(trim(s), s.trim());
        let set = CharSet::OneOf("-a");
        assert_eq!(trim_matches(s, &set), s.trim_matches(|c| c == '-' || c == 'a'));
        assert_eq!(trim_start_matches(s, &set), s.trim_start_matches(|c| c == '-' || c == 'a'));
        assert_eq!(trim_end_matches(s, &set), s.trim_end_matches(|c| c == '-' || c == 'a'));
    }
}

#[test]
fn words_and_parts_agree_with_std() {
    for s in SAMPLES {
        assert_eq!(words(s), s.split_whitespace().collect::<Vec<&str>>());
        assert_eq!(split(s, &CharSet::OneOf("|")), s.split('|').collect::<Vec<&str>>());
        let parts = split(s, &CharSet::OneOf("a"));
        assert_eq!(join(&parts, "a"), s);
        assert_eq!(to_ascii_lower(s), s.to_ascii_lowercase());
    }
}

#[test]
fn finding_agrees_with_std() {
    for s in SAMPLES {
        for t in ["", "a", "ab", "b", "|", "ü", "\n"] {
            let chars = s.find(t).map(|i| s[..i].chars().count());
            assert_eq!(find(s, t), chars);
            assert_eq!(contains(s, t), s.contains(t));
            assert_eq!(starts_with(s, t), s.starts_with(t));
            assert_eq!(strip_prefix(s, t), s.strip_prefix(t));
            assert_eq!(same_text(s, t), s == t);
            assert_eq!(eq_ignore_case(s, t), s.eq_ignore_ascii_case(t));
            if !t.is_empty() {
                assert_eq!(replace(s, t, "<>"), s.replace(t, "<>"));
            }
        }
    }
    assert!(eq_ignore_case("MaIn", "main"));
    assert_eq!(replace("aaa", "aa", "b"), "ba");
}

#[test]
fn repeated_items_are_kept_once() {
    let mut list = Vec::new();
    for s in ["a", "b", "a", "c", "b"] {
        push_distinct(&mut list, s.to_string());
    }
    assert_eq!(list, vec!["a", "b", "c"]);
}

#[test]
fn numbers_agree_with_std() {
    for n in [0, 1, 9, 10, 99, 100, 12_345, u64::MAX] {
        assert_eq!(decimal_text(n), n.to_string());
        assert_eq!(parse_u64(&decimal_text(n)), Some(n));
    }
    for s in [
        "", "+", "-", "0", "+7", "-7", "007", "1a", " 1", "18446744073709551615",
        "18446744073709551616", "9223372036854775807", "9223372036854775808",
        "-9223372036854775808", "-9223372036854775809", "+-1", "--1", "\u{663}",
    ] {
        assert_eq!(parse_u64(s), s.parse::<u64>().ok(), "{}", s);
        assert_eq!(parse_i64(s), s.parse::<i64>().ok(), "{}", s);
    }
}

#[test]
fn first_places_are_found() {
    let list: Vec<String> = ["b", "a", "b", "c", "a"].iter().map(|s| s.to_string()).collect();
    assert_eq!(find_first_places(&list), vec![0, 1, 3]);
    assert!(find_first_places(&vec![]).is_empty());
}
