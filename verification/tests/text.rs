use parallax_kernel::registry::Registry;
use parallax_kernel::text::{
    char_is_white_space, chars_of, concat2, concat3, decimal, find_text, join, matches_at,
    same_text, slice_text, trim_bounds, trimmed_equals,
};

fn chars(s: &str) -> Vec<char> {
    s.chars().collect()
}

#[test]
fn white_space_is_what_the_standard_library_says() {
    for code in 0..=0x11_0000u32 {
        if let Some(c) = char::from_u32(code) {
            assert_eq!(char_is_white_space(c), c.is_whitespace(), "U+{:04X}", code);
        }
    }
}

#[test]
fn trimming_agrees_with_the_standard_library() {
    for s in ["", " ", "  \t\n", "ls", " ls", "ls ", "\u{3000}a b\u{85}", "a", " a  b ", "\u{feff}x"] {
        let all = chars(s);
        let (lo, hi) = trim_bounds(&all);
        let trimmed: String = all[lo..hi].iter().collect();
        assert_eq!(trimmed, s.trim(), "{:?}", s);
        assert!(trimmed_equals(s, s.trim()));
    }
    assert!(trimmed_equals(" ls\n", "ls"));
    assert!(!trimmed_equals("l s", "ls"));
    assert!(!trimmed_equals("ls", " ls"));
    assert!(trimmed_equals("   ", ""));
}

#[test]
fn decimal_renders_without_leading_zeros() {
    for n in [0u64, 1, 9, 10, 11, 99, 100, 2222, 8080, 65535, 4294967295, u64::MAX] {
        assert_eq!(decimal(n), n.to_string());
    }
}

#[test]
fn find_gives_the_first_occurrence() {
    assert_eq!(find_text(&chars("a topic: b topic:"), &chars("topic:")), Some(2));
    assert_eq!(find_text(&chars("aaa"), &chars("aa")), Some(0));
    assert_eq!(find_text(&chars("abc"), &chars("")), Some(0));
    assert_eq!(find_text(&chars(""), &chars("")), Some(0));
    assert_eq!(find_text(&chars("abc"), &chars("abcd")), None);
    assert_eq!(find_text(&chars("abc"), &chars("c")), Some(2));
    assert_eq!(find_text(&chars("abc"), &chars("d")), None);
    assert!(matches_at(&chars("abc"), &chars("bc"), 1));
    assert!(!matches_at(&chars("abc"), &chars("bc"), 2));
    assert!(matches_at(&chars("abc"), &chars(""), 3));
    assert!(!matches_at(&chars("abc"), &chars(""), 4));
}

#[test]
fn texts_are_joined_cut_and_compared() {
    assert_eq!(join(&[].to_vec(), ", "), "");
    assert_eq!(join(&vec!["a".to_string()], ", "), "a");
    assert_eq!(join(&vec!["a".to_string(), String::new(), "b".to_string()], ", "), "a, , b");
    assert_eq!(concat2("ab", "cd"), "abcd");
    assert_eq!(concat3("a", "", "b"), "ab");
    assert_eq!(slice_text("h\u{e9}llo", 1, 3), "\u{e9}l");
    assert_eq!(slice_text("abc", 3, 3), "");
    assert_eq!(chars_of("h\u{e9}"), vec!['h', '\u{e9}']);
    assert!(same_text("a", "a"));
    assert!(!same_text("a", "A"));
}

#[test]
fn registry_keeps_the_order_of_arrival() {
    let mut table: Registry<u32> = Registry::new();
    assert_eq!(table.insert("b".to_string(), 1), None);
    assert_eq!(table.insert("a".to_string(), 2), None);
    assert_eq!(table.insert("b".to_string(), 3), Some(1));
    assert_eq!(table.len(), 2);
    assert_eq!(table.position("b"), Some(0));
    assert_eq!(table.position("a"), Some(1));
    assert_eq!(table.position("c"), None);
    assert_eq!((table.name_at(0).as_str(), *table.value_at(0)), ("b", 3));
    assert_eq!(table.replace_at(1, 9), 2);
    assert_eq!(table.remove("b"), Some(3));
    assert_eq!(table.remove("b"), None);
    assert_eq!(table.position("a"), Some(0));
    assert_eq!(*table.value_at(0), 9);
}
