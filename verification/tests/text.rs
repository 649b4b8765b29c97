use ccm_reproduction::paths::paths_equal;
use ccm_reproduction::lexical::{read_number, read_number_list, split_at_equals};
use ccm_reproduction::text::{sort_strings, text_less};

#[test]
fn rendered_numbers_read_back() {
    for n in [0u64, 7, 10, 4096, 3386, u32::MAX as u64, u64::MAX] {
        assert_eq!(read_number(&n.to_string(), u64::MAX), Some(n));
    }
    assert_eq!(read_number("+12", 100), Some(12));
    assert_eq!(read_number("101", 100), None);
    assert_eq!(read_number("", 100), None);
    assert_eq!(read_number("+", 100), None);
    assert_eq!(read_number("1a", 100), None);
    assert_eq!(read_number("18446744073709551616", u64::MAX), None);
}

#[test]
fn lists_and_flag_values_are_split() {
    assert_eq!(read_number_list("61,121"), Some(vec![61, 121]));
    assert_eq!(read_number_list("5"), Some(vec![5]));
    assert_eq!(read_number_list("5,"), None);
    assert_eq!(read_number_list(""), None);
    assert_eq!(
        split_at_equals("--top=3=4"),
        ("--top".to_owned(), Some("3=4".to_owned()))
    );
    assert_eq!(split_at_equals("--top"), ("--top".to_owned(), None));
}

#[test]
fn strings_sort_in_string_order() {
    assert!(text_less("abc", "abd"));
    assert!(text_less("ab", "abc"));
    assert!(!text_less("abc", "abc"));
    let sorted = sort_strings(vec!["u".to_owned(), "a".to_owned(), "pre".to_owned(), "a".to_owned()]);
    assert_eq!(sorted, ["a", "a", "pre", "u"]);
}

#[test]
fn paths_compare_by_their_components() {
    assert!(paths_equal("a//b", "a/b"));
    assert!(paths_equal("a/./b/.", "a/b"));
    assert!(paths_equal("./a", "./a/"));
    assert!(paths_equal(".", "./."));
    assert!(paths_equal("", ""));
    assert!(!paths_equal("./a", "a"));
    assert!(!paths_equal("/a", "a"));
    assert!(!paths_equal("a/../b", "b"));
    assert!(!paths_equal("a", "b"));
    assert!(!paths_equal("", "/"));
}
