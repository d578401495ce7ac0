use libscoop::order::less;
use libscoop::text::{join_strings, prefix_before, split_once_at, suffix_after_last, to_ascii_lowercase};

#[test]
fn text_operations() {
    assert_eq!(prefix_before("a?b?c", '?'), "a");
    assert_eq!(prefix_before("abc", '?'), "abc");
    assert_eq!(suffix_after_last("a/b/c", '/'), "c");
    assert_eq!(split_once_at("a/b/c", '/'), Some(("a".to_string(), "b/c".to_string())));
    assert_eq!(split_once_at("abc", '/'), None);
    assert_eq!(to_ascii_lowercase("AbC-Ü"), "abc-Ü");
    assert_eq!(join_strings(&vec!["a".to_string(), "b".to_string(), "c".to_string()], ", "), "a, b, c");
    assert_eq!(join_strings(&vec![], ", "), "");
}

#[test]
fn names_order_like_strings() {
    for (a, b) in [("a", "b"), ("a", "ab"), ("", "a"), ("Z", "a"), ("é", "z"), ("abc", "abd"), ("same", "same")] {
        assert_eq!(less(a, b), a < b);
        assert_eq!(less(b, a), b < a);
    }
}
