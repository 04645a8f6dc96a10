use streambreak::text::{decimal_string, starts_with, str_equal, text_less};

#[test]
fn decimal_matches_to_string() {
    for n in [0u64, 7, 10, 99, 100, 12345, u64::MAX] {
        assert_eq!(decimal_string(n), n.to_string());
    }
}

#[test]
fn text_order_matches_string_order() {
    let words = ["", "a", "ab", "b", "2024-01-01", "2024-01-02", "é", "z"];
    for a in words {
        for b in words {
            assert_eq!(text_less(&a.to_string(), &b.to_string()), a < b, "{a} {b}");
        }
    }
}

#[test]
fn equality_and_prefix() {
    assert!(str_equal("abc", "abc"));
    assert!(!str_equal("abc", "abd"));
    assert!(!str_equal("abc", "ab"));
    assert!(starts_with("streambreak show", "streambreak"));
    assert!(!starts_with("stream", "streambreak"));
    assert!(starts_with("x", ""));
}
