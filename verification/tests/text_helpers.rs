use loaderspot::text::{join_all, parse_u32, split_on, str_eq, u32_to_string};

#[test]
fn split_keeps_empty_segments() {
    let eq = |r: Vec<String>, e: Vec<&str>| {
        assert_eq!(r, e.into_iter().map(|s| s.to_string()).collect::<Vec<_>>());
    };
    eq(split_on("1.2.3", '.'), vec!["1", "2", "3"]);
    eq(split_on("a..b", '.'), vec!["a", "", "b"]);
    eq(split_on(".x.", '.'), vec!["", "x", ""]);
    eq(split_on("", '.'), vec![""]);
    eq(split_on("plain", '.'), vec!["plain"]);
    eq(split_on("10-12", '-'), vec!["10", "12"]);
}

#[test]
fn join_is_the_inverse_on_plain_parts() {
    let parts = vec!["1".to_string(), "2".to_string(), "3".to_string()];
    assert_eq!(join_all(&parts, "."), "1.2.3");
    assert_eq!(join_all(&vec!["only".to_string()], ", "), "only");
    assert_eq!(join_all(&Vec::new(), ", "), "");
    assert_eq!(
        join_all(&vec!["a".to_string(), "b".to_string()], ", "),
        "a, b"
    );
}

#[test]
fn parse_u32_reads_digits_only() {
    assert_eq!(parse_u32("0"), Some(0));
    assert_eq!(parse_u32("5000"), Some(5000));
    assert_eq!(parse_u32("4294967295"), Some(4294967295));
    assert_eq!(parse_u32("4294967296"), None);
    assert_eq!(parse_u32(""), None);
    assert_eq!(parse_u32("12a"), None);
    assert_eq!(parse_u32("-5"), None);
    assert_eq!(parse_u32("+5"), None);
}

#[test]
fn u32_renders_decimally() {
    assert_eq!(u32_to_string(0), "0");
    assert_eq!(u32_to_string(7), "7");
    assert_eq!(u32_to_string(10), "10");
    assert_eq!(u32_to_string(5000), "5000");
    assert_eq!(u32_to_string(4294967295), "4294967295");
}

#[test]
fn string_equality_by_characters() {
    assert!(str_eq("", ""));
    assert!(str_eq("abc", "abc"));
    assert!(!str_eq("abc", "abd"));
    assert!(!str_eq("abc", "ab"));
}
