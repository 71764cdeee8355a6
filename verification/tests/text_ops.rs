use voiddrop::text::{decimal, split, split_whitespace, strip_prefix, trim};

#[test]
fn text_operations() {
    assert_eq!(trim("\u{a0} a b \u{3000}"), "a b");
    assert_eq!(split_whitespace("  GET  /x\tHTTP/1.1 "), vec!["GET", "/x", "HTTP/1.1"]);
    assert_eq!(split("a?b??c", "?"), vec!["a", "b", "", "c"]);
    assert_eq!(split("aaa", "aa"), vec!["", "a"]);
    assert_eq!(strip_prefix("/dl/x", "/dl/").as_deref(), Some("x"));
    assert_eq!(strip_prefix("/d", "/dl/"), None);
    assert_eq!(decimal(0), "0");
    assert_eq!(decimal(u64::MAX), u64::MAX.to_string());
}
