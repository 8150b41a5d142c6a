use rosregview::output::{escape_control_chars, truncate_with_ellipsis, Stats};

#[test]
fn truncate_short_string_unchanged() {
    assert_eq!(truncate_with_ellipsis("hello", 5), "hello");
    assert_eq!(truncate_with_ellipsis("hi", 5), "hi");
}

#[test]
fn truncate_long_string_with_ellipsis() {
    assert_eq!(truncate_with_ellipsis("hello world", 5), "hell…");
}

#[test]
fn truncate_empty_string_is_empty() {
    assert_eq!(truncate_with_ellipsis("", 5), "");
}

#[test]
fn truncate_counts_chars_not_bytes() {
    assert_eq!(truncate_with_ellipsis("héllo", 5), "héllo");
    assert_eq!(truncate_with_ellipsis("héllo!", 5), "héll…");
    assert_eq!(truncate_with_ellipsis("abcdef", 5), "abcd…");
}

#[test]
fn truncate_max_chars_zero_yields_only_ellipsis() {
    assert_eq!(truncate_with_ellipsis("anything", 0), "…");
}

#[test]
fn escape_control_chars_preserves_text_and_escapes_controls() {
    assert_eq!(
        escape_control_chars("ok\n\u{1b}[31m雪"),
        "ok\\n\\u{1b}[31m雪"
    );
}

#[test]
fn truncate_result_never_exceeds_limit() {
    for max in 0..8usize {
        let out = truncate_with_ellipsis("abcdefghij", max);
        assert!(out.chars().count() <= max.max(1));
    }
    assert_eq!(truncate_with_ellipsis("ab", 1), "…");
    assert_eq!(truncate_with_ellipsis("a", 1), "a");
}

#[test]
fn escape_control_chars_uses_debug_escapes() {
    assert_eq!(escape_control_chars("a\tb\rc"), "a\\tb\\rc");
    assert_eq!(escape_control_chars("\u{7f}"), "\\u{7f}");
    assert_eq!(escape_control_chars("\0"), "\\u{0}");
    assert_eq!(escape_control_chars("plain \\ \"text\""), "plain \\ \"text\"");
}

#[test]
fn escaped_text_holds_no_control_characters() {
    let out = escape_control_chars("x\u{1}\u{1f}\u{9b}y");
    assert!(!out.chars().any(|c| c.is_control()));
    assert_eq!(out, "x\\u{1}\\u{1f}\\u{9b}y");
}

#[test]
fn stats_from_hive_keeps_its_inputs() {
    let s = Stats::from_hive("x.hiv", 42, 5);
    assert_eq!(s.path, "x.hiv");
    assert_eq!(s.file_size_bytes, 42);
    assert_eq!(s.minor_version, 5);
}
