use rosregview::output::Stats;
use rosregview::view::find::{
    collect_matches, fuzzy_contains, match_key, render_human, value_match_hints, FindPatterns, FindStats,
    KeyMatch, ScannedKey, ScannedValue, ValueMatchHint,
};

#[test]
fn fuzzy_contains_empty_needle_matches_anything() {
    assert!(fuzzy_contains("anything", "", false));
    assert!(fuzzy_contains("", "", false));
    assert!(fuzzy_contains("anything", "", true));
}

#[test]
fn fuzzy_contains_is_case_insensitive_by_default() {
    assert!(fuzzy_contains("Hello World", "hello", false));
    assert!(fuzzy_contains("Hello World", "WORLD", false));
    assert!(!fuzzy_contains("Hello World", "hello", true));
    assert!(fuzzy_contains("Hello World", "Hello", true));
}

#[test]
fn fuzzy_contains_negative() {
    assert!(!fuzzy_contains("hello", "world", true));
    assert!(!fuzzy_contains("hello", "world", false));
}

#[test]
fn find_patterns_without_filters_accepts_every_name() {
    let p = FindPatterns::default();
    assert!(p.matches_name("anything"));
    assert!(p.matches_name(""));
}

#[test]
fn find_patterns_value_only_filter_does_not_match_names() {
    let p = FindPatterns {
        value: Some("42".to_string()),
        ..Default::default()
    };
    assert!(!p.matches_name("anything"));
}

#[test]
fn find_patterns_name_filter_any_of() {
    let p = FindPatterns {
        name: vec!["foo".to_string(), "bar".to_string()],
        ..Default::default()
    };
    assert!(p.matches_name("foo_baz"));
    assert!(p.matches_name("qux_bar"));
    assert!(!p.matches_name("qux_baz"));
}

#[test]
fn find_patterns_value_filter_requires_pattern() {
    let p = FindPatterns::default();
    assert!(!p.matches_value("anything"));

    let p = FindPatterns {
        value: Some("42".to_string()),
        ..Default::default()
    };
    assert!(p.matches_value("the answer is 42"));
}

#[test]
fn find_patterns_value_filter_honors_case_sensitive() {
    let p = FindPatterns {
        value: Some("Foo".to_string()),
        case_sensitive: true,
        ..Default::default()
    };
    assert!(p.matches_value("hello Foo"));
    assert!(!p.matches_value("hello foo"));
}

fn value(name: &str, reg_type: &str, preview: &str, search: &str) -> ScannedValue {
    ScannedValue {
        name: name.to_string(),
        reg_type: reg_type.to_string(),
        preview: preview.to_string(),
        search: search.to_string(),
    }
}

fn key(path: &str, name: &str, depth: usize, values: Vec<ScannedValue>) -> ScannedKey {
    ScannedKey { path: path.to_string(), display_name: name.to_string(), depth, values }
}

fn scan() -> Vec<ScannedKey> {
    vec![
        key("<root>", "<root>", 0, vec![]),
        key("Software", "Software", 1, vec![value("Version", "REG_DWORD", "42 (0x0000002a)", "42 (0x0000002a)")]),
        key("Software\\Vendor", "Vendor", 2, vec![
            value("Path", "REG_SZ", "C:\\Tools", "C:\\Tools"),
            value("Answer", "REG_SZ", "the answer is 42", "the answer is 42"),
        ]),
        key("System", "System", 1, vec![]),
    ]
}

#[test]
fn fuzzy_contains_folds_unicode_case() {
    assert!(fuzzy_contains("ÉCOLE", "école", false));
    assert!(!fuzzy_contains("ÉCOLE", "école", true));
}

#[test]
fn without_filters_every_scanned_key_is_collected_in_order() {
    let keys = scan();
    let ms = collect_matches(&keys, &FindPatterns::default());
    assert_eq!(ms.len(), keys.len());
    for (m, k) in ms.iter().zip(keys.iter()) {
        assert_eq!(m.key_path, k.path);
        assert_eq!(m.depth, k.depth);
        assert!(m.matched_values.is_empty());
    }
}

#[test]
fn value_pattern_collects_keys_with_passing_values_only() {
    let p = FindPatterns { value: Some("42".to_string()), ..Default::default() };
    let ms = collect_matches(&scan(), &p);
    let paths: Vec<&str> = ms.iter().map(|m| m.key_path.as_str()).collect();
    assert_eq!(paths, vec!["Software", "Software\\Vendor"]);
    assert_eq!(ms[1].matched_values.len(), 1);
    assert_eq!(ms[1].matched_values[0].name, "Answer");
    assert_eq!(ms[1].matched_values[0].preview, "the answer is 42");
}

#[test]
fn value_pattern_matches_value_names_too() {
    let p = FindPatterns { value: Some("path".to_string()), ..Default::default() };
    let hints = value_match_hints(&scan()[2].values, &p);
    assert_eq!(hints.len(), 1);
    assert_eq!(hints[0].name, "Path");
    assert_eq!(hints[0].reg_type, "REG_SZ");
}

#[test]
fn name_and_value_patterns_combine_as_either() {
    let p = FindPatterns {
        name: vec!["system".to_string()],
        value: Some("tools".to_string()),
        case_sensitive: false,
    };
    let ms = collect_matches(&scan(), &p);
    let paths: Vec<&str> = ms.iter().map(|m| m.key_path.as_str()).collect();
    assert_eq!(paths, vec!["Software\\Vendor", "System"]);
    assert!(match_key(&scan()[0], &p).is_none());
}

#[test]
fn render_human_lists_settings_counts_and_matches() {
    let stats = FindStats {
        base: Stats::from_hive("h.hiv", 4096, 5),
        patterns: FindPatterns { name: vec!["ven".to_string()], value: Some("42".to_string()), case_sensitive: false },
        max_depth: Some(3),
        matches: vec![KeyMatch {
            key_path: "Software\\Vendor".to_string(),
            depth: 2,
            matched_values: vec![ValueMatchHint {
                name: "Answer".to_string(),
                reg_type: "REG_SZ".to_string(),
                preview: "the answer is 42".to_string(),
            }],
        }],
        total_keys: 4,
        warnings: vec![],
    };
    let expected = [
        "File:     h.hiv\n",
        "Patterns: name~=[\"ven\"]  value~=Some(\"42\")  case_sensitive=false\n",
        "Max depth: 3\n",
        "Scanned 4 keys, matched 1 key(s).\n",
        "\n",
        "  Software\\Vendor\n",
        "      • Answer: REG_SZ = the answer is 42\n",
    ]
    .concat();
    assert_eq!(render_human(&stats), expected);
}

#[test]
fn render_human_without_matches_has_no_blank_line() {
    let stats = FindStats {
        base: Stats::from_hive("h.hiv", 1, 3),
        patterns: FindPatterns::default(),
        max_depth: None,
        matches: vec![],
        total_keys: 1,
        warnings: vec![],
    };
    assert_eq!(
        render_human(&stats),
        "File:     h.hiv\nPatterns: name~=[]  value~=None  case_sensitive=false\nMax depth: unlimited\nScanned 1 keys, matched 0 key(s).\n"
    );
}
