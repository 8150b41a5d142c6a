use rosregview::cli::{to_ascii_lowercase, Command, OutputFormat};

#[test]
fn output_format_from_str_accepts_human_and_json() {
    assert_eq!(
        "human".parse::<OutputFormat>().unwrap(),
        OutputFormat::Human
    );
    assert_eq!("JSON".parse::<OutputFormat>().unwrap(), OutputFormat::Json);
    assert_eq!("Json".parse::<OutputFormat>().unwrap(), OutputFormat::Json);
}

#[test]
fn output_format_from_str_rejects_unknown() {
    let err = "xml".parse::<OutputFormat>().unwrap_err();
    assert!(err.contains("unknown output format"));
    assert!(err.contains("xml"));
    assert!(err.contains("human"));
    assert!(err.contains("json"));
}

#[test]
fn output_format_display_round_trips() {
    assert_eq!(OutputFormat::Human.to_string(), "human");
    assert_eq!(OutputFormat::Json.to_string(), "json");
}

#[test]
fn output_format_error_message_is_exact_and_lowercased() {
    let err = OutputFormat::parse("XmL").unwrap_err();
    assert_eq!(err, "unknown output format `xml` (expected: human, json)");
}

#[test]
fn output_format_names_parse_back() {
    for f in [OutputFormat::Human, OutputFormat::Json] {
        assert_eq!(OutputFormat::parse(f.to_string().as_str()), Ok(f));
    }
}

#[test]
fn output_format_parse_ignores_ascii_case_only() {
    assert_eq!(OutputFormat::parse("HUMAN"), Ok(OutputFormat::Human));
    assert_eq!(OutputFormat::parse("hUmAn"), Ok(OutputFormat::Human));
    assert!(OutputFormat::parse(" human").is_err());
    assert!(OutputFormat::parse("").is_err());
}

#[test]
fn ascii_lowercase_leaves_other_characters() {
    assert_eq!(to_ascii_lowercase("AbC-ÉÖ 9Z"), "abc-ÉÖ 9z");
}

#[test]
fn command_format_reports_each_subcommand_format() {
    let c = Command::Info { path: "h".to_string(), format: OutputFormat::Json };
    assert_eq!(c.format(), OutputFormat::Json);
    let c = Command::Tree { path: "h".to_string(), depth: Some(2), format: OutputFormat::Human };
    assert_eq!(c.format(), OutputFormat::Human);
    let c = Command::Find {
        path: "h".to_string(),
        name: vec!["a".to_string()],
        value: None,
        case_sensitive: false,
        max_depth: None,
        format: OutputFormat::Json,
    };
    assert_eq!(c.format(), OutputFormat::Json);
}
