use rosregview::cli::{Command, OutputFormat};
use rosregview::output::value::DataJson;
use rosregview::output::Stats;
use rosregview::view::info::{self, InfoPayload};
use rosregview::view::list::{self, is_root_path, target_label, ListEntry, ListStats};
use rosregview::view::show::{self, ShowStats, ValueEntry};
use rosregview::view::tree::{self, render_tree_to_string, KeyTreeNode, TreeStats};
use rosregview::{run, Report};

fn leaf(name: &str) -> KeyTreeNode {
    KeyTreeNode { name: name.to_string(), subkeys: vec![] }
}

#[test]
fn info_report_has_the_documented_lines() {
    let payload = InfoPayload { base: Stats::from_hive("sys.hiv", 159744, 5), root_subkey_count: 5, minor_version_known: true };
    assert_eq!(
        info::render_human(&payload),
        "File:           sys.hiv\nSize:           159744 bytes\nParsed:         OK (nt-hive 0.3, minor version 5)\nRoot subkeys:   5\n"
    );
}

#[test]
fn tree_is_indented_two_spaces_per_level_in_preorder() {
    let t = KeyTreeNode {
        name: "<root>".to_string(),
        subkeys: vec![
            KeyTreeNode { name: "A".to_string(), subkeys: vec![leaf("A1"), leaf("A2")] },
            leaf("B"),
        ],
    };
    let mut out = String::new();
    render_tree_to_string(&t, 0, &mut out);
    assert_eq!(out, "<root>\n  A\n    A1\n    A2\n  B\n");
    let mut deeper = String::from(">");
    render_tree_to_string(&leaf("x\u{1b}"), 2, &mut deeper);
    assert_eq!(deeper, ">    x\\u{1b}\n");
}

#[test]
fn tree_report_shows_the_depth_limit() {
    let stats = TreeStats { base: Stats::from_hive("h", 10, 3), depth_limit: Some(1), tree: leaf("<root>") };
    assert_eq!(
        tree::render_human(&stats),
        "File:     h\nSize:     10 bytes\nDepth:    0..=1\n\n<root>\n"
    );
    let stats = TreeStats { base: Stats::from_hive("h", 10, 3), depth_limit: None, tree: leaf("<root>") };
    assert!(tree::render_human(&stats).contains("Depth:    unlimited\n"));
}

#[test]
fn list_report_aligns_its_columns() {
    let stats = ListStats {
        base: Stats::from_hive("h.hiv", 1, 5),
        at: "<root>".to_string(),
        entries: vec![ListEntry { name: "Software".to_string(), subkey_count: 12, value_count: 0 }],
        total_entries: 1,
        warnings: Vec::new(),
    };
    let expected = [
        "File:    h.hiv\n".to_string(),
        "At:      <root>\n".to_string(),
        "\n".to_string(),
        format!("{:<40}  {:>8}  {:>8}\n", "Name", "Subkeys", "Values"),
        format!("{}\n", "\u{2500}".repeat(60)),
        format!("{:<40}  {:>8}  {:>8}\n", "Software", 12, 0),
        "\n".to_string(),
        "Total: 1 values\n".to_string(),
    ]
    .concat();
    assert_eq!(list::render_human(&stats), expected);
}

#[test]
fn list_report_cuts_long_names_at_forty_characters() {
    let long = "n".repeat(50);
    let stats = ListStats {
        base: Stats::from_hive("h", 1, 5),
        at: "A\\B".to_string(),
        entries: vec![ListEntry { name: long, subkey_count: 0, value_count: 3 }],
        total_entries: 1,
        warnings: Vec::new(),
    };
    let out = list::render_human(&stats);
    let row = format!("{}\u{2026}  {:>8}  {:>8}\n", "n".repeat(39), 0, 3);
    assert!(out.contains(&row), "got:\n{out}");
    assert!(out.contains("At:      A\\B\n"));
}

#[test]
fn show_report_has_name_type_and_data_columns() {
    let stats = ShowStats {
        base: Stats::from_hive("h.hiv", 1, 5),
        at: "data-test".to_string(),
        entries: vec![ValueEntry {
            name: "dword".to_string(),
            reg_type: "REG_DWORD".to_string(),
            data_human: "42 (0x0000002a)".to_string(),
            data_json: DataJson::Number(42),
        }],
        total_values: 1,
    };
    let expected = [
        "File:    h.hiv\n".to_string(),
        "At:      data-test\n".to_string(),
        "\n".to_string(),
        format!("{:<32}  {:<24}  Data\n", "Name", "Type"),
        format!("{}\n", "\u{2500}".repeat(86)),
        format!("{:<32}  {:<24}  {}\n", "dword", "REG_DWORD", "42 (0x0000002a)"),
        "\n".to_string(),
        "Total: 1 values\n".to_string(),
    ]
    .concat();
    assert_eq!(show::render_human(&stats), expected);
}

#[test]
fn root_paths_are_none_empty_or_dot() {
    assert!(is_root_path(None));
    assert!(is_root_path(Some("")));
    assert!(is_root_path(Some(".")));
    assert!(!is_root_path(Some("Software")));
    assert_eq!(target_label(None), "<root>");
    assert_eq!(target_label(Some(".")), "<root>");
    assert_eq!(target_label(Some("Software\\Vendor")), "Software\\Vendor");
}

#[test]
fn every_subcommand_refuses_bytes_that_are_not_a_hive() {
    let junk = vec![0u8; 16];
    let commands = vec![
        Command::Info { path: "junk".to_string(), format: OutputFormat::Human },
        Command::Tree { path: "junk".to_string(), depth: None, format: OutputFormat::Human },
        Command::List { path: "junk".to_string(), key_path: None, format: OutputFormat::Json },
        Command::Show { path: "junk".to_string(), key_path: Some("a".to_string()), format: OutputFormat::Human },
        Command::Find {
            path: "junk".to_string(),
            name: vec![],
            value: None,
            case_sensitive: false,
            max_depth: None,
            format: OutputFormat::Human,
        },
    ];
    for c in &commands {
        match run(c, &junk) {
            Ok(_) => panic!("junk must not parse as a hive"),
            Err(e) => {
                assert_eq!(e.message(), "`junk` is not a valid Windows registry hive");
                assert!(e.cause().is_some());
            }
        }
    }
}

#[test]
fn report_render_dispatches_to_the_subcommand() {
    let payload = InfoPayload { base: Stats::from_hive("sys.hiv", 1, 5), root_subkey_count: 0, minor_version_known: true };
    let r = Report::Info(payload);
    assert!(r.render_human().starts_with("File:           sys.hiv\n"));
}
