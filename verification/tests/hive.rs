use rosregview::cli::{Command, OutputFormat};
use rosregview::hive::format::find_subpath;
use rosregview::hive::open::{open_hive, root_key};
use rosregview::output::value::DataJson;
use rosregview::view::info::count_root_subkeys;
use rosregview::view::list::collect_entries;
use rosregview::view::show::read_values;
use rosregview::view::tree::build_tree;
use rosregview::{root_lookup_is_safe, run, run_checked, Report};

/// Cells of a hive's data area, laid out one after the other.
struct Cells {
    data: Vec<u8>,
}

impl Cells {
    /// Appends an allocated cell holding `payload`; returns its offset.
    fn cell(&mut self, payload: &[u8]) -> u32 {
        let offset = self.data.len();
        let total = (4 + payload.len() + 7) / 8 * 8;
        self.data.extend_from_slice(&(-(total as i32)).to_le_bytes());
        self.data.extend_from_slice(payload);
        self.data.resize(offset + total, 0);
        offset as u32
    }

    /// A key node with an ASCII name.
    fn key(&mut self, name: &str, subkeys: Option<(u32, u32)>, values: Option<(u32, u32)>) -> u32 {
        let (n_sub, sub_list) = subkeys.unwrap_or((0, u32::MAX));
        let (n_val, val_list) = values.unwrap_or((0, u32::MAX));
        let mut h = Vec::new();
        h.extend_from_slice(b"nk");
        h.extend_from_slice(&0x0020u16.to_le_bytes());
        h.extend_from_slice(&0u64.to_le_bytes());
        h.extend_from_slice(&0u32.to_le_bytes());
        h.extend_from_slice(&0u32.to_le_bytes());
        h.extend_from_slice(&n_sub.to_le_bytes());
        h.extend_from_slice(&0u32.to_le_bytes());
        h.extend_from_slice(&sub_list.to_le_bytes());
        h.extend_from_slice(&u32::MAX.to_le_bytes());
        h.extend_from_slice(&n_val.to_le_bytes());
        h.extend_from_slice(&val_list.to_le_bytes());
        h.extend_from_slice(&u32::MAX.to_le_bytes());
        h.extend_from_slice(&u32::MAX.to_le_bytes());
        for _ in 0..5 {
            h.extend_from_slice(&0u32.to_le_bytes());
        }
        h.extend_from_slice(&(name.len() as u16).to_le_bytes());
        h.extend_from_slice(&0u16.to_le_bytes());
        h.extend_from_slice(name.as_bytes());
        self.cell(&h)
    }

    /// An index leaf (`li`) listing `keys`, which must be sorted by name.
    fn subkey_list(&mut self, keys: &[u32]) -> (u32, u32) {
        let mut p = Vec::new();
        p.extend_from_slice(b"li");
        p.extend_from_slice(&(keys.len() as u16).to_le_bytes());
        for k in keys {
            p.extend_from_slice(&k.to_le_bytes());
        }
        (keys.len() as u32, self.cell(&p))
    }

    /// A key values list.
    fn value_list(&mut self, values: &[u32]) -> (u32, u32) {
        let mut p = Vec::new();
        for v in values {
            p.extend_from_slice(&v.to_le_bytes());
        }
        (values.len() as u32, self.cell(&p))
    }

    /// A key value with an ASCII name whose data lives in a cell of its own.
    fn value(&mut self, name: &str, data_type: u32, data: &[u8]) -> u32 {
        let data_offset = self.cell(data);
        self.value_header(name, data_type, data.len() as u32, data_offset)
    }

    /// A key value whose (at most four bytes of) data sit in its header.
    fn inline_value(&mut self, name: &str, data_type: u32, data: [u8; 4]) -> u32 {
        self.value_header(name, data_type, 0x8000_0004, u32::from_le_bytes(data))
    }

    fn value_header(&mut self, name: &str, data_type: u32, data_size: u32, data_offset: u32) -> u32 {
        let mut h = Vec::new();
        h.extend_from_slice(b"vk");
        h.extend_from_slice(&(name.len() as u16).to_le_bytes());
        h.extend_from_slice(&data_size.to_le_bytes());
        h.extend_from_slice(&data_offset.to_le_bytes());
        h.extend_from_slice(&data_type.to_le_bytes());
        h.extend_from_slice(&1u16.to_le_bytes());
        h.extend_from_slice(&0u16.to_le_bytes());
        h.extend_from_slice(name.as_bytes());
        self.cell(&h)
    }
}

fn utf16z(s: &str) -> Vec<u8> {
    let mut v: Vec<u8> = s.encode_utf16().flat_map(|u| u.to_le_bytes()).collect();
    v.extend_from_slice(&[0, 0]);
    v
}

/// A small hive laid out like the `nt_hive` test hive:
///
/// ```text
/// <root>
///   big-data-test
///   character-encoding-test
///   data-test                (nine values, one of each decoded kind)
///   subkey-test              (an unnamed value and one of a type nt_hive does not know)
///   subpath-test
///     no-subkeys             (Answer = "the answer is 42")
/// ```
fn sample_hive() -> Vec<u8> {
    hive_with_root(None)
}

/// The sample hive, with its root cell offset field replaced by `root_field`
/// when one is given (and the checksum fixed up).
fn hive_with_root(root_field: Option<u32>) -> Vec<u8> {
    let mut c = Cells { data: Vec::new() };

    let big_data_test = c.key("big-data-test", None, None);
    let character_encoding_test = c.key("character-encoding-test", None, None);

    let sz = c.value("reg-sz", 1, &utf16z("sz-test"));
    let mut sz_nul = utf16z("sz-test");
    sz_nul.extend_from_slice(&[0, 0]);
    let sz_nul = c.value("reg-sz-with-terminating-nul", 1, &sz_nul);
    let expand_sz = c.value("reg-expand-sz", 2, &utf16z("sz-test"));
    let mut multi = utf16z("multi-sz-test");
    multi.extend_from_slice(&utf16z("line2"));
    multi.extend_from_slice(&[0, 0]);
    let multi = c.value("reg-multi-sz", 7, &multi);
    let mut multi_big = utf16z(&"0123456789".repeat(20));
    multi_big.extend_from_slice(&utf16z("0123456789"));
    multi_big.extend_from_slice(&[0, 0]);
    let multi_big = c.value("reg-multi-sz-big", 7, &multi_big);
    let dword = c.inline_value("dword", 4, 42u32.to_le_bytes());
    let dword_be = c.inline_value("dword-big-endian", 5, 42u32.to_le_bytes());
    let qword = c.value("qword", 11, &u64::MAX.to_le_bytes());
    let binary = c.value("binary", 3, &[1, 2, 3, 4, 5]);
    let data_values =
        c.value_list(&[sz, sz_nul, expand_sz, multi, multi_big, dword, dword_be, qword, binary]);
    let data_test = c.key("data-test", None, Some(data_values));

    let default = c.value("", 1, &utf16z("default data"));
    let odd = c.value("odd-type", 0x99, &[9, 8, 7]);
    let subkey_values = c.value_list(&[default, odd]);
    let subkey_test = c.key("subkey-test", None, Some(subkey_values));

    let answer = c.value("Answer", 1, &utf16z("the answer is 42"));
    let answer_values = c.value_list(&[answer]);
    let no_subkeys = c.key("no-subkeys", None, Some(answer_values));
    let subpath_subkeys = c.subkey_list(&[no_subkeys]);
    let subpath_test = c.key("subpath-test", Some(subpath_subkeys), None);

    let root_subkeys =
        c.subkey_list(&[big_data_test, character_encoding_test, data_test, subkey_test, subpath_test]);
    let root = c.key("ROOT", Some(root_subkeys), None);
    assemble(c, root_field.unwrap_or(root))
}

/// A hive whose data area holds `c`, with the root key at `root`.
fn assemble(mut c: Cells, root: u32) -> Vec<u8> {
    let data_size = (c.data.len() + 4095) / 4096 * 4096;
    c.data.resize(data_size, 0);

    let mut base = vec![0u8; 4096];
    base[0..4].copy_from_slice(b"regf");
    base[4..8].copy_from_slice(&1u32.to_le_bytes());
    base[8..12].copy_from_slice(&1u32.to_le_bytes());
    base[20..24].copy_from_slice(&1u32.to_le_bytes());
    base[24..28].copy_from_slice(&5u32.to_le_bytes());
    base[28..32].copy_from_slice(&0u32.to_le_bytes());
    base[32..36].copy_from_slice(&1u32.to_le_bytes());
    base[36..40].copy_from_slice(&root.to_le_bytes());
    base[40..44].copy_from_slice(&(data_size as u32).to_le_bytes());
    base[44..48].copy_from_slice(&1u32.to_le_bytes());
    let mut checksum = 0u32;
    for chunk in base[0..508].chunks(4) {
        checksum ^= u32::from_le_bytes([chunk[0], chunk[1], chunk[2], chunk[3]]);
    }
    if checksum == 0 {
        checksum = 1;
    } else if checksum == u32::MAX {
        checksum = u32::MAX - 1;
    }
    base[508..512].copy_from_slice(&checksum.to_le_bytes());

    base.extend_from_slice(&c.data);
    base
}

/// `bytes` with the base block's minor version set to `minor` (and the
/// checksum fixed up).
fn with_minor_version(mut bytes: Vec<u8>, minor: u32) -> Vec<u8> {
    bytes[24..28].copy_from_slice(&minor.to_le_bytes());
    let mut checksum = 0u32;
    for chunk in bytes[0..508].chunks(4) {
        checksum ^= u32::from_le_bytes([chunk[0], chunk[1], chunk[2], chunk[3]]);
    }
    if checksum == 0 {
        checksum = 1;
    } else if checksum == u32::MAX {
        checksum = u32::MAX - 1;
    }
    bytes[508..512].copy_from_slice(&checksum.to_le_bytes());
    bytes
}

fn open_root<R>(bytes: &[u8], f: impl FnOnce(&rosregview::hive::nt::HiveKey) -> R) -> R {
    let hive = open_hive("s.hiv", bytes).ok().expect("sample hive must parse");
    let root = root_key(&hive).ok().expect("sample hive must have root");
    f(&root)
}

fn info(path: &str) -> Command {
    Command::Info { path: path.to_string(), format: OutputFormat::Human }
}

fn find(name: &[&str], value: Option<&str>, case_sensitive: bool, max_depth: Option<usize>) -> Command {
    Command::Find {
        path: "s.hiv".to_string(),
        name: name.iter().map(|n| n.to_string()).collect(),
        value: value.map(|v| v.to_string()),
        case_sensitive,
        max_depth,
        format: OutputFormat::Human,
    }
}

#[test]
fn with_hive_succeeds_on_real_fixture() {
    let bytes = sample_hive();
    let hive = open_hive("s.hiv", &bytes).ok().expect("sample hive must parse");
    let root = root_key(&hive).ok().expect("sample hive must have root");
    let (entries, _) = collect_entries(&root).ok().expect("root entries");
    assert!(!entries.is_empty(), "expected some root subkeys");
}

#[test]
fn count_root_subkeys_matches_known_fixture() {
    let bytes = sample_hive();
    let hive = open_hive("s.hiv", &bytes).ok().expect("sample hive must parse");
    assert_eq!(count_root_subkeys(&hive).ok(), Some(5));
}

#[test]
fn info_counts_root_subkeys_and_reports_the_version() {
    let bytes = sample_hive();
    match run(&info("sample.hiv"), &bytes) {
        Ok(Report::Info(i)) => {
            assert_eq!(i.root_subkey_count, 5);
            assert_eq!(i.base.minor_version, 5);
            assert!(i.minor_version_known);
            assert_eq!(i.base.file_size_bytes, bytes.len() as u64);
            assert_eq!(i.base.path, "sample.hiv");
        }
        _ => panic!("info must succeed on the sample hive"),
    }
}

#[test]
fn info_report_renders_the_parsed_hive() {
    let bytes = sample_hive();
    let report = run(&info("s.hiv"), &bytes).ok().expect("info");
    let text = report.render_human();
    assert!(text.contains("Parsed:         OK (nt-hive 0.3, minor version 5)\n"), "got:\n{text}");
    assert!(text.contains("Root subkeys:   5\n"), "got:\n{text}");
}

#[test]
fn a_broken_checksum_is_refused() {
    let mut bytes = sample_hive();
    bytes[508] ^= 0xff;
    match run(&info("bad.hiv"), &bytes) {
        Err(e) => assert_eq!(e.message(), "`bad.hiv` is not a valid Windows registry hive"),
        Ok(_) => panic!("a hive with a wrong checksum must be refused"),
    }
}

#[test]
fn a_truncated_base_block_is_refused() {
    let bytes = sample_hive();
    match run(&info("short.hiv"), &bytes[..4095]) {
        Err(e) => assert_eq!(e.message(), "`short.hiv` is not a valid Windows registry hive"),
        Ok(_) => panic!("a truncated hive must be refused"),
    }
}

#[test]
fn tree_walks_every_key_in_preorder() {
    let bytes = sample_hive();
    let cmd = Command::Tree { path: "s.hiv".to_string(), depth: None, format: OutputFormat::Human };
    let report = run(&cmd, &bytes).ok().expect("tree");
    let text = report.render_human();
    let expected = concat_lines(&[
        "<root>",
        "  big-data-test",
        "  character-encoding-test",
        "  data-test",
        "  subkey-test",
        "  subpath-test",
        "    no-subkeys",
    ]);
    assert!(text.ends_with(&format!("\n{expected}")), "got:\n{text}");
    assert!(text.contains("Depth:    unlimited\n"));
}

fn concat_lines(lines: &[&str]) -> String {
    lines.iter().map(|l| format!("{l}\n")).collect()
}

#[test]
fn build_tree_depth_zero_has_no_children() {
    let bytes = sample_hive();
    open_root(&bytes, |root| {
        let tree = build_tree(root, "<root>", Some(0), 0).ok().expect("tree");
        assert_eq!(tree.name, "<root>");
        assert!(tree.subkeys.is_empty());
    });
}

#[test]
fn build_tree_depth_one_yields_direct_children_only() {
    let bytes = sample_hive();
    open_root(&bytes, |root| {
        let tree = build_tree(root, "<root>", Some(1), 0).ok().expect("tree");
        assert!(!tree.subkeys.is_empty());
        assert_eq!(tree.subkeys.len(), 5);
        for child in &tree.subkeys {
            assert!(child.subkeys.is_empty());
        }
    });
}

#[test]
fn collect_entries_at_root_yields_five_for_testhive() {
    let bytes = sample_hive();
    open_root(&bytes, |root| {
        let (entries, _) = collect_entries(root).ok().expect("root entries");
        assert_eq!(entries.len(), 5);
        for e in &entries {
            assert!(!e.name.is_empty(), "entry has empty name");
        }
        assert_eq!(entries[2].name, "data-test");
        assert_eq!((entries[2].subkey_count, entries[2].value_count), (0, 9));
        assert_eq!(entries[4].name, "subpath-test");
        assert_eq!((entries[4].subkey_count, entries[4].value_count), (1, 0));
    });
}

#[test]
fn list_at_a_key_path_lists_its_children() {
    let bytes = sample_hive();
    let cmd = Command::List {
        path: "s.hiv".to_string(),
        key_path: Some("\\SUBPATH-test\\".to_string()),
        format: OutputFormat::Human,
    };
    match run(&cmd, &bytes) {
        Ok(Report::List(l)) => {
            assert_eq!(l.at, "\\SUBPATH-test\\");
            assert_eq!(l.total_entries, 1);
            assert_eq!(l.entries[0].name, "no-subkeys");
            assert_eq!(l.entries[0].value_count, 1);
        }
        _ => panic!("list must succeed"),
    }
}

#[test]
fn list_of_a_missing_key_reports_its_segments() {
    let bytes = sample_hive();
    let cmd = Command::List {
        path: "s.hiv".to_string(),
        key_path: Some("subpath-test\\missing".to_string()),
        format: OutputFormat::Human,
    };
    match run(&cmd, &bytes) {
        Err(e) => assert_eq!(
            e.message(),
            "no such key path `subpath-test\\missing` (segments: subpath-test / missing)"
        ),
        Ok(_) => panic!("a missing key must be an error"),
    }
}

#[test]
fn collect_entries_on_nonexistent_subpath_errors_cleanly() {
    let bytes = sample_hive();
    open_root(&bytes, |root| {
        let err = match find_subpath(root, "definitely-missing") {
            Ok(_) => panic!("missing subpath must error"),
            Err(e) => e,
        };
        assert!(err.message().contains("no such key path"));
    });
}

#[test]
fn find_subpath_error_for_missing_key_mentions_segments() {
    let bytes = sample_hive();
    open_root(&bytes, |root| {
        let msg = match find_subpath(root, "definitely\\missing\\path") {
            Ok(_) => panic!("missing subpath must error"),
            Err(e) => e.message(),
        };
        assert!(msg.contains("no such key path"), "got: {msg}");
        assert!(msg.contains("definitely / missing / path"), "got: {msg}");
    });
}

#[test]
fn find_subpath_ignores_case_and_extra_backslashes() {
    let bytes = sample_hive();
    open_root(&bytes, |root| {
        let key = find_subpath(root, "SUBPATH-TEST\\\\No-Subkeys\\").ok().expect("no-subkeys");
        let entries = read_values(&key).ok().expect("values");
        assert_eq!(entries.len(), 1);
        assert_eq!(entries[0].name, "Answer");
    });
}

#[test]
fn read_values_on_data_test_returns_nine_typed_entries() {
    let bytes = sample_hive();
    open_root(&bytes, |root| {
        let target = find_subpath(root, "data-test").ok().expect("data-test");
        let entries = read_values(&target).ok().expect("values");
        assert_eq!(entries.len(), 9);
        let by_name = |n: &str| entries.iter().find(|e| e.name == n).expect("missing value");

        let sz = by_name("reg-sz");
        assert_eq!(sz.reg_type, "REG_SZ");
        assert!(matches!(&sz.data_json, DataJson::Text(t) if t == "sz-test"));
        let dw = by_name("dword");
        assert_eq!(dw.reg_type, "REG_DWORD");
        assert!(matches!(dw.data_json, DataJson::Number(42)));
        let qw = by_name("qword");
        assert_eq!(qw.reg_type, "REG_QWORD");
        assert!(matches!(qw.data_json, DataJson::Number(n) if n == u64::MAX));

        assert_eq!(by_name("reg-sz-with-terminating-nul").data_human, "sz-test");
        assert_eq!(by_name("reg-expand-sz").reg_type, "REG_EXPAND_SZ");
        assert_eq!(by_name("dword").data_human, "42 (0x0000002a)");
        assert_eq!(by_name("dword-big-endian").data_human, "704643072 (0x2a000000)");
        assert_eq!(by_name("reg-multi-sz").data_human, "multi-sz-test  |  line2");
        let big = by_name("reg-multi-sz-big");
        assert_eq!(big.data_human.chars().count(), 80);
        assert!(big.data_human.ends_with('\u{2026}'));
        assert!(matches!(&big.data_json, DataJson::Lines(ls) if ls.len() == 2));
        let bin = by_name("binary");
        assert_eq!(bin.reg_type, "REG_BINARY");
        assert_eq!(bin.data_human, "01 02 03 04 05");
        assert!(matches!(&bin.data_json, DataJson::Bytes(b) if *b == vec![1, 2, 3, 4, 5]));
    });
}

#[test]
fn read_values_promotes_empty_name_to_default_placeholder() {
    let bytes = sample_hive();
    open_root(&bytes, |root| {
        for path in ["data-test", "subkey-test"] {
            let target = find_subpath(root, path).ok().expect("key");
            let entries = read_values(&target).ok().expect("values");
            for e in &entries {
                assert!(!e.name.is_empty(), "found empty entry name");
            }
        }
        let target = find_subpath(root, "subkey-test").ok().expect("subkey-test");
        let entries = read_values(&target).ok().expect("values");
        let d = entries.iter().find(|e| e.name == "<default>").expect("missing <default>");
        assert_eq!(d.data_human, "default data");
    });
}

#[test]
fn format_value_data_handles_unknown_reg_type_as_raw_bytes() {
    let bytes = sample_hive();
    open_root(&bytes, |root| {
        let target = find_subpath(root, "subkey-test").ok().expect("subkey-test");
        let entries = read_values(&target).ok().expect("values");
        let odd = entries.iter().find(|e| e.name == "odd-type").expect("missing odd-type");
        assert_eq!(odd.reg_type, "REG_UNKNOWN");
        assert_eq!(odd.data_human, "09 08 07");
        assert!(matches!(&odd.data_json, DataJson::Bytes(b) if *b == vec![9, 8, 7]));
    });
}

#[test]
fn show_reports_the_values_of_the_key() {
    let bytes = sample_hive();
    let cmd = Command::Show {
        path: "s.hiv".to_string(),
        key_path: Some("data-test".to_string()),
        format: OutputFormat::Human,
    };
    let report = run(&cmd, &bytes).ok().expect("show");
    match &report {
        Report::Show(s) => {
            assert_eq!(s.at, "data-test");
            assert_eq!(s.total_values, 9);
        }
        _ => panic!("show must give a show report"),
    }
    let text = report.render_human();
    assert!(text.contains("Total: 9 values\n"), "got:\n{text}");
    assert!(text.contains(&format!("{:<32}  {:<24}  {}\n", "dword", "REG_DWORD", "42 (0x0000002a)")));
}

#[test]
fn find_by_value_collects_keys_and_their_values() {
    let bytes = sample_hive();
    match run(&find(&[], Some("42"), false, None), &bytes) {
        Ok(Report::Find(f)) => {
            assert_eq!(f.total_keys, 7);
            let paths: Vec<&str> = f.matches.iter().map(|m| m.key_path.as_str()).collect();
            assert_eq!(paths, vec!["data-test", "subpath-test\\no-subkeys"]);
            assert_eq!(f.matches[0].matched_values.len(), 1);
            assert_eq!(f.matches[0].matched_values[0].name, "dword");
            assert_eq!(f.matches[1].matched_values[0].preview, "the answer is 42");
            assert_eq!(f.matches[1].depth, 2);
            assert!(f.warnings.is_empty());
        }
        _ => panic!("find must succeed"),
    }
}

#[test]
fn find_without_filters_lists_every_key_within_depth() {
    let bytes = sample_hive();
    match run(&find(&[], None, false, Some(1)), &bytes) {
        Ok(Report::Find(f)) => {
            assert_eq!(f.total_keys, 6);
            let paths: Vec<&str> = f.matches.iter().map(|m| m.key_path.as_str()).collect();
            assert_eq!(
                paths,
                vec!["<root>", "big-data-test", "character-encoding-test", "data-test", "subkey-test", "subpath-test"]
            );
        }
        _ => panic!("find must succeed"),
    }
}

#[test]
fn find_by_name_is_case_sensitive_on_request() {
    let bytes = sample_hive();
    match run(&find(&["No-Subkeys"], None, false, None), &bytes) {
        Ok(Report::Find(f)) => {
            assert_eq!(f.matches.len(), 1);
            assert_eq!(f.matches[0].key_path, "subpath-test\\no-subkeys");
        }
        _ => panic!("find must succeed"),
    }
    match run(&find(&["No-Subkeys"], None, true, None), &bytes) {
        Ok(Report::Find(f)) => assert_eq!(f.matches.len(), 0),
        _ => panic!("find must succeed"),
    }
}

#[test]
fn find_report_lists_matches_indented_by_depth() {
    let bytes = sample_hive();
    let report = run(&find(&["test"], None, false, Some(1)), &bytes).ok().expect("find");
    let text = report.render_human();
    assert!(text.contains("Patterns: name~=[\"test\"]  value~=None  case_sensitive=false\n"), "got:\n{text}");
    assert!(text.contains("Scanned 6 keys, matched 5 key(s).\n"), "got:\n{text}");
    assert!(text.ends_with("\n\nbig-data-test\ncharacter-encoding-test\ndata-test\nsubkey-test\nsubpath-test\n"), "got:\n{text}");
}

#[test]
fn a_root_offset_nt_hive_asserts_on_is_caught_before_the_lookup() {
    let bytes = hive_with_root(Some(u32::MAX));
    assert!(!root_lookup_is_safe(&bytes));
    assert!(run_checked(&info("s.hiv"), &bytes).is_none());

    let good = sample_hive();
    assert!(root_lookup_is_safe(&good));
    assert!(matches!(run_checked(&info("s.hiv"), &good), Some(Ok(Report::Info(_)))));

    // Bytes that are no hive never reach the lookup.
    let junk = vec![0xffu8; 64];
    assert!(root_lookup_is_safe(&junk));
    match run_checked(&info("junk"), &junk) {
        Some(Err(e)) => assert_eq!(e.message(), "`junk` is not a valid Windows registry hive"),
        _ => panic!("junk must be refused"),
    }
}

#[test]
fn a_root_offset_outside_the_data_is_a_hive_error() {
    let bytes = hive_with_root(Some(0x10_0000));
    match run(&info("s.hiv"), &bytes) {
        Err(e) => {
            assert_eq!(e.message(), "hive has no readable root key node");
            assert!(e.cause().is_some());
        }
        Ok(_) => panic!("a root offset past the data must fail"),
    }
}

#[test]
fn a_full_base_block_without_the_signature_is_refused() {
    let mut bytes = sample_hive();
    bytes[0] = b'x';
    assert!(root_lookup_is_safe(&bytes));
    match run_checked(&info("bad.hiv"), &bytes) {
        Some(Err(e)) => assert_eq!(e.message(), "`bad.hiv` is not a valid Windows registry hive"),
        _ => panic!("a hive without the regf signature must be refused"),
    }
}

#[test]
fn find_by_value_under_the_root_is_flush_left() {
    let bytes = sample_hive();
    let report = run(&find(&[], Some("42"), false, Some(2)), &bytes).ok().expect("find");
    let text = report.render_human();
    assert!(text.contains("\ndata-test\n    \u{2022} dword: REG_DWORD = 42 (0x0000002a)\n"), "got:\n{text}");
    assert!(text.contains("\n  subpath-test\\no-subkeys\n      \u{2022} Answer: REG_SZ = the answer is 42\n"), "got:\n{text}");
}

#[test]
fn info_tells_whether_nt_hive_knows_the_minor_version() {
    let bytes = with_minor_version(sample_hive(), 7);
    match run(&info("sample.hiv"), &bytes) {
        Ok(Report::Info(i)) => {
            assert_eq!(i.base.minor_version, 7);
            assert!(!i.minor_version_known);
        }
        _ => panic!("info must succeed on a hive of a later minor version"),
    }
}

#[test]
fn the_three_spellings_of_the_root_list_the_same_children() {
    let bytes = sample_hive();
    let mut listings = Vec::new();
    for key_path in [None, Some(""), Some(".")] {
        let cmd = Command::List {
            path: "s.hiv".to_string(),
            key_path: key_path.map(|k| k.to_string()),
            format: OutputFormat::Human,
        };
        match run(&cmd, &bytes) {
            Ok(Report::List(l)) => {
                assert_eq!(l.at, "<root>");
                let rows: Vec<(String, usize, usize)> =
                    l.entries.iter().map(|e| (e.name.clone(), e.subkey_count, e.value_count)).collect();
                listings.push(rows);
            }
            _ => panic!("list must succeed"),
        }
    }
    assert_eq!(listings[0].len(), 5);
    assert_eq!(listings[0], listings[1]);
    assert_eq!(listings[0], listings[2]);
}

#[test]
fn find_by_name_ignores_ascii_case_by_default() {
    let bytes = sample_hive();
    match run(&find(&["TEST"], None, false, Some(1)), &bytes) {
        Ok(Report::Find(f)) => {
            assert_eq!(f.total_keys, 6);
            let paths: Vec<&str> = f.matches.iter().map(|m| m.key_path.as_str()).collect();
            assert_eq!(
                paths,
                vec!["big-data-test", "character-encoding-test", "data-test", "subkey-test", "subpath-test"]
            );
            assert!(f.matches.iter().all(|m| m.depth == 1 && m.matched_values.is_empty()));
        }
        _ => panic!("find must succeed"),
    }
}

#[test]
fn a_hive_older_than_nt4_is_refused() {
    let bytes = with_minor_version(sample_hive(), 2);
    match run(&info("old.hiv"), &bytes) {
        Err(e) => assert_eq!(e.message(), "`old.hiv` is not a valid Windows registry hive"),
        _ => panic!("a minor version below 3 must be refused"),
    }
}

#[test]
fn a_malformed_subkey_index_of_a_child_is_counted_as_zero_with_a_warning() {
    let mut c = Cells { data: Vec::new() };
    let plain = c.key("plain", None, None);
    // The subkey index of `broken` points at a key node, not at a list.
    let broken = c.key("broken", Some((1, plain)), None);
    let list = c.subkey_list(&[broken, plain]);
    let root = c.key("ROOT", Some(list), None);
    let bytes = assemble(c, root);
    let cmd = Command::List { path: "b.hiv".to_string(), key_path: None, format: OutputFormat::Human };
    match run(&cmd, &bytes) {
        Ok(Report::List(l)) => {
            assert_eq!(l.total_entries, 2);
            assert_eq!(l.entries[0].name, "broken");
            assert_eq!(l.entries[0].subkey_count, 0);
            assert_eq!(l.warnings.len(), 1);
            assert!(
                l.warnings[0].starts_with("rosregview: warning: malformed subkey index of `broken`, counted as 0: "),
                "got: {}",
                l.warnings[0]
            );
        }
        _ => panic!("list must succeed despite the malformed index"),
    }
}

#[test]
fn a_dword_of_the_wrong_size_is_a_decode_error() {
    let mut c = Cells { data: Vec::new() };
    let short = c.value("short", 4, &[1, 2, 3]);
    let values = c.value_list(&[short]);
    let key = c.key("k", None, Some(values));
    let list = c.subkey_list(&[key]);
    let root = c.key("ROOT", Some(list), None);
    let bytes = assemble(c, root);
    let show = Command::Show { path: "w.hiv".to_string(), key_path: Some("k".to_string()), format: OutputFormat::Human };
    match run(&show, &bytes) {
        Ok(Report::Show(s)) => {
            assert_eq!(s.entries.len(), 1);
            assert_eq!(s.entries[0].reg_type, "REG_DWORD");
            assert_eq!(s.entries[0].data_human, "<decode error>");
        }
        _ => panic!("show must succeed"),
    }
    let mut cmd = find(&[], Some("x"), false, None);
    if let Command::Find { path, .. } = &mut cmd {
        *path = "w.hiv".to_string();
    }
    match run(&cmd, &bytes) {
        Ok(Report::Find(f)) => {
            assert_eq!(f.matches.len(), 0);
            assert_eq!(
                f.warnings,
                vec!["rosregview: warning: failed to decode value `short` at `k`: \
                      The data should have a size of 4 bytes, but it has 3 bytes"
                    .to_string()]
            );
        }
        _ => panic!("find must succeed"),
    }
}

#[test]
fn the_sample_hive_can_be_walked_safely() {
    assert!(root_lookup_is_safe(&sample_hive()));
    assert!(run_checked(&info("s.hiv"), &sample_hive()).is_some());
}

#[test]
fn a_subkey_list_entry_of_all_ones_is_caught_before_nt_hive_follows_it() {
    let mut c = Cells { data: Vec::new() };
    let plain = c.key("plain", None, None);
    let list = c.subkey_list(&[plain, u32::MAX]);
    let root = c.key("ROOT", Some(list), None);
    let bytes = assemble(c, root);
    assert!(!root_lookup_is_safe(&bytes));
    assert!(run_checked(&info("x.hiv"), &bytes).is_none());
}

#[test]
fn a_value_list_entry_of_all_ones_is_caught_before_nt_hive_follows_it() {
    let mut c = Cells { data: Vec::new() };
    let answer = c.value("Answer", 1, &utf16z("42"));
    let values = c.value_list(&[answer, u32::MAX]);
    let key = c.key("k", None, Some(values));
    let list = c.subkey_list(&[key]);
    let root = c.key("ROOT", Some(list), None);
    let bytes = assemble(c, root);
    assert!(!root_lookup_is_safe(&bytes));
    let show = Command::Show { path: "v.hiv".to_string(), key_path: Some("k".to_string()), format: OutputFormat::Human };
    assert!(run_checked(&show, &bytes).is_none());
}
