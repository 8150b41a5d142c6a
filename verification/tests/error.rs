use rosregview::error::{ViewError, MAX_HIVE_SIZE};
use rosregview::hive::format::split_key_path;
use rosregview::hive::open::{check_file_size, check_read_size, open_hive};

#[test]
fn wrap_hive_error_carries_context() {
    // An `nt_hive::NtHiveError` has no public constructor, so the shape of
    // a context-wrapped error is checked on an `anyhow::Error` built the
    // same way the program builds one.
    let err = anyhow::Error::msg("synthetic").context("ctx");
    // `Display` shows only the outermost context.
    assert_eq!(err.to_string(), "ctx");
    // `Debug` shows the full chain.
    let dbg = format!("{err:?}");
    assert!(dbg.contains("ctx"), "got debug: {dbg}");
    assert!(dbg.contains("synthetic"), "got debug: {dbg}");
}

#[test]
fn wrap_hive_error_owned_preserves_context() {
    let err: anyhow::Error = anyhow::Error::msg("inner").context("a\nb".to_string());
    assert_eq!(err.to_string(), "a\nb");
    let dbg = format!("{err:?}");
    assert!(dbg.contains("inner"), "got debug: {dbg}");
}

#[test]
fn no_such_key_path_message_lists_segments() {
    let e = ViewError::NoSuchKeyPath {
        key_path: "definitely\\missing\\path".to_string(),
        segments: split_key_path("definitely\\missing\\path"),
    };
    let msg = e.message();
    assert!(msg.contains("no such key path"), "got: {msg}");
    assert!(msg.contains("definitely / missing / path"), "got: {msg}");
    assert_eq!(
        msg,
        "no such key path `definitely\\missing\\path` (segments: definitely / missing / path)"
    );
    assert!(e.cause().is_none());
}

#[test]
fn limit_messages_name_the_limits() {
    assert_eq!(
        ViewError::NestingTooDeep.message(),
        "registry key nesting exceeds the safety limit of 512 levels"
    );
    assert_eq!(
        ViewError::TooManyKeys.message(),
        "registry contains more than 1000000 keys"
    );
    assert_eq!(
        ViewError::TooManyEntries.message(),
        "registry list holds more entries than can be counted"
    );
}

#[test]
fn hive_error_message_is_its_context_and_cause_is_kept() {
    let e = ViewError::Hive { context: "malformed subkey index".to_string(), cause: "bad cell".to_string() };
    assert_eq!(e.message(), "malformed subkey index");
    assert_eq!(e.cause(), Some("bad cell".to_string()));
}

#[test]
fn split_key_path_skips_empty_components() {
    assert_eq!(split_key_path("a\\\\b\\"), vec!["a".to_string(), "b".to_string()]);
    assert_eq!(split_key_path("\\"), Vec::<String>::new());
    assert_eq!(split_key_path(""), Vec::<String>::new());
    assert_eq!(split_key_path("Software"), vec!["Software".to_string()]);
}

#[test]
fn file_size_limit_is_inclusive() {
    assert!(check_file_size("x.hiv", MAX_HIVE_SIZE).is_ok());
    assert!(check_file_size("x.hiv", 0).is_ok());
    match check_file_size("x.hiv", MAX_HIVE_SIZE + 1) {
        Err(e) => assert_eq!(
            e.message(),
            "hive file `x.hiv` is too large (1073741825 bytes; limit is 1073741824 bytes)"
        ),
        Ok(()) => panic!("oversized file must be refused"),
    }
}

#[test]
fn read_size_limit_reports_growth() {
    assert!(check_read_size("x.hiv", 4096).is_ok());
    match check_read_size("x.hiv", MAX_HIVE_SIZE + 1) {
        Err(e) => assert_eq!(e.message(), "hive file `x.hiv` grew beyond the size limit"),
        Ok(()) => panic!("grown file must be refused"),
    }
}

#[test]
fn with_hive_rejects_non_hive_bytes() {
    let bytes = b"not a hive, just plain text\n".to_vec();
    let msg = match open_hive("plain.bin", bytes.as_slice()) {
        Ok(_) => panic!("non-hive must error"),
        Err(e) => e.message(),
    };
    assert!(msg.contains("not a valid Windows registry hive"), "got: {msg}");
    assert_eq!(msg, "`plain.bin` is not a valid Windows registry hive");
}
