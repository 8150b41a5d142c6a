//! `info` subcommand: a one-screen summary of a hive file.

use vstd::prelude::*;
use crate::error::{wrap_hive_error, wrap_hive_error_owned, ViewError};
use crate::hive::nt::{
    hive_error_text, is_hive, subkey_items, subkeys_stop_error, hive_minor_version, hive_root_key_node, minor_version_is_known, key_node_subkeys, root_cell_offset,
    root_result, subkey_iter_next, subkey_total, subkeys_all_ok, subkeys_countable, subkeys_left, subkeys_result,
    HiveFile, HiveKey, SubkeyIter,
};
use crate::hive::open::{non_hive_error, describes_file, not_a_hive_context, open_hive, refused_as_non_hive, root_lookup_safe};
use crate::output::text::{chars_of, dec, push_decimal, push_str};
use crate::output::{escape_spec, push_escaped, Stats};
use crate::hive::safety::offsets_safe;

verus! {

/// Payload for the `info` subcommand.
pub struct InfoPayload {
    pub base: Stats,
    pub root_subkey_count: usize,
    /// Whether `nt_hive`'s `HiveMinorVersion` lists the hive's minor
    /// version: 0 to 6, the releases (NT 3.1 beta to Vista) that the
    /// minor-version table of the README names.  A hive of minor version 5
    /// (XP) is known.
    pub minor_version_known: bool,
}

/// `e` is the error of counting what `iter` hands out, under `context`:
/// more than `usize::MAX` keys before any error, or else the error the
/// iterator stops with.
pub open spec fn subkey_count_error(e: ViewError, iter: SubkeyIter, context: Seq<char>) -> bool {
    if subkey_items(iter).len() > usize::MAX {
        e is TooManyEntries
    } else {
        &&& !subkeys_all_ok(iter)
        &&& e matches ViewError::Hive { context: c, cause }
        &&& c@ == context
        &&& cause@ == hive_error_text(subkeys_stop_error(iter))
    }
}

/// Count what `iter` hands out; an item that fails to load is an error with
/// `context`.
pub fn count_subkeys(iter: SubkeyIter, context: &str) -> (r: Result<usize, ViewError>)
    ensures
        r is Ok <==> subkeys_all_ok(iter) && subkeys_left(iter) <= usize::MAX,
        r matches Ok(n) ==> n == subkeys_left(iter) && n == subkey_items(iter).len(),
        r matches Err(e) ==> subkey_count_error(e, iter, context@),
{
    let mut it = iter;
    let mut count: usize = 0;
    loop
        invariant_except_break
            count + subkeys_left(it) == subkeys_left(iter),
            subkeys_all_ok(it) == subkeys_all_ok(iter),
            count <= subkey_items(iter).len(),
            subkey_items(it) == subkey_items(iter).skip(count as int),
            subkeys_stop_error(it) == subkeys_stop_error(iter),
        ensures
            count == subkeys_left(iter),
            count == subkey_items(iter).len(),
            subkeys_all_ok(iter),
        decreases subkeys_left(it),
    {
        proof { use_type_invariant(&it); }
        match subkey_iter_next(&mut it) {
            None => break,
            Some(Err(e)) => return Err(wrap_hive_error(e, context)),
            Some(Ok(_)) => {
                if count == usize::MAX {
                    return Err(ViewError::TooManyEntries);
                }
                assert(subkey_items(it) =~= subkey_items(iter).skip(count as int + 1));
                count = count + 1;
            },
        }
    }
    Ok(count)
}

/// `e` is the error of counting the root's subkeys in the hive over
/// `bytes`: the root key cannot be read, its subkey index is malformed, an
/// item of it fails to load, or there are more than `usize::MAX`.
pub open spec fn root_count_error(e: ViewError, bytes: Seq<u8>) -> bool {
    match root_result(bytes) {
        Err(re) => e matches ViewError::Hive { context, cause }
            && context@ == "hive has no readable root key node"@ && cause@ == hive_error_text(re),
        Ok(root) => match subkeys_result(root) {
            None => false,
            Some(Err(se)) => e matches ViewError::Hive { context, cause }
                && context@ == "malformed subkey index at root"@ && cause@ == hive_error_text(se),
            Some(Ok(it)) => subkey_count_error(e, it, "failed to advance root subkey iterator"@),
        },
    }
}

/// The number of direct subkeys of the root key.
pub fn count_root_subkeys(hive: &HiveFile) -> (r: Result<usize, ViewError>)
    requires
        root_cell_offset(hive.bytes()) != u32::MAX,
        offsets_safe(hive.bytes()),
    ensures
        r is Ok <==> (root_result(hive.bytes()) matches Ok(root) && subkeys_countable(root)),
        r matches Ok(n) ==> root_result(hive.bytes()) matches Ok(root) && n == subkey_total(root),
        r matches Err(e) ==> root_count_error(e, hive.bytes()),
{
    let root = match hive_root_key_node(hive) {
        Ok(root) => root,
        Err(e) => return Err(wrap_hive_error(e, "hive has no readable root key node")),
    };
    match key_node_subkeys(&root) {
        Some(Ok(iter)) => count_subkeys(iter, "failed to advance root subkey iterator"),
        Some(Err(e)) => Err(wrap_hive_error_owned(e, String::from_str("malformed subkey index at root"))),
        None => Ok(0),
    }
}

/// `e` is the error `info` reports on the file `path` with contents
/// `bytes`: the not-a-hive error, or the error of counting the root's
/// subkeys.
pub open spec fn info_error(e: ViewError, path: Seq<char>, bytes: Seq<u8>) -> bool {
    if !is_hive(bytes) {
        non_hive_error(e, path, bytes)
    } else {
        root_count_error(e, bytes)
    }
}

/// Entry point of the `info` subcommand: the file facts and the number of
/// root subkeys of the hive in `hive_bytes` (loaded from `path`).
pub fn run(path: &str, hive_bytes: &[u8]) -> (r: Result<InfoPayload, ViewError>)
    requires
        root_lookup_safe(hive_bytes@),
    ensures
        !is_hive(hive_bytes@) ==> refused_as_non_hive(r, path@),
        r is Ok <==> (is_hive(hive_bytes@) && (root_result(hive_bytes@) matches Ok(root) && subkeys_countable(root))),
        r matches Ok(info) ==> describes_file(info.base, path@, hive_bytes@)
            && (root_result(hive_bytes@) matches Ok(root) && info.root_subkey_count == subkey_total(root))
            && info.minor_version_known == (info.base.minor_version <= 6),
        r matches Err(e) ==> info_error(e, path@, hive_bytes@),
{
    let hive = open_hive(path, hive_bytes)?;
    let count = count_root_subkeys(&hive)?;
    let minor = hive_minor_version(&hive);
    let base = Stats::from_hive(path, hive_bytes.len() as u64, minor);
    let minor_version_known = minor_version_is_known(minor);
    Ok(InfoPayload { base, root_subkey_count: count, minor_version_known })
}

/// The human-readable `info` report.
pub open spec fn info_report(info: InfoPayload) -> Seq<char> {
    "File:           "@ + escape_spec(info.base.path@) + "\n"@
        + "Size:           "@ + dec(info.base.file_size_bytes as nat) + " bytes\n"@
        + "Parsed:         OK (nt-hive 0.3, minor version "@ + dec(info.base.minor_version as nat) + ")\n"@
        + "Root subkeys:   "@ + dec(info.root_subkey_count as nat) + "\n"@
}

/// Human-readable sink: path, size, parse status with the minor version,
/// and the root subkey count.
pub fn render_human(info: &InfoPayload) -> (out: String)
    ensures
        out@ == info_report(*info),
{
    let mut out = String::new();
    push_str(&mut out, "File:           ");
    let path = chars_of(info.base.path.as_str());
    push_escaped(&mut out, path.as_slice());
    push_str(&mut out, "\n");
    push_str(&mut out, "Size:           ");
    push_decimal(&mut out, info.base.file_size_bytes);
    push_str(&mut out, " bytes\n");
    push_str(&mut out, "Parsed:         OK (nt-hive 0.3, minor version ");
    push_decimal(&mut out, info.base.minor_version as u64);
    push_str(&mut out, ")\n");
    push_str(&mut out, "Root subkeys:   ");
    push_decimal(&mut out, info.root_subkey_count as u64);
    push_str(&mut out, "\n");
    assert(out@ =~= info_report(*info));
    out
}

} // verus!
