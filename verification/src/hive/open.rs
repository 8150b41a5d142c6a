//! Turning the bytes of a hive file into a parsed hive.
//!
//! The program reads the file; the library decides whether its size is
//! acceptable and hands the bytes to `nt_hive`.

use vstd::prelude::*;
use crate::error::{wrap_hive_error, wrap_hive_error_owned, ViewError, MAX_HIVE_SIZE};
use crate::hive::nt::{
    hive_error_text, hive_new, hive_new_error, hive_root_key_node, is_hive, minor_version_field, regf_signature, root_cell_offset, root_result,
    HiveFile,
    HiveKey,
};
use nt_hive::NtHiveError;
use crate::output::Stats;
use crate::hive::safety::offsets_safe;
use crate::output::text::push_str;

verus! {

/// The context given to a hive that `nt_hive` rejects.
pub open spec fn not_a_hive_context(path: Seq<char>) -> Seq<char> {
    "`"@ + path + "` is not a valid Windows registry hive"@
}

/// `nt_hive` can walk the hive in `bytes` without tripping its assertion
/// on an offset it follows: in a hive that passes validation the root cell
/// offset is not `0xFFFFFFFF` and no other followed offset is unsafe.
pub open spec fn root_lookup_safe(bytes: Seq<u8>) -> bool {
    is_hive(bytes) ==> root_cell_offset(bytes) != u32::MAX && offsets_safe(bytes)
}

/// `base` describes the hive file shown as `path` with contents `bytes`.
pub open spec fn describes_file(base: Stats, path: Seq<char>, bytes: Seq<u8>) -> bool {
    &&& base.path@ == path
    &&& base.file_size_bytes == bytes.len()
    &&& base.minor_version == minor_version_field(bytes)
}

/// Why `bytes` are no hive: a full base block without the `regf`
/// signature, or the error `nt_hive` rejects them with.
pub open spec fn non_hive_cause(bytes: Seq<u8>) -> Seq<char> {
    if bytes.len() >= 4096 && !regf_signature(bytes) {
        "the base block does not begin with the signature `regf`"@
    } else {
        hive_error_text(hive_new_error(bytes))
    }
}

/// `e` is the refusal of a file shown as `path` with contents `bytes`
/// that is no hive.
pub open spec fn non_hive_error(e: ViewError, path: Seq<char>, bytes: Seq<u8>) -> bool {
    e matches ViewError::Hive { context, cause } && context@ == not_a_hive_context(path)
        && cause@ == non_hive_cause(bytes)
}

/// `r` is the refusal of a file shown as `path` that is no hive.
pub open spec fn refused_as_non_hive<T>(r: Result<T, ViewError>, path: Seq<char>) -> bool {
    r matches Err(e) && e matches ViewError::Hive { context, .. } && context@ == not_a_hive_context(path)
}

/// Refuse implausibly large inputs before their bytes are read: the file
/// at `path` is `file_size` bytes long (as the file system reports).
pub fn check_file_size(path: &str, file_size: u64) -> (r: Result<(), ViewError>)
    ensures
        r is Ok <==> file_size <= MAX_HIVE_SIZE,
        r matches Err(e) ==> e matches ViewError::TooLarge { path: p, size } && p@ == path@ && size == file_size,
{
    if file_size > MAX_HIVE_SIZE {
        Err(ViewError::TooLarge { path: String::from_str(path), size: file_size })
    } else {
        Ok(())
    }
}

/// Refuse a file whose contents came out longer than the limit.
pub fn check_read_size(path: &str, read_len: u64) -> (r: Result<(), ViewError>)
    ensures
        r is Ok <==> read_len <= MAX_HIVE_SIZE,
        r matches Err(e) ==> e matches ViewError::GrewBeyondLimit { path: p } && p@ == path@,
{
    if read_len > MAX_HIVE_SIZE {
        Err(ViewError::GrewBeyondLimit { path: String::from_str(path) })
    } else {
        Ok(())
    }
}

/// Whether `bytes` begin with the base block signature `regf`.
pub fn has_regf_signature(bytes: &[u8]) -> (b: bool)
    ensures
        b == regf_signature(bytes@),
{
    bytes.len() >= 4 && bytes[0] == 0x72u8 && bytes[1] == 0x65u8 && bytes[2] == 0x67u8 && bytes[3] == 0x66u8
}

/// Parse the bytes of the hive file shown as `path`; a full base block
/// without the `regf` signature is refused before `nt_hive` sees it.
pub fn open_hive<'h>(path: &str, bytes: &'h [u8]) -> (r: Result<HiveFile<'h>, ViewError>)
    ensures
        r is Ok <==> is_hive(bytes@),
        r matches Ok(h) ==> h.bytes() == bytes@ && bytes@.len() >= 4096,
        r matches Err(e) ==> non_hive_error(e, path@, bytes@),
{
    if bytes.len() >= 4096 && !has_regf_signature(bytes) {
        let mut context = String::from_str("`");
        push_str(&mut context, path);
        push_str(&mut context, "` is not a valid Windows registry hive");
        let cause = String::from_str("the base block does not begin with the signature `regf`");
        proof {
            reveal_strlit("`");
            reveal_strlit("` is not a valid Windows registry hive");
        }
        return Err(ViewError::Hive { context, cause });
    }
    match hive_new(bytes) {
        Ok(hive) => Ok(hive),
        Err(e) => {
            let mut context = String::from_str("`");
            push_str(&mut context, path);
            push_str(&mut context, "` is not a valid Windows registry hive");
            proof {
                reveal_strlit("`");
                reveal_strlit("` is not a valid Windows registry hive");
            }
            Err(wrap_hive_error_owned(e, context))
        },
    }
}

/// The root key of a parsed hive: the one `nt_hive` finds, or its error
/// under the context "hive has no root key node".
pub fn root_key<'h>(hive: &'h HiveFile<'h>) -> (r: Result<HiveKey<'h>, ViewError>)
    requires
        root_cell_offset(hive.bytes()) != u32::MAX,
        offsets_safe(hive.bytes()),
    ensures
        r matches Ok(k) ==> root_result(hive.bytes()) == Ok::<HiveKey, NtHiveError>(k),
        r is Err <==> root_result(hive.bytes()) is Err,
        r matches Err(e) ==> root_result(hive.bytes()) matches Err(re) && e matches ViewError::Hive { context, cause }
            && context@ == "hive has no root key node"@ && cause@ == hive_error_text(re),
{
    match hive_root_key_node(hive) {
        Ok(root) => Ok(root),
        Err(e) => Err(wrap_hive_error(e, "hive has no root key node")),
    }
}

} // verus!
