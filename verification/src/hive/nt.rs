//! The boundary to the `nt_hive` crate: handles that carry its values and
//! one thin wrapper per method that the library calls.  Nothing here
//! decides anything; the callers in `hive`, `output::value` and `view` do.
//!
//! `nt_hive` asserts, and so panics, when an offset it follows to a cell
//! holds `0xFFFFFFFF` (and, in a debug build, overflows on a cell whose size
//! field is 0).  `hive_root_key_node` requires the hive to pass the check
//! of `hive::safety`, which rules that out for every offset `nt_hive` can
//! be led to; every key, value and iterator handle carries the bytes of its
//! hive as a ghost value and, as its type invariant, that the check holds
//! of them.  The wrappers that follow offsets (`key_node_subpath`, the
//! `next` wrappers and the value-data wrappers) require it.
//!
//! `nt_hive`'s hive, key, value and iterator types are generic over a
//! `zerocopy` byte-slice trait that Verus does not take as a bound, so each
//! one is carried in a handle of this module (at `&[u8]`) whose field
//! Verus does not see.  The iterators' handles come with a name for the
//! number of items they still hand out, which is what the loops over them
//! decrease.

use vstd::prelude::*;
use crate::hive::safety::offsets_safe;
use nt_hive::{
    BigDataSlices, Hive, KeyNode, KeyValue, KeyValueData, KeyValues, NtHiveError,
    NtHiveNameString, RegMultiSZStrings, SubKeyNodes,
};

verus! {

#[verifier::external_type_specification]
#[verifier::external_body]
pub struct ExNtHiveError(NtHiveError);

#[verifier::external_type_specification]
#[verifier::external_body]
pub struct ExNtHiveNameString<'h>(NtHiveNameString<'h>);

/// The `nt_hive` parse of a hive.
#[verifier::external_body]
struct ParsedHive<'h> {
    hive: Hive<&'h [u8]>,
}

/// A parsed hive, together with the bytes it was parsed from.  Only
/// `hive_new` makes one.
pub struct HiveFile<'h> {
    parsed: ParsedHive<'h>,
    bytes: Ghost<Seq<u8>>,
}

impl<'h> HiveFile<'h> {
    /// The bytes of the hive file.
    pub closed spec fn bytes(&self) -> Seq<u8> {
        self.bytes@
    }
}

/// The little-endian `u32` at offset `at` of `bytes`.
pub open spec fn le_u32(bytes: Seq<u8>, at: int) -> u32 {
    (bytes[at] + 256 * bytes[at + 1] + 65536 * bytes[at + 2] + 16777216 * bytes[at + 3]) as u32
}

/// The big-endian `u32` at offset `at` of `bytes`.
pub open spec fn be_u32(bytes: Seq<u8>, at: int) -> u32 {
    (16777216 * bytes[at] + 65536 * bytes[at + 1] + 256 * bytes[at + 2] + bytes[at + 3]) as u32
}

/// The little-endian `u64` at offset `at` of `bytes`.
pub open spec fn le_u64(bytes: Seq<u8>, at: int) -> u64 {
    (le_u32(bytes, at) + 4294967296 * le_u32(bytes, at + 4)) as u64
}

/// The root cell offset field of a hive's base block.
pub open spec fn root_cell_offset(bytes: Seq<u8>) -> u32 {
    le_u32(bytes, 36)
}

/// The minor version field of a hive's base block.
pub open spec fn minor_version_field(bytes: Seq<u8>) -> u32 {
    le_u32(bytes, 24)
}

/// The XOR of the first `n` little-endian dwords of `bytes`.
pub open spec fn xor_of_dwords(bytes: Seq<u8>, n: nat) -> u32
    decreases n,
{
    if n == 0 {
        0
    } else {
        xor_of_dwords(bytes, (n - 1) as nat) ^ le_u32(bytes, 4 * (n - 1))
    }
}

/// The base block checksum: the XOR of the 127 dwords before the checksum
/// field, with 0 taken as 1 and `0xFFFFFFFF` as `0xFFFFFFFE`.
pub open spec fn base_block_checksum(bytes: Seq<u8>) -> u32 {
    let x = xor_of_dwords(bytes, 127);
    if x == 0 {
        1
    } else if x == u32::MAX {
        (u32::MAX - 1) as u32
    } else {
        x
    }
}

/// Whether `Hive::new` accepts `bytes`: a full base block (4096 bytes) with
/// the signature `regf`, equal sequence numbers, major version 1 and minor
/// version at least 3 (NT 4.0), file type 0 (primary), file format 1
/// (memory), a data size that is a multiple of 4096 and fits in the bytes
/// after the base block, clustering factor 1, and a matching checksum.
pub open spec fn hive_accepts(bytes: Seq<u8>) -> bool {
    &&& bytes.len() >= 4096
    &&& regf_signature(bytes)
    &&& le_u32(bytes, 4) == le_u32(bytes, 8)
    &&& le_u32(bytes, 20) == 1
    &&& le_u32(bytes, 24) >= 3
    &&& le_u32(bytes, 28) == 0
    &&& le_u32(bytes, 32) == 1
    &&& le_u32(bytes, 40) % 4096 == 0
    &&& le_u32(bytes, 40) <= bytes.len() - 4096
    &&& le_u32(bytes, 44) == 1
    &&& le_u32(bytes, 508) == base_block_checksum(bytes)
}

/// The `nt_hive` handle inside a `HiveKey`.
#[verifier::external_body]
struct KeyNodeCell<'h> {
    node: KeyNode<'h, &'h [u8]>,
}

/// A key node of a hive.  It carries, as a ghost value, the bytes of the hive it reads;
/// every one that exists reads a hive whose followed offsets are safe.
pub struct HiveKey<'h> {
    cell: KeyNodeCell<'h>,
    hive: Ghost<Seq<u8>>,
}

impl<'h> HiveKey<'h> {
    /// The bytes of the hive this handle reads.
    pub closed spec fn hive_bytes(&self) -> Seq<u8> {
        self.hive@
    }

    /// `nt_hive` follows no offset that trips its assertion in the hive
    /// this handle reads.
    #[verifier::type_invariant]
    pub closed spec fn walkable(&self) -> bool {
        offsets_safe(self.hive@)
    }
}

/// The `nt_hive` handle inside a `HiveValue`.
#[verifier::external_body]
struct KeyValueCell<'h> {
    value: KeyValue<'h, &'h [u8]>,
}

/// A value of a key node.  It carries, as a ghost value, the bytes of the hive it reads;
/// every one that exists reads a hive whose followed offsets are safe.
pub struct HiveValue<'h> {
    cell: KeyValueCell<'h>,
    hive: Ghost<Seq<u8>>,
}

impl<'h> HiveValue<'h> {
    /// The bytes of the hive this handle reads.
    pub closed spec fn hive_bytes(&self) -> Seq<u8> {
        self.hive@
    }

    /// `nt_hive` follows no offset that trips its assertion in the hive
    /// this handle reads.
    #[verifier::type_invariant]
    pub closed spec fn walkable(&self) -> bool {
        offsets_safe(self.hive@)
    }
}

/// The `nt_hive` handle inside a `SubkeyIter`.
#[verifier::external_body]
struct SubkeysCell<'h> {
    iter: SubKeyNodes<'h, &'h [u8]>,
}

/// The iterator over the subkeys of a key node.  It carries, as a ghost value, the bytes of the hive it reads;
/// every one that exists reads a hive whose followed offsets are safe.
pub struct SubkeyIter<'h> {
    cell: SubkeysCell<'h>,
    hive: Ghost<Seq<u8>>,
}

impl<'h> SubkeyIter<'h> {
    /// The bytes of the hive this handle reads.
    pub closed spec fn hive_bytes(&self) -> Seq<u8> {
        self.hive@
    }

    /// `nt_hive` follows no offset that trips its assertion in the hive
    /// this handle reads.
    #[verifier::type_invariant]
    pub closed spec fn walkable(&self) -> bool {
        offsets_safe(self.hive@)
    }
}

/// The `nt_hive` handle inside a `ValueIter`.
#[verifier::external_body]
struct ValuesCell<'h> {
    iter: KeyValues<'h, &'h [u8]>,
}

/// The iterator over the values of a key node.  It carries, as a ghost value, the bytes of the hive it reads;
/// every one that exists reads a hive whose followed offsets are safe.
pub struct ValueIter<'h> {
    cell: ValuesCell<'h>,
    hive: Ghost<Seq<u8>>,
}

impl<'h> ValueIter<'h> {
    /// The bytes of the hive this handle reads.
    pub closed spec fn hive_bytes(&self) -> Seq<u8> {
        self.hive@
    }

    /// `nt_hive` follows no offset that trips its assertion in the hive
    /// this handle reads.
    #[verifier::type_invariant]
    pub closed spec fn walkable(&self) -> bool {
        offsets_safe(self.hive@)
    }
}

/// The `nt_hive` handle inside a `MultiSzIter`.
#[verifier::external_body]
struct MultiSzCell<'h> {
    iter: RegMultiSZStrings<'h, &'h [u8]>,
}

/// The iterator over the lines of a `REG_MULTI_SZ` value.  It carries, as a ghost value, the bytes of the hive it reads;
/// every one that exists reads a hive whose followed offsets are safe.
pub struct MultiSzIter<'h> {
    cell: MultiSzCell<'h>,
    hive: Ghost<Seq<u8>>,
}

impl<'h> MultiSzIter<'h> {
    /// The bytes of the hive this handle reads.
    pub closed spec fn hive_bytes(&self) -> Seq<u8> {
        self.hive@
    }

    /// `nt_hive` follows no offset that trips its assertion in the hive
    /// this handle reads.
    #[verifier::type_invariant]
    pub closed spec fn walkable(&self) -> bool {
        offsets_safe(self.hive@)
    }
}

/// The `nt_hive` handle inside a `BigDataIter`.
#[verifier::external_body]
struct BigDataCell<'h> {
    iter: BigDataSlices<'h, &'h [u8]>,
}

/// The iterator over the data segments of a value stored as Big Data.  It carries, as a ghost value, the bytes of the hive it reads;
/// every one that exists reads a hive whose followed offsets are safe.
pub struct BigDataIter<'h> {
    cell: BigDataCell<'h>,
    hive: Ghost<Seq<u8>>,
}

impl<'h> BigDataIter<'h> {
    /// The bytes of the hive this handle reads.
    pub closed spec fn hive_bytes(&self) -> Seq<u8> {
        self.hive@
    }

    /// `nt_hive` follows no offset that trips its assertion in the hive
    /// this handle reads.
    #[verifier::type_invariant]
    pub closed spec fn walkable(&self) -> bool {
        offsets_safe(self.hive@)
    }
}

/// Raw value data: one contiguous slice, or segments to be walked.
pub enum ValueBytes<'h> {
    Small(&'h [u8]),
    Big(BigDataIter<'h>),
}

/// How many more items `SubKeyNodes::next` hands out before it returns `None`.
pub uninterp spec fn subkeys_left(it: SubkeyIter) -> nat;

/// How many more items `KeyValues::next` hands out before it returns `None`.
pub uninterp spec fn values_left(it: ValueIter) -> nat;

/// How many more lines `RegMultiSZStrings::next` hands out before it returns `None`.
pub uninterp spec fn multi_sz_left(it: MultiSzIter) -> nat;

/// How many more segments `BigDataSlices::next` hands out before it returns `None`.
pub uninterp spec fn big_data_left(it: BigDataIter) -> nat;

/// Whether every item `SubKeyNodes::next` still hands out is `Ok`.
pub uninterp spec fn subkeys_all_ok(it: SubkeyIter) -> bool;

/// Whether every item `KeyValues::next` still hands out is `Ok`.
pub uninterp spec fn values_all_ok(it: ValueIter) -> bool;

/// Whether every item `RegMultiSZStrings::next` still hands out is `Ok`.
pub uninterp spec fn multi_sz_all_ok(it: MultiSzIter) -> bool;

/// Whether every item `BigDataSlices::next` still hands out is `Ok`.
pub uninterp spec fn big_data_all_ok(it: BigDataIter) -> bool;

/// The lines `RegMultiSZStrings::next` still hands out, up to its first
/// error.
pub uninterp spec fn multi_sz_lines(it: MultiSzIter) -> Seq<Seq<char>>;

/// The bytes of the segments `BigDataSlices::next` still hands out, joined,
/// up to its first error.
pub uninterp spec fn big_data_bytes(it: BigDataIter) -> Seq<u8>;

/// The keys `SubKeyNodes::next` still hands out, in order, up to its first
/// error.
pub uninterp spec fn subkey_items(it: SubkeyIter) -> Seq<HiveKey>;

/// The error `SubKeyNodes::next` hands out after `subkey_items(it)`, where
/// not every item is `Ok`.
pub uninterp spec fn subkeys_stop_error(it: SubkeyIter) -> NtHiveError;

/// The error `KeyValues::next` hands out after `value_items(it)`, where not
/// every item is `Ok`.
pub uninterp spec fn values_stop_error(it: ValueIter) -> NtHiveError;

/// The error `Hive::new` returns for `bytes`, where it rejects them.
pub uninterp spec fn hive_new_error(bytes: Seq<u8>) -> NtHiveError;

/// The values `KeyValues::next` still hands out, in order, up to its first
/// error.
pub uninterp spec fn value_items(it: ValueIter) -> Seq<HiveValue>;

/// What `KeyNode::name` returns for `key`.
pub uninterp spec fn key_name_result(key: HiveKey) -> Result<NtHiveNameString, NtHiveError>;

/// What `KeyValue::name` returns for `val`.
pub uninterp spec fn value_name_result(val: HiveValue) -> Result<NtHiveNameString, NtHiveError>;

/// What `NtHiveNameString::to_string_lossy` returns for `name`.
pub uninterp spec fn lossy_name(name: NtHiveNameString) -> Seq<char>;

/// What `KeyValue::data_type` returns for `val`, as the number of the type.
pub uninterp spec fn type_code_result(val: HiveValue) -> Result<u32, NtHiveError>;

/// What `Hive::root_key_node` returns for the hive over `bytes`.
pub uninterp spec fn root_result(bytes: Seq<u8>) -> Result<HiveKey<'static>, NtHiveError>;

/// What `KeyNode::subkeys` returns for `key`.
pub uninterp spec fn subkeys_result(key: HiveKey) -> Option<Result<SubkeyIter, NtHiveError>>;

/// What `KeyNode::values` returns for `key`.
pub uninterp spec fn values_result(key: HiveKey) -> Option<Result<ValueIter, NtHiveError>>;

/// What `KeyNode::subpath` returns for `key` and `path`.
pub uninterp spec fn subpath_result(key: HiveKey, path: Seq<char>) -> Option<Result<HiveKey, NtHiveError>>;

/// What `KeyValue::string_data` returns for `val`.
pub uninterp spec fn string_data_result(val: HiveValue) -> Result<String, NtHiveError>;


/// What `KeyValue::multi_string_data` returns for `val`.
pub uninterp spec fn multi_string_result(val: HiveValue) -> Result<MultiSzIter, NtHiveError>;

/// What `KeyValue::data` returns for `val`.
pub uninterp spec fn data_result(val: HiveValue) -> Result<ValueBytes, NtHiveError>;

/// The number `KeyValue::dword_data` reads from `val`, if it reads one:
/// the data is held in exactly 4 bytes (not as Big Data) and the type is
/// `REG_DWORD` (4, read little-endian) or `REG_DWORD_BIG_ENDIAN` (5, read
/// big-endian).
pub open spec fn dword_of(val: HiveValue) -> Option<u32> {
    match data_result(val) {
        Ok(ValueBytes::Small(d)) => if d@.len() != 4 {
            None
        } else if type_code_result(val) == Ok::<u32, NtHiveError>(4) {
            Some(le_u32(d@, 0))
        } else if type_code_result(val) == Ok::<u32, NtHiveError>(5) {
            Some(be_u32(d@, 0))
        } else {
            None
        },
        _ => None,
    }
}

/// The number `KeyValue::qword_data` reads from `val`, if it reads one:
/// the data is held in exactly 8 bytes (not as Big Data) and the type is
/// `REG_QWORD` (11), read little-endian.
pub open spec fn qword_of(val: HiveValue) -> Option<u64> {
    match data_result(val) {
        Ok(ValueBytes::Small(d)) => if d@.len() == 8 && type_code_result(val) == Ok::<u32, NtHiveError>(11) {
            Some(le_u64(d@, 0))
        } else {
            None
        },
        _ => None,
    }
}

/// The subkeys `nt_hive` lists for `key`, in order (none without a subkey
/// list; up to the first error of a failing one).
pub open spec fn key_children(key: HiveKey) -> Seq<HiveKey> {
    match subkeys_result(key) {
        Some(Ok(it)) => subkey_items(it),
        _ => Seq::empty(),
    }
}

/// The values `nt_hive` lists for `key`, in order (none without a value
/// list; up to the first error of a failing one).
pub open spec fn key_values(key: HiveKey) -> Seq<HiveValue> {
    match values_result(key) {
        Some(Ok(it)) => value_items(it),
        _ => Seq::empty(),
    }
}

/// The name of `key`, decoded, if `nt_hive` reads it.
pub open spec fn key_name_text(key: HiveKey) -> Option<Seq<char>> {
    match key_name_result(key) {
        Ok(n) => Some(lossy_name(n)),
        Err(_) => None,
    }
}

/// The name of `val`, decoded, if `nt_hive` reads it.
pub open spec fn value_name_text(val: HiveValue) -> Option<Seq<char>> {
    match value_name_result(val) {
        Ok(n) => Some(lossy_name(n)),
        Err(_) => None,
    }
}

/// Whether the subkeys `nt_hive` lists for `key` can all be read and
/// counted in a `usize`.
pub open spec fn subkeys_countable(key: HiveKey) -> bool {
    match subkeys_result(key) {
        None => true,
        Some(Ok(it)) => subkeys_all_ok(it) && subkeys_left(it) <= usize::MAX,
        Some(Err(_)) => false,
    }
}

/// Whether the values `nt_hive` lists for `key` can all be read and
/// counted in a `usize`.
pub open spec fn values_countable(key: HiveKey) -> bool {
    match values_result(key) {
        None => true,
        Some(Ok(it)) => values_all_ok(it) && values_left(it) <= usize::MAX,
        Some(Err(_)) => false,
    }
}

/// The number of subkeys `nt_hive` lists for `key` (none without a subkey
/// list).
pub open spec fn subkey_total(key: HiveKey) -> nat {
    match subkeys_result(key) {
        Some(Ok(it)) => subkeys_left(it),
        _ => 0,
    }
}

/// The number of values `nt_hive` lists for `key` (none without a value
/// list).
pub open spec fn value_total(key: HiveKey) -> nat {
    match values_result(key) {
        Some(Ok(it)) => values_left(it),
        _ => 0,
    }
}

/// `bytes` begin with the base block signature `regf`.
pub open spec fn regf_signature(bytes: Seq<u8>) -> bool {
    &&& bytes.len() >= 4
    &&& bytes[0] == 0x72u8
    &&& bytes[1] == 0x65u8
    &&& bytes[2] == 0x67u8
    &&& bytes[3] == 0x66u8
}

/// `bytes` hold a hive that `nt_hive` opens: a full base block with the
/// `regf` signature that passes validation.
pub open spec fn is_hive(bytes: Seq<u8>) -> bool {
    &&& bytes.len() >= 4096
    &&& regf_signature(bytes)
    &&& hive_accepts(bytes)
}

/// `Hive::new`: validates the base block of `bytes` and keeps them.  It
/// fails on fewer bytes than a base block (4096) and otherwise exactly when
/// validation fails; the hive it returns is a view of `bytes`.  On a full
/// base block without the `regf` signature it panics: building the error,
/// it asserts that the signature field lies after the start of the block,
/// and the signature is the block's first field.  The `requires` leaves
/// that input out.
#[verifier::external_body]
pub(crate) fn hive_new<'h>(bytes: &'h [u8]) -> (r: Result<HiveFile<'h>, NtHiveError>)
    requires
        bytes@.len() < 4096 || regf_signature(bytes@),
    ensures
        r is Ok <==> hive_accepts(bytes@),
        r matches Err(e) ==> e == hive_new_error(bytes@),
        r matches Ok(h) ==> h.bytes() == bytes@ && bytes@.len() >= 4096,
{
    Hive::new(bytes).map(|hive| HiveFile { parsed: ParsedHive { hive }, bytes: Ghost(bytes@) })
}

/// `Hive::minor_version`: the little-endian field at offset 24 of the base
/// block.
#[verifier::external_body]
pub(crate) fn hive_minor_version(hive: &HiveFile) -> (v: u32)
    ensures
        v == minor_version_field(hive.bytes()),
{
    hive.parsed.hive.minor_version()
}

/// `Hive::root_key_node`.  `nt_hive` asserts that the root cell offset is
/// not `0xFFFFFFFF` before it looks the cell up, hence the `requires`; the
/// second one makes the key it returns walkable (see the module
/// documentation).
#[verifier::external_body]
pub(crate) fn hive_root_key_node<'h>(hive: &'h HiveFile<'h>) -> (r: Result<HiveKey<'h>, NtHiveError>)
    requires
        root_cell_offset(hive.bytes()) != u32::MAX,
        offsets_safe(hive.bytes()),
    ensures
        r == root_result(hive.bytes()),
{
    hive.parsed.hive.root_key_node().map(|node| HiveKey { cell: KeyNodeCell { node }, hive: hive.bytes })
}

/// `KeyNode::name`.
#[verifier::external_body]
pub(crate) fn key_node_name<'a, 'h>(key: &'a HiveKey<'h>) -> (r: Result<NtHiveNameString<'a>, NtHiveError>)
    ensures
        r == key_name_result(*key),
{
    key.cell.node.name()
}

/// `KeyNode::subkeys`: `None` when the key has no subkey list.
#[verifier::external_body]
pub(crate) fn key_node_subkeys<'h>(key: &HiveKey<'h>) -> (r: Option<Result<SubkeyIter<'h>, NtHiveError>>)
    ensures
        r == subkeys_result(*key),
{
    key.cell.node.subkeys().map(|r| r.map(|iter| SubkeyIter { cell: SubkeysCell { iter }, hive: key.hive }))
}

/// `KeyNode::values`: `None` when the key has no value list.
#[verifier::external_body]
pub(crate) fn key_node_values<'h>(key: &HiveKey<'h>) -> (r: Option<Result<ValueIter<'h>, NtHiveError>>)
    ensures
        r == values_result(*key),
{
    key.cell.node.values().map(|r| r.map(|iter| ValueIter { cell: ValuesCell { iter }, hive: key.hive }))
}

/// `KeyNode::subpath`: `None` when some component of `path` names no subkey.
/// `nt_hive` asserts where a cell offset it follows holds `0xFFFFFFFF`;
/// the `requires` (the handle's invariant) leaves that input out.
#[verifier::external_body]
pub(crate) fn key_node_subpath<'h>(key: &HiveKey<'h>, path: &str) -> (r: Option<Result<HiveKey<'h>, NtHiveError>>)
    requires
        key.walkable(),
    ensures
        r == subpath_result(*key, path@),
{
    key.cell.node.subpath(path).map(|r| r.map(|node| HiveKey { cell: KeyNodeCell { node }, hive: key.hive }))
}

/// `Iterator::next` on `SubKeyNodes`.  Each item it hands out uses up one
/// of the finitely many it has left.
/// `nt_hive` asserts where a cell offset it follows holds `0xFFFFFFFF`;
/// the `requires` (the handle's invariant) leaves that input out.
#[verifier::external_body]
pub(crate) fn subkey_iter_next<'h>(it: &mut SubkeyIter<'h>) -> (r: Option<Result<HiveKey<'h>, NtHiveError>>)
    requires
        old(it).walkable(),
    ensures
        final(it).walkable(),
        r is Some ==> subkeys_left(*old(it)) > 0 && subkeys_left(*final(it)) == subkeys_left(*old(it)) - 1,
        r is None ==> subkeys_left(*old(it)) == 0,
        r matches Some(Ok(_)) ==> subkeys_all_ok(*final(it)) == subkeys_all_ok(*old(it)),
        r matches Some(Err(_)) ==> !subkeys_all_ok(*old(it)),
        r is None ==> subkeys_all_ok(*old(it)),
        r matches Some(Ok(k)) ==> subkey_items(*old(it)).len() > 0 && k == subkey_items(*old(it))[0]
            && subkey_items(*final(it)) == subkey_items(*old(it)).drop_first(),
        r matches Some(Ok(_)) ==> subkeys_stop_error(*final(it)) == subkeys_stop_error(*old(it)),
        r matches Some(Err(e)) ==> subkey_items(*old(it)).len() == 0 && e == subkeys_stop_error(*old(it)),
        r is None ==> subkey_items(*old(it)) == Seq::<HiveKey>::empty(),
{
    let hive = it.hive;
    it.cell.iter.next().map(|r| r.map(|node| HiveKey { cell: KeyNodeCell { node }, hive }))
}

/// `Iterator::next` on `KeyValues`.  Each item it hands out uses up one of
/// the finitely many it has left.
/// `nt_hive` asserts where a cell offset it follows holds `0xFFFFFFFF`;
/// the `requires` (the handle's invariant) leaves that input out.
#[verifier::external_body]
pub(crate) fn value_iter_next<'h>(it: &mut ValueIter<'h>) -> (r: Option<Result<HiveValue<'h>, NtHiveError>>)
    requires
        old(it).walkable(),
    ensures
        final(it).walkable(),
        r is Some ==> values_left(*old(it)) > 0 && values_left(*final(it)) == values_left(*old(it)) - 1,
        r is None ==> values_left(*old(it)) == 0,
        r matches Some(Ok(_)) ==> values_all_ok(*final(it)) == values_all_ok(*old(it)),
        r matches Some(Err(_)) ==> !values_all_ok(*old(it)),
        r is None ==> values_all_ok(*old(it)),
        r matches Some(Ok(v)) ==> value_items(*old(it)).len() > 0 && v == value_items(*old(it))[0]
            && value_items(*final(it)) == value_items(*old(it)).drop_first(),
        r matches Some(Ok(_)) ==> values_stop_error(*final(it)) == values_stop_error(*old(it)),
        r matches Some(Err(e)) ==> value_items(*old(it)).len() == 0 && e == values_stop_error(*old(it)),
        r is None ==> value_items(*old(it)) == Seq::<HiveValue>::empty(),
{
    let hive = it.hive;
    it.cell.iter.next().map(|r| r.map(|value| HiveValue { cell: KeyValueCell { value }, hive }))
}

/// `KeyValue::name`.
#[verifier::external_body]
pub(crate) fn value_name<'h>(val: &HiveValue<'h>) -> (r: Result<NtHiveNameString<'h>, NtHiveError>)
    ensures
        r == value_name_result(*val),
{
    val.cell.value.name()
}

/// `NtHiveNameString::to_string_lossy`: the name decoded from Latin1 or
/// UTF-16LE, undecodable units replaced by U+FFFD.
#[verifier::external_body]
pub(crate) fn name_to_string_lossy(name: &NtHiveNameString) -> (s: String)
    ensures
        s@ == lossy_name(*name),
{
    name.to_string_lossy()
}

/// `KeyValue::data_type`, as the number of its `KeyValueDataType`
/// (`RegNone` = 0 up to `RegQWord` = 11); unknown numbers are errors.
#[verifier::external_body]
pub(crate) fn value_data_type_code(val: &HiveValue) -> (r: Result<u32, NtHiveError>)
    ensures
        r == type_code_result(*val),
        r matches Ok(code) ==> code <= 11,
{
    val.cell.value.data_type().map(|t| t as u32)
}

/// `KeyValue::string_data`: a `REG_SZ` / `REG_EXPAND_SZ` value decoded as
/// UTF-16LE (lossy), up to its first NUL.
/// `nt_hive` asserts where a cell offset it follows holds `0xFFFFFFFF`;
/// the `requires` (the handle's invariant) leaves that input out.
#[verifier::external_body]
pub(crate) fn value_string_data(val: &HiveValue) -> (r: Result<String, NtHiveError>)
    requires
        val.walkable(),
    ensures
        r == string_data_result(*val),
{
    val.cell.value.string_data()
}

/// `KeyValue::dword_data`: the data of a `REG_DWORD` (type 4, read
/// little-endian) or `REG_DWORD_BIG_ENDIAN` (type 5, read big-endian)
/// value, held in exactly 4 bytes (not as Big Data).  On data held in one
/// slice of another length its error path asserts on the address of a
/// stack variable; the `requires` leaves that input out.
/// `nt_hive` asserts where a cell offset it follows holds `0xFFFFFFFF`;
/// the `requires` (the handle's invariant) leaves that input out.
#[verifier::external_body]
pub(crate) fn value_dword_data(val: &HiveValue) -> (r: Result<u32, NtHiveError>)
    requires
        val.walkable(),
        !(data_result(*val) matches Ok(ValueBytes::Small(d)) && d@.len() != 4),
    ensures
        r is Ok <==> dword_of(*val) is Some,
        r matches Ok(n) ==> dword_of(*val) == Some(n),
{
    val.cell.value.dword_data()
}

/// `KeyValue::qword_data`: the data of a `REG_QWORD` value (type 11), held
/// in exactly 8 bytes (not as Big Data), read little-endian.  On data held
/// in one slice of another length its error path asserts on the address of
/// a stack variable; the `requires` leaves that input out.
/// `nt_hive` asserts where a cell offset it follows holds `0xFFFFFFFF`;
/// the `requires` (the handle's invariant) leaves that input out.
#[verifier::external_body]
pub(crate) fn value_qword_data(val: &HiveValue) -> (r: Result<u64, NtHiveError>)
    requires
        val.walkable(),
        !(data_result(*val) matches Ok(ValueBytes::Small(d)) && d@.len() != 8),
    ensures
        r is Ok <==> qword_of(*val) is Some,
        r matches Ok(n) ==> qword_of(*val) == Some(n),
{
    val.cell.value.qword_data()
}

/// `KeyValue::multi_string_data`: the lines of a `REG_MULTI_SZ` value.
/// `nt_hive` asserts where a cell offset it follows holds `0xFFFFFFFF`;
/// the `requires` (the handle's invariant) leaves that input out.
#[verifier::external_body]
pub(crate) fn value_multi_string_data<'h>(val: &HiveValue<'h>) -> (r: Result<MultiSzIter<'h>, NtHiveError>)
    requires
        val.walkable(),
    ensures
        r == multi_string_result(*val),
{
    val.cell.value.multi_string_data().map(|iter| MultiSzIter { cell: MultiSzCell { iter }, hive: val.hive })
}

/// `Iterator::next` on `RegMultiSZStrings`.  Each line it hands out uses up
/// one of the finitely many it has left.
/// `nt_hive` asserts where a cell offset it follows holds `0xFFFFFFFF`;
/// the `requires` (the handle's invariant) leaves that input out.
#[verifier::external_body]
pub(crate) fn multi_sz_next<'h>(it: &mut MultiSzIter<'h>) -> (r: Option<Result<String, NtHiveError>>)
    requires
        old(it).walkable(),
    ensures
        final(it).walkable(),
        r is Some ==> multi_sz_left(*old(it)) > 0 && multi_sz_left(*final(it)) == multi_sz_left(*old(it)) - 1,
        r is None ==> multi_sz_left(*old(it)) == 0,
        r matches Some(Ok(line)) ==> multi_sz_all_ok(*final(it)) == multi_sz_all_ok(*old(it))
            && multi_sz_lines(*old(it)) == seq![line@] + multi_sz_lines(*final(it)),
        r matches Some(Err(_)) ==> !multi_sz_all_ok(*old(it)),
        r is None ==> multi_sz_all_ok(*old(it)) && multi_sz_lines(*old(it)) == Seq::<Seq<char>>::empty(),
{
    it.cell.iter.next()
}

/// `KeyValue::data`: the raw data bytes.
/// `nt_hive` asserts where a cell offset it follows holds `0xFFFFFFFF`;
/// the `requires` (the handle's invariant) leaves that input out.
#[verifier::external_body]
pub(crate) fn value_data<'h>(val: &HiveValue<'h>) -> (r: Result<ValueBytes<'h>, NtHiveError>)
    requires
        val.walkable(),
    ensures
        r == data_result(*val),
{
    match val.cell.value.data() {
        Ok(KeyValueData::Small(bytes)) => Ok(ValueBytes::Small(bytes)),
        Ok(KeyValueData::Big(iter)) => Ok(ValueBytes::Big(BigDataIter { cell: BigDataCell { iter }, hive: val.hive })),
        Err(e) => Err(e),
    }
}

/// `Iterator::next` on `BigDataSlices`.  Each segment it hands out uses up
/// one of the finitely many it has left.
/// `nt_hive` asserts where a cell offset it follows holds `0xFFFFFFFF`;
/// the `requires` (the handle's invariant) leaves that input out.
#[verifier::external_body]
pub(crate) fn big_data_next<'h>(it: &mut BigDataIter<'h>) -> (r: Option<Result<&'h [u8], NtHiveError>>)
    requires
        old(it).walkable(),
    ensures
        final(it).walkable(),
        r is Some ==> big_data_left(*old(it)) > 0 && big_data_left(*final(it)) == big_data_left(*old(it)) - 1,
        r is None ==> big_data_left(*old(it)) == 0,
        r matches Some(Ok(segment)) ==> big_data_all_ok(*final(it)) == big_data_all_ok(*old(it))
            && big_data_bytes(*old(it)) == segment@ + big_data_bytes(*final(it)),
        r matches Some(Err(_)) ==> !big_data_all_ok(*old(it)),
        r is None ==> big_data_all_ok(*old(it)) && big_data_bytes(*old(it)) == Seq::<u8>::empty(),
{
    it.cell.iter.next()
}

/// `HiveMinorVersion::n(v).is_some()`: whether `v` is one of the minor
/// versions `nt_hive` knows.  Its `HiveMinorVersion` enum has the
/// discriminants 0 (NT 3.1 beta) to 6 (Vista), and `n`, which `enumn`
/// derives, returns the variant with discriminant `v` if there is one.
#[verifier::external_body]
pub(crate) fn minor_version_is_known(v: u32) -> (b: bool)
    ensures
        b == (v <= 6),
{
    nt_hive::HiveMinorVersion::n(v).is_some()
}

/// What `NtHiveError`'s `Display` impl (derived by `thiserror` from each
/// variant's `#[error(..)]` format and its fields) prints for `e`.
pub uninterp spec fn hive_error_text(e: NtHiveError) -> Seq<char>;

/// The `Display` text of an `NtHiveError`, named `hive_error_text`.
#[verifier::external_body]
pub(crate) fn hive_error_message(e: &NtHiveError) -> (s: String)
    ensures
        s@ == hive_error_text(*e),
{
    format!("{e}")
}

} // verus!
