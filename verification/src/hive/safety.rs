//! Which hives `nt_hive` can be walked over without tripping one of its
//! assertions.
//!
//! `nt_hive` turns every cell offset it follows into a cell range with
//! `Hive::cell_range_from_data_offset`, which asserts that the offset is not
//! `0xFFFFFFFF` and, in a debug build, overflows on a cell whose size field
//! is 0.  The offsets it follows lie in subkey lists (`lf`, `lh`, `li`,
//! `ri`), in value lists, in values (`vk`) that keep their data in another
//! cell, and in Big Data headers (`db`) and their segment lists.  The check
//! here looks at every place in the data area that `nt_hive` would accept as
//! such a cell, whether or not any key leads there, so it may refuse a hive
//! that `nt_hive` would have walked; it never accepts one whose followed
//! offsets trip the assertion.

use vstd::prelude::*;
use crate::hive::nt::{le_u32, root_cell_offset};

verus! {

/// The data area of a hive: the bytes after its 4096-byte base block.
pub open spec fn hive_data(bytes: Seq<u8>) -> Seq<u8> {
    bytes.subrange(4096, bytes.len() as int)
}

/// The little-endian `u16` at offset `at` of `d`.
pub open spec fn le_u16(d: Seq<u8>, at: int) -> u16 {
    (d[at] + 256 * d[at + 1]) as u16
}

/// `nt_hive` can turn the offset `x` into a cell range without an
/// assertion or overflow: `x` is not `0xFFFFFFFF`, and the size field at
/// `x`, where there is one, is not 0.
pub open spec fn followable(d: Seq<u8>, x: u32) -> bool {
    &&& x != u32::MAX
    &&& (x + 4 <= d.len() ==> le_u32(d, x as int) != 0)
}

/// The number of bytes an allocated cell at `o` spans (its size field is
/// negative).
pub open spec fn cell_span(d: Seq<u8>, o: int) -> int {
    0x1_0000_0000 - le_u32(d, o)
}

/// Offset `o` holds an allocated cell of at least 8 bytes that fits in
/// the data area (`nt_hive` also wants the size to be a multiple of 8).
pub open spec fn cell_ok(d: Seq<u8>, o: int) -> bool {
    &&& 0 <= o
    &&& o + 4 <= d.len()
    &&& le_u32(d, o) >= 0x8000_0000
    &&& cell_span(d, o) >= 8
    &&& o + cell_span(d, o) <= d.len()
}

/// The number of data bytes of the cell at `o`.
pub open spec fn cell_len(d: Seq<u8>, o: int) -> int {
    cell_span(d, o) - 4
}

/// The cell at `o` starts with the two signature bytes `a`, `b`.
pub open spec fn sig_is(d: Seq<u8>, o: int, a: u8, b: u8) -> bool {
    cell_len(d, o) >= 2 && d[o + 4] == a && d[o + 5] == b
}

/// Each of the `count` offsets that start every `stride` bytes from
/// `start` is followable.
pub open spec fn entries_ok(d: Seq<u8>, start: int, count: int, stride: int) -> bool {
    forall|i: int| 0 <= i < count ==> followable(d, #[trigger] le_u32(d, start + stride * i))
}

/// The entries of a subkey list cell at `o` that `nt_hive` follows:
/// `lf`/`lh` items of 8 bytes, `li`/`ri` items of 4, where all `count` of
/// them fit in the cell.
pub open spec fn list_cell_ok(d: Seq<u8>, o: int) -> bool {
    let stride: int = if sig_is(d, o, 0x6c, 0x66) || sig_is(d, o, 0x6c, 0x68) {
        8
    } else if sig_is(d, o, 0x6c, 0x69) || sig_is(d, o, 0x72, 0x69) {
        4
    } else {
        0
    };
    stride > 0 && cell_len(d, o) >= 4 && 4 + stride * le_u16(d, o + 6) <= cell_len(d, o)
        ==> entries_ok(d, o + 8, le_u16(d, o + 6) as int, stride)
}

/// The offsets that a key node cell (`nk`) at `o` leads `nt_hive` to: its
/// subkey list, its value list and the `count` values listed in it.
pub open spec fn key_cell_ok(d: Seq<u8>, o: int) -> bool {
    sig_is(d, o, 0x6e, 0x6b) && cell_len(d, o) >= 76 ==> {
        let sl = le_u32(d, o + 4 + 0x1c);
        let vc = le_u32(d, o + 4 + 0x24);
        let vl = le_u32(d, o + 4 + 0x28);
        &&& sl != u32::MAX ==> followable(d, sl)
        &&& vl != u32::MAX ==> followable(d, vl)
            && (cell_ok(d, vl as int) && 4 * vc <= cell_len(d, vl as int) ==> entries_ok(d, vl + 4, vc as int, 4))
    }
}

/// The offsets that a Big Data header cell (`db`) at `x` leads `nt_hive`
/// to: its segment list and the segments listed in it.
pub open spec fn big_data_ok(d: Seq<u8>, x: int) -> bool {
    cell_ok(d, x) && sig_is(d, x, 0x64, 0x62) && cell_len(d, x) >= 8 ==> {
        let n = le_u16(d, x + 6);
        let sl = le_u32(d, x + 8);
        &&& followable(d, sl)
        &&& cell_ok(d, sl as int) && 4 * n <= cell_len(d, sl as int) ==> entries_ok(d, sl + 4, n as int, 4)
    }
}

/// The offsets that a value cell (`vk`) at `o` leads `nt_hive` to: the
/// cell of its data unless the data is kept in the value itself, and for
/// data larger than one segment the Big Data structure there.
pub open spec fn value_cell_ok(d: Seq<u8>, o: int) -> bool {
    sig_is(d, o, 0x76, 0x6b) && cell_len(d, o) >= 20 ==> {
        let size = le_u32(d, o + 8);
        let at = le_u32(d, o + 12);
        size < 0x8000_0000 ==> followable(d, at) && (size > 16344 ==> big_data_ok(d, at as int))
    }
}

/// The checks for a cell at `o`.
pub open spec fn cell_checks_ok(d: Seq<u8>, o: int) -> bool {
    list_cell_ok(d, o) && key_cell_ok(d, o) && value_cell_ok(d, o)
}

/// No offset that `nt_hive` can be led to follow in the hive `bytes` trips
/// its assertion: the root cell offset and every offset in a cell of one of
/// the kinds it reads.
pub open spec fn offsets_safe(bytes: Seq<u8>) -> bool {
    bytes.len() >= 4096 ==> {
        let d = hive_data(bytes);
        &&& followable(d, root_cell_offset(bytes))
        &&& forall|o: int| 0 <= o < d.len() && #[trigger] cell_ok(d, o) ==> cell_checks_ok(d, o)
    }
}

/// The little-endian `u32` at `at` of `d`.
fn read_u32(d: &[u8], at: usize) -> (r: u32)
    requires
        at + 4 <= d@.len(),
    ensures
        r == le_u32(d@, at as int),
{
    d[at] as u32 + 256 * (d[at + 1] as u32) + 65536 * (d[at + 2] as u32) + 16777216 * (d[at + 3] as u32)
}

/// The little-endian `u16` at `at` of `d`.
fn read_u16(d: &[u8], at: usize) -> (r: u16)
    requires
        at + 2 <= d@.len(),
    ensures
        r == le_u16(d@, at as int),
{
    d[at] as u16 + 256 * (d[at + 1] as u16)
}

/// Whether `x` is followable in `d`.
fn is_followable(d: &[u8], x: u32) -> (b: bool)
    ensures
        b == followable(d@, x),
{
    if x == u32::MAX {
        return false;
    }
    let at = x as usize;
    if at <= d.len() && d.len() - at >= 4 {
        read_u32(d, at) != 0
    } else {
        true
    }
}

/// Whether an allocated cell that fits is at `o`.
fn is_cell(d: &[u8], o: usize) -> (b: bool)
    ensures
        b == cell_ok(d@, o as int),
{
    if o > d.len() || d.len() - o < 4 {
        return false;
    }
    let size = read_u32(d, o);
    if size < 0x8000_0000 {
        return false;
    }
    let span: u64 = 0x1_0000_0000u64 - size as u64;
    span >= 8 && ((d.len() - o) as u64) >= span
}

/// The data length of the cell at `o`.
fn cell_length(d: &[u8], o: usize) -> (n: usize)
    requires
        cell_ok(d@, o as int),
    ensures
        n == cell_len(d@, o as int),
{
    let size = read_u32(d, o);
    (0x1_0000_0000u64 - size as u64 - 4) as usize
}

/// Whether the cell at `o` starts with `a`, `b`.
fn has_sig(d: &[u8], o: usize, a: u8, b: u8) -> (r: bool)
    requires
        cell_ok(d@, o as int),
    ensures
        r == sig_is(d@, o as int, a, b),
{
    let n = cell_length(d, o);
    let dl = d.len();
    assert(o + n + 4 <= dl);
    n >= 2 && d[o + 4] == a && d[o + 5] == b
}

/// Whether the `count` offsets every `stride` bytes from `start` are all
/// followable.
fn check_entries(d: &[u8], start: usize, count: usize, stride: usize) -> (b: bool)
    requires
        stride == 4 || stride == 8,
        start + stride * count <= d@.len(),
    ensures
        b == entries_ok(d@, start as int, count as int, stride as int),
{
    let mut i: usize = 0;
    let mut at: usize = start;
    while i < count
        invariant
            stride == 4 || stride == 8,
            start + stride * count <= d@.len(),
            i <= count,
            at == start + stride * i,
            forall|k: int| 0 <= k < i ==> followable(d@, #[trigger] le_u32(d@, start + stride * k)),
        decreases count - i,
    {
        assert(stride * i + stride <= stride * count) by (nonlinear_arith)
            requires
                i < count,
                stride >= 0,
        ;
        assert(stride * (i + 1) == stride * i + stride) by (nonlinear_arith);
        let x = read_u32(d, at);
        if !is_followable(d, x) {
            assert(!followable(d@, le_u32(d@, start + stride * i)));
            return false;
        }
        let dl = d.len();
        assert(at + stride <= dl);
        i = i + 1;
        at = at + stride;
    }
    true
}

/// Whether the subkey list checks hold for a cell at `o`.
fn check_list_cell(d: &[u8], o: usize) -> (b: bool)
    requires
        cell_ok(d@, o as int),
    ensures
        b == list_cell_ok(d@, o as int),
{
    let stride: usize = if has_sig(d, o, 0x6c, 0x66) || has_sig(d, o, 0x6c, 0x68) {
        8
    } else if has_sig(d, o, 0x6c, 0x69) || has_sig(d, o, 0x72, 0x69) {
        4
    } else {
        0
    };
    let len = cell_length(d, o);
    let dl = d.len();
    assert(o + len + 4 <= dl);
    if stride == 0 || len < 4 {
        return true;
    }
    let count = read_u16(d, o + 6) as usize;
    if 4 + stride * count > len {
        return true;
    }
    check_entries(d, o + 8, count, stride)
}

/// Whether the key node checks hold for a cell at `o`.
fn check_key_cell(d: &[u8], o: usize) -> (b: bool)
    requires
        cell_ok(d@, o as int),
    ensures
        b == key_cell_ok(d@, o as int),
{
    let len = cell_length(d, o);
    let dl = d.len();
    assert(o + len + 4 <= dl);
    if !has_sig(d, o, 0x6e, 0x6b) || len < 76 {
        return true;
    }
    let sl = read_u32(d, o + 4 + 0x1c);
    let vc = read_u32(d, o + 4 + 0x24);
    let vl = read_u32(d, o + 4 + 0x28);
    if sl != u32::MAX && !is_followable(d, sl) {
        return false;
    }
    if vl == u32::MAX {
        return true;
    }
    if !is_followable(d, vl) {
        return false;
    }
    let at = vl as usize;
    if !is_cell(d, at) {
        return true;
    }
    let vlen = cell_length(d, at);
    if 4 * (vc as u64) > vlen as u64 {
        return true;
    }
    check_entries(d, at + 4, vc as usize, 4)
}

/// Whether the Big Data checks hold for the offset `x`.
fn check_big_data(d: &[u8], x: u32) -> (b: bool)
    ensures
        b == big_data_ok(d@, x as int),
{
    let at = x as usize;
    if !is_cell(d, at) {
        return true;
    }
    let hlen = cell_length(d, at);
    let dl = d.len();
    assert(at + hlen + 4 <= dl);
    if !has_sig(d, at, 0x64, 0x62) || hlen < 8 {
        return true;
    }
    let n = read_u16(d, at + 6);
    let sl = read_u32(d, at + 8);
    if !is_followable(d, sl) {
        return false;
    }
    let s = sl as usize;
    if !is_cell(d, s) {
        return true;
    }
    let len = cell_length(d, s);
    if 4 * (n as usize) > len {
        return true;
    }
    check_entries(d, s + 4, n as usize, 4)
}

/// Whether the value checks hold for a cell at `o`.
fn check_value_cell(d: &[u8], o: usize) -> (b: bool)
    requires
        cell_ok(d@, o as int),
    ensures
        b == value_cell_ok(d@, o as int),
{
    let len = cell_length(d, o);
    let dl = d.len();
    assert(o + len + 4 <= dl);
    if !has_sig(d, o, 0x76, 0x6b) || len < 20 {
        return true;
    }
    let size = read_u32(d, o + 8);
    let at = read_u32(d, o + 12);
    if size >= 0x8000_0000 {
        return true;
    }
    if !is_followable(d, at) {
        return false;
    }
    if size > 16344 {
        check_big_data(d, at)
    } else {
        true
    }
}

/// Whether `nt_hive` can be led over the hive `bytes` without tripping its
/// assertion on an offset it follows.
pub fn check_offsets(bytes: &[u8]) -> (b: bool)
    ensures
        b == offsets_safe(bytes@),
{
    if bytes.len() < 4096 {
        return true;
    }
    let d = vstd::slice::slice_subrange(bytes, 4096, bytes.len());
    assert(d@ == hive_data(bytes@));
    let root = read_u32(bytes, 36);
    if !is_followable(d, root) {
        return false;
    }
    let n = d.len();
    let mut o: usize = 0;
    while o < n
        invariant
            n == d@.len(),
            o <= n,
            bytes@.len() >= 4096,
            d@ == hive_data(bytes@),
            followable(d@, root_cell_offset(bytes@)),
            forall|p: int| 0 <= p < o && #[trigger] cell_ok(d@, p) ==> cell_checks_ok(d@, p),
        decreases n - o,
    {
        if is_cell(d, o) {
            if !check_list_cell(d, o) || !check_key_cell(d, o) || !check_value_cell(d, o) {
                assert(cell_ok(d@, o as int) && !cell_checks_ok(d@, o as int));
                assert(!offsets_safe(bytes@));
                return false;
            }
        }
        o = o + 1;
    }
    true
}

/// A value that keeps its data in its own data-offset field (the top bit
/// of its size field set) leads `nt_hive` nowhere: the check passes it,
/// whatever that field holds, `0xFFFFFFFF` or the offset of a zero word
/// included.
pub proof fn lemma_inline_value_data_is_not_followed(d: Seq<u8>, o: int)
    requires
        cell_ok(d, o),
        sig_is(d, o, 0x76, 0x6b),
        cell_len(d, o) >= 20,
        le_u32(d, o + 8) >= 0x8000_0000,
    ensures
        value_cell_ok(d, o),
{
}

/// A value that keeps its data in another cell is passed only where the
/// offset of that cell is one `nt_hive` can follow.
pub proof fn lemma_outside_value_data_is_followed(d: Seq<u8>, o: int)
    requires
        cell_ok(d, o),
        sig_is(d, o, 0x76, 0x6b),
        cell_len(d, o) >= 20,
        le_u32(d, o + 8) < 0x8000_0000,
        value_cell_ok(d, o),
    ensures
        le_u32(d, o + 12) != u32::MAX,
{
}

/// In a hive that passes the check, no value cell keeps its data outside
/// itself under an offset of `0xFFFFFFFF`; a value cell keeping its data
/// inside itself does not make the check fail.
pub proof fn lemma_checked_hive_values(bytes: Seq<u8>, o: int)
    requires
        bytes.len() >= 4096,
        0 <= o < hive_data(bytes).len(),
        cell_ok(hive_data(bytes), o),
        sig_is(hive_data(bytes), o, 0x76, 0x6b),
        cell_len(hive_data(bytes), o) >= 20,
    ensures
        offsets_safe(bytes) && le_u32(hive_data(bytes), o + 8) < 0x8000_0000
            ==> le_u32(hive_data(bytes), o + 12) != u32::MAX,
        le_u32(hive_data(bytes), o + 8) >= 0x8000_0000 ==> value_cell_ok(hive_data(bytes), o),
{
}

/// A key node without a subkey list and without a value list (both
/// offsets `0xFFFFFFFF`, which `nt_hive` does not follow) passes the check.
pub proof fn lemma_key_without_lists_passes(d: Seq<u8>, o: int)
    requires
        cell_ok(d, o),
        sig_is(d, o, 0x6e, 0x6b),
        cell_len(d, o) >= 76,
        le_u32(d, o + 4 + 0x1c) == u32::MAX,
        le_u32(d, o + 4 + 0x28) == u32::MAX,
    ensures
        key_cell_ok(d, o),
{
}

/// A hive is declined only for a cell that `nt_hive` reads as a subkey
/// list, key node or value: with a followable root and no such cell in its
/// data area, it passes.
pub proof fn lemma_only_read_cells_decline(bytes: Seq<u8>)
    requires
        bytes.len() >= 4096,
        followable(hive_data(bytes), root_cell_offset(bytes)),
        forall|o: int| 0 <= o < hive_data(bytes).len() && #[trigger] cell_ok(hive_data(bytes), o) ==> {
            &&& !sig_is(hive_data(bytes), o, 0x6c, 0x66)
            &&& !sig_is(hive_data(bytes), o, 0x6c, 0x68)
            &&& !sig_is(hive_data(bytes), o, 0x6c, 0x69)
            &&& !sig_is(hive_data(bytes), o, 0x72, 0x69)
            &&& !sig_is(hive_data(bytes), o, 0x6e, 0x6b)
            &&& !sig_is(hive_data(bytes), o, 0x76, 0x6b)
        },
    ensures
        offsets_safe(bytes),
{
}

} // verus!
