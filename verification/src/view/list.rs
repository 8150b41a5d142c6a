//! `list` subcommand: the direct subkeys of a key (default: the root),
//! with the number of subkeys and values of each.

use vstd::prelude::*;
use crate::error::{same_error, path_segments, string_views, wrap_hive_error, wrap_hive_error_owned, ViewError};
use crate::hive::format::{find_subpath, subpath_context};
use crate::hive::nt::{
    hive_error_message, hive_error_text, hive_minor_version, is_hive, values_result, key_children, key_name_text, key_node_name, key_node_subkeys,
    key_node_values, name_to_string_lossy, subkey_items, subkey_iter_next, subkey_total,
    subkeys_all_ok, subkeys_countable, subkeys_left, subkeys_result, value_iter_next, value_total,
    values_all_ok, values_countable, values_left, value_items, values_stop_error, subkeys_stop_error,
    key_name_result, root_result, subpath_result, HiveKey, SubkeyIter,
    ValueIter,
};
use nt_hive::NtHiveError;
use crate::hive::open::{non_hive_error, describes_file, not_a_hive_context, open_hive, refused_as_non_hive, root_lookup_safe, root_key};
use crate::output::text::{
    chars_of, dec, pad_left, pad_right, push_decimal, push_padded_left, push_padded_right,
    push_repeat, push_str, repeat_char, str_eq,
};
use crate::output::{escape_spec, escape_control_chars, push_escaped, truncate_chars, truncate_spec, Stats};
use crate::view::info::{count_subkeys, subkey_count_error};

verus! {

/// A single subkey entry: name, subkey count, value count.
pub struct ListEntry {
    pub name: String,
    pub subkey_count: usize,
    pub value_count: usize,
}

/// Payload for the `list` subcommand.
pub struct ListStats {
    pub base: Stats,
    /// Where in the hive the listing is from: `<root>` or the key path given.
    pub at: String,
    pub entries: Vec<ListEntry>,
    pub total_entries: usize,
    /// Children whose subkey index or value list is malformed (and so
    /// counted as 0), one line each, for standard error.
    pub warnings: Vec<String>,
}

/// The view of an optional string.
pub open spec fn opt_view(key_path: Option<&str>) -> Option<Seq<char>> {
    match key_path {
        Some(p) => Some(p@),
        None => None,
    }
}

/// A key path that means the root: none, empty, or `.`.
pub open spec fn means_root(key_path: Option<Seq<char>>) -> bool {
    match key_path {
        None => true,
        Some(p) => p.len() == 0 || p == "."@,
    }
}

/// The label of the listed key: `<root>` or the key path as given.
pub open spec fn at_label(key_path: Option<Seq<char>>) -> Seq<char> {
    match key_path {
        Some(p) => if means_root(key_path) { "<root>"@ } else { p },
        None => "<root>"@,
    }
}

/// The key a listing of `key_path` looks at in the hive over `bytes`: the
/// root, or the key `nt_hive` finds at `key_path` below it.
pub open spec fn target_key(bytes: Seq<u8>, key_path: Option<Seq<char>>) -> Option<HiveKey<'static>> {
    match root_result(bytes) {
        Ok(root) => if means_root(key_path) {
            Some(root)
        } else {
            match subpath_result(root, key_path->0) {
                Some(Ok(k)) => Some(k),
                _ => None,
            }
        },
        Err(_) => None,
    }
}

/// Whether `key_path` means the root.
pub fn is_root_path(key_path: Option<&str>) -> (b: bool)
    ensures
        b == means_root(opt_view(key_path)),
{
    match key_path {
        None => true,
        Some(p) => p.is_empty() || str_eq(p, "."),
    }
}

/// The label of the listed key.
pub fn target_label(key_path: Option<&str>) -> (s: String)
    ensures
        s@ == at_label(opt_view(key_path)),
{
    match key_path {
        Some(p) => if is_root_path(key_path) { String::from_str("<root>") } else { String::from_str(p) },
        None => String::from_str("<root>"),
    }
}

/// `e` is the error of counting what `iter` hands out, under `context`:
/// more than `usize::MAX` values before any error, or else the error the
/// iterator stops with.
pub open spec fn value_count_error(e: ViewError, iter: ValueIter, context: Seq<char>) -> bool {
    if value_items(iter).len() > usize::MAX {
        e is TooManyEntries
    } else {
        &&& !values_all_ok(iter)
        &&& e matches ViewError::Hive { context: c, cause }
        &&& c@ == context
        &&& cause@ == hive_error_text(values_stop_error(iter))
    }
}

/// Count what `iter` hands out; an item that fails to load is an error with
/// `context`.
pub fn count_values(iter: ValueIter, context: &str) -> (r: Result<usize, ViewError>)
    ensures
        r is Ok <==> values_all_ok(iter) && values_left(iter) <= usize::MAX,
        r matches Ok(n) ==> n == values_left(iter) && n == value_items(iter).len(),
        r matches Err(e) ==> value_count_error(e, iter, context@),
{
    let mut it = iter;
    let mut count: usize = 0;
    loop
        invariant_except_break
            count + values_left(it) == values_left(iter),
            values_all_ok(it) == values_all_ok(iter),
            count <= value_items(iter).len(),
            value_items(it) == value_items(iter).skip(count as int),
            values_stop_error(it) == values_stop_error(iter),
        ensures
            count == values_left(iter),
            count == value_items(iter).len(),
            values_all_ok(iter),
        decreases values_left(it),
    {
        proof { use_type_invariant(&it); }
        match value_iter_next(&mut it) {
            None => break,
            Some(Err(e)) => return Err(wrap_hive_error(e, context)),
            Some(Ok(_)) => {
                if count == usize::MAX {
                    return Err(ViewError::TooManyEntries);
                }
                assert(value_items(it) =~= value_items(iter).skip(count as int + 1));
                count = count + 1;
            },
        }
    }
    Ok(count)
}

/// The errors met while collecting entries.
pub open spec fn collect_error(e: ViewError) -> bool {
    ||| e is TooManyEntries
    ||| e matches ViewError::Hive { context, .. } && {
        ||| context@ == "malformed subkey index"@
        ||| context@ == "failed to advance subkey iterator"@
        ||| context@ == "failed to read subkey name"@
        ||| context@ == "failed to count subkeys"@
        ||| context@ == "failed to count values"@
    }
}

/// The subkey count listed for `key`: the number `nt_hive` lists, or 0
/// where its subkey index is malformed.
pub open spec fn listed_subkey_count(key: HiveKey) -> nat {
    subkey_total(key)
}

/// The value count listed for `key`: the number `nt_hive` lists, or 0
/// where its value list is malformed.
pub open spec fn listed_value_count(key: HiveKey) -> nat {
    value_total(key)
}

/// Whether the subkeys and values of a listed child `key` can be counted:
/// every item of a subkey index or value list that is there loads, and
/// there are no more than `usize::MAX` of them.  A malformed index or list
/// does not stop the listing.
pub open spec fn counts_readable(key: HiveKey) -> bool {
    &&& (subkeys_result(key) matches Some(Ok(it)) ==> subkeys_all_ok(it) && subkeys_left(it) <= usize::MAX)
    &&& (values_result(key) matches Some(Ok(it)) ==> values_all_ok(it) && values_left(it) <= usize::MAX)
}

/// A listed child whose name and counts can be read.
pub open spec fn child_listable(key: HiveKey) -> bool {
    key_name_text(key) is Some && counts_readable(key)
}

/// `e` is the error of listing the child `key` that cannot be listed: its
/// name first, then its subkey count, then its value count.
pub open spec fn child_error(e: ViewError, key: HiveKey) -> bool {
    match key_name_result(key) {
        Err(ne) => e matches ViewError::Hive { context, cause }
            && context@ == "failed to read subkey name"@ && cause@ == hive_error_text(ne),
        Ok(_) => match subkeys_result(key) {
            Some(Ok(it)) if !(subkeys_all_ok(it) && subkeys_left(it) <= usize::MAX) =>
                subkey_count_error(e, it, "failed to count subkeys"@),
            _ => match values_result(key) {
                Some(Ok(it)) => value_count_error(e, it, "failed to count values"@),
                _ => false,
            },
        },
    }
}

/// `j` is the first child of `items` that cannot be listed.
pub open spec fn first_unlistable(items: Seq<HiveKey>, j: int) -> bool {
    &&& 0 <= j < items.len()
    &&& !child_listable(items[j])
    &&& forall|i: int| 0 <= i < j ==> child_listable(#[trigger] items[i])
}

/// `e` is the error of listing the children of `target`: its subkey index
/// is malformed, or the first child that cannot be listed fails, or the
/// iterator stops with an error after the children it hands out.
pub open spec fn collect_error_of(e: ViewError, target: HiveKey) -> bool {
    match subkeys_result(target) {
        None => false,
        Some(Err(se)) => e matches ViewError::Hive { context, cause }
            && context@ == "malformed subkey index"@ && cause@ == hive_error_text(se),
        Some(Ok(it)) => if exists|j: int| first_unlistable(subkey_items(it), j) {
            child_error(e, subkey_items(it)[choose|j: int| first_unlistable(subkey_items(it), j)])
        } else {
            &&& !subkeys_all_ok(it)
            &&& e matches ViewError::Hive { context, cause }
            &&& context@ == "failed to advance subkey iterator"@
            &&& cause@ == hive_error_text(subkeys_stop_error(it))
        },
    }
}

/// The warning for a listed child named `name` whose subkey index is
/// malformed (`e`).
pub open spec fn subkey_index_warning(name: Seq<char>, e: NtHiveError) -> Seq<char> {
    "rosregview: warning: malformed subkey index of `"@ + name + "`, counted as 0: "@ + hive_error_text(e)
}

/// The warning for a listed child named `name` whose value list is
/// malformed (`e`).
pub open spec fn value_list_warning(name: Seq<char>, e: NtHiveError) -> Seq<char> {
    "rosregview: warning: malformed value list of `"@ + name + "`, counted as 0: "@ + hive_error_text(e)
}

/// The warnings of listing `key`: one for a malformed subkey index, then
/// one for a malformed value list.
pub open spec fn child_warnings(key: HiveKey) -> Seq<Seq<char>> {
    let name = key_name_text(key)->0;
    (match subkeys_result(key) {
        Some(Err(e)) => seq![subkey_index_warning(name, e)],
        _ => Seq::empty(),
    }) + (match values_result(key) {
        Some(Err(e)) => seq![value_list_warning(name, e)],
        _ => Seq::empty(),
    })
}

/// The warnings of listing `children`, in order.
pub open spec fn listing_warnings(children: Seq<HiveKey>) -> Seq<Seq<char>>
    decreases children.len(),
{
    if children.len() == 0 {
        Seq::empty()
    } else {
        listing_warnings(children.drop_last()) + child_warnings(children.last())
    }
}

/// The texts of `ws`.
pub open spec fn texts(ws: Seq<String>) -> Seq<Seq<char>> {
    ws.map_values(|w: String| w@)
}

/// `e` is the listing of the key `k`: its decoded name and counts.
pub open spec fn entry_of(e: ListEntry, k: HiveKey) -> bool {
    &&& key_name_text(k) == Some(e.name@)
    &&& e.subkey_count == listed_subkey_count(k)
    &&& e.value_count == listed_value_count(k)
}

/// Whether the subkeys of `target`, their names and their counts can all
/// be read.
pub open spec fn children_listable(target: HiveKey) -> bool {
    match subkeys_result(target) {
        None => true,
        Some(Err(_)) => false,
        Some(Ok(it)) => subkeys_all_ok(it)
            && forall|i: int| 0 <= i < subkey_items(it).len() ==> {
                &&& #[trigger] key_name_text(subkey_items(it)[i]) is Some
                &&& counts_readable(subkey_items(it)[i])
            },
    }
}

/// The first child that cannot be listed is unique.
proof fn lemma_first_unlistable_unique(items: Seq<HiveKey>, k: int)
    requires
        first_unlistable(items, k),
    ensures
        (choose|j: int| first_unlistable(items, j)) == k,
{
    let j = choose|j: int| first_unlistable(items, j);
    assert(first_unlistable(items, j));
    if j < k {
        assert(child_listable(items[j]));
    } else if j > k {
        assert(child_listable(items[k]));
    }
}

/// Collect the direct children of `target`, in order, with their names and
/// subkey and value counts.  The counts are best effort: a child whose
/// subkey index or value list is malformed shows 0 for it, and a warning
/// says so.
pub fn collect_entries(target: &HiveKey) -> (r: Result<(Vec<ListEntry>, Vec<String>), ViewError>)
    ensures
        r is Ok <==> children_listable(*target),
        r matches Ok((entries, warnings)) ==> entries@.len() == key_children(*target).len()
            && (forall|i: int| 0 <= i < entries@.len() ==> entry_of(#[trigger] entries@[i], key_children(*target)[i]))
            && texts(warnings@) == listing_warnings(key_children(*target)),
        r matches Err(e) ==> collect_error(e) && collect_error_of(e, *target),
{
    let mut children = match key_node_subkeys(target) {
        Some(Ok(iter)) => iter,
        Some(Err(e)) => return Err(wrap_hive_error_owned(e, String::from_str("malformed subkey index"))),
        None => {
            let warnings: Vec<String> = Vec::new();
            assert(texts(warnings@) =~= Seq::<Seq<char>>::empty());
            return Ok((Vec::new(), warnings));
        },
    };
    let ghost it0 = children;
    let ghost items0 = subkey_items(it0);
    let mut out: Vec<ListEntry> = Vec::new();
    let mut warnings: Vec<String> = Vec::new();
    proof {
        assert(items0.take(0) =~= Seq::<HiveKey>::empty());
        assert(texts(warnings@) =~= Seq::<Seq<char>>::empty());
    }
    loop
        invariant_except_break
            subkeys_result(*target) == Some(Ok::<SubkeyIter, NtHiveError>(it0)),
            items0 == subkey_items(it0),
            out@.len() <= items0.len(),
            subkey_items(children) == items0.skip(out@.len() as int),
            subkeys_all_ok(children) == subkeys_all_ok(it0),
            forall|i: int| 0 <= i < out@.len() ==> entry_of(#[trigger] out@[i], items0[i]),
            forall|i: int| 0 <= i < out@.len() ==> counts_readable(#[trigger] items0[i]),
            texts(warnings@) == listing_warnings(items0.take(out@.len() as int)),
            subkeys_stop_error(children) == subkeys_stop_error(it0),
        ensures
            subkeys_result(*target) == Some(Ok::<SubkeyIter, NtHiveError>(it0)),
            items0 == subkey_items(it0),
            out@.len() == items0.len(),
            subkeys_all_ok(it0),
            forall|i: int| 0 <= i < out@.len() ==> entry_of(#[trigger] out@[i], items0[i]),
            forall|i: int| 0 <= i < out@.len() ==> counts_readable(#[trigger] items0[i]),
            texts(warnings@) == listing_warnings(items0.take(out@.len() as int)),
        decreases subkeys_left(children),
    {
        proof { use_type_invariant(&children); }
        let child = match subkey_iter_next(&mut children) {
            None => break,
            Some(Err(e)) => {
                proof {
                    assert(items0.len() == out@.len());
                    assert forall|j: int| !first_unlistable(items0, j) by {
                        if 0 <= j < items0.len() {
                            assert(entry_of(out@[j], items0[j]));
                            assert(counts_readable(items0[j]));
                        }
                    }
                }
                return Err(wrap_hive_error(e, "failed to advance subkey iterator"));
            },
            Some(Ok(child)) => child,
        };
        let ghost k = out@.len() as int;
        proof {
            assert forall|i: int| 0 <= i < k implies child_listable(#[trigger] items0[i]) by {
                assert(entry_of(out@[i], items0[i]));
                assert(counts_readable(items0[i]));
            }
        }
        proof {
            assert(child == items0[k]);
            assert(subkey_items(children) =~= items0.skip(k + 1));
            assert(items0.take(k + 1).drop_last() =~= items0.take(k));
            assert(items0.take(k + 1).last() == child);
        }
        let name = match key_node_name(&child) {
            Ok(n) => name_to_string_lossy(&n),
            Err(e) => {
                proof {
                    assert(key_name_text(items0[k]) is None);
                    assert(first_unlistable(items0, k));
                    lemma_first_unlistable_unique(items0, k);
                }
                return Err(wrap_hive_error(e, "failed to read subkey name"));
            },
        };
        let ghost before = warnings@;
        let subkey_count = match key_node_subkeys(&child) {
            Some(Ok(iter)) => match count_subkeys(iter, "failed to count subkeys") {
                Ok(n) => n,
                Err(e) => {
                    proof {
                        assert(!counts_readable(items0[k]));
                        assert(first_unlistable(items0, k));
                        lemma_first_unlistable_unique(items0, k);
                    }
                    return Err(e);
                },
            },
            Some(Err(e)) => {
                let mut w = String::from_str("rosregview: warning: malformed subkey index of `");
                push_str(&mut w, name.as_str());
                push_str(&mut w, "`, counted as 0: ");
                let msg = hive_error_message(&e);
                push_str(&mut w, msg.as_str());
                proof {
                    reveal_strlit("rosregview: warning: malformed subkey index of `");
                    reveal_strlit("`, counted as 0: ");
                    assert(w@ =~= subkey_index_warning(name@, e));
                }
                warnings.push(w);
                0
            },
            None => 0,
        };
        let ghost mid = warnings@;
        let value_count = match key_node_values(&child) {
            Some(Ok(iter)) => match count_values(iter, "failed to count values") {
                Ok(n) => n,
                Err(e) => {
                    proof {
                        assert(!counts_readable(items0[k]));
                        assert(first_unlistable(items0, k));
                        lemma_first_unlistable_unique(items0, k);
                    }
                    return Err(e);
                },
            },
            Some(Err(e)) => {
                let mut w = String::from_str("rosregview: warning: malformed value list of `");
                push_str(&mut w, name.as_str());
                push_str(&mut w, "`, counted as 0: ");
                let msg = hive_error_message(&e);
                push_str(&mut w, msg.as_str());
                proof {
                    reveal_strlit("rosregview: warning: malformed value list of `");
                    reveal_strlit("`, counted as 0: ");
                    assert(w@ =~= value_list_warning(name@, e));
                }
                warnings.push(w);
                0
            },
            None => 0,
        };
        proof {
            let cw = child_warnings(child);
            let sw: Seq<Seq<char>> = match subkeys_result(child) {
                Some(Err(e)) => seq![subkey_index_warning(name@, e)],
                _ => Seq::empty(),
            };
            let vw: Seq<Seq<char>> = match values_result(child) {
                Some(Err(e)) => seq![value_list_warning(name@, e)],
                _ => Seq::empty(),
            };
            assert(cw == sw + vw);
            assert(texts(mid) =~= texts(before) + sw);
            assert(texts(warnings@) =~= texts(mid) + vw);
            assert(texts(warnings@) =~= listing_warnings(items0.take(k)) + cw);
        }
        let entry = ListEntry { name, subkey_count, value_count };
        assert(entry_of(entry, child));
        assert(counts_readable(child));
        out.push(entry);
    }
    proof {
        assert(items0.take(out@.len() as int) =~= items0);
        assert forall|i: int| 0 <= i < items0.len() implies {
            &&& #[trigger] key_name_text(items0[i]) is Some
            &&& counts_readable(items0[i])
        } by {
            assert(entry_of(out@[i], items0[i]));
        }
    }
    Ok((out, warnings))
}

/// `e` is the error `list` reports on the file `path` with contents
/// `bytes` for `key_path`: the not-a-hive error, the error reading the
/// root key, an error following a key path (never for a spelling of the
/// root), or the error of listing the key's children.
pub open spec fn list_error(e: ViewError, path: Seq<char>, key_path: Option<Seq<char>>, bytes: Seq<u8>) -> bool {
    if !is_hive(bytes) {
        non_hive_error(e, path, bytes)
    } else {
        match root_result(bytes) {
            Err(re) => e matches ViewError::Hive { context, cause }
                && context@ == "hive has no root key node"@ && cause@ == hive_error_text(re),
            Ok(root) => if means_root(key_path) {
                collect_error(e) && collect_error_of(e, root)
            } else {
                ||| (e matches ViewError::Hive { context, .. } && key_path matches Some(p)
                    && context@ == subpath_context(p))
                ||| (e matches ViewError::NoSuchKeyPath { key_path: kp, segments } && key_path matches Some(p)
                    && kp@ == p && string_views(segments@) == path_segments(p))
                ||| (target_key(bytes, key_path) matches Some(t) && collect_error(e) && collect_error_of(e, t))
            },
        }
    }
}

/// Entry point of the `list` subcommand: the direct subkeys of the key at
/// `key_path` (the root when it is absent, empty or `.`) of the hive in
/// `hive_bytes` (loaded from `path`).
pub fn run(path: &str, hive_bytes: &[u8], key_path: Option<&str>) -> (r: Result<ListStats, ViewError>)
    requires
        root_lookup_safe(hive_bytes@),
    ensures
        !is_hive(hive_bytes@) ==> refused_as_non_hive(r, path@),
        r is Ok <==> (is_hive(hive_bytes@) && (target_key(hive_bytes@, opt_view(key_path)) matches Some(t)
            && children_listable(t))),
        r matches Ok(stats) ==> {
            &&& describes_file(stats.base, path@, hive_bytes@)
            &&& stats.at@ == at_label(opt_view(key_path))
            &&& stats.total_entries == stats.entries@.len()
            &&& target_key(hive_bytes@, opt_view(key_path)) matches Some(t)
            &&& stats.entries@.len() == key_children(t).len()
            &&& forall|i: int| 0 <= i < stats.entries@.len() ==> entry_of(#[trigger] stats.entries@[i], key_children(t)[i])
            &&& texts(stats.warnings@) == listing_warnings(key_children(t))
        },
        r matches Err(e) ==> list_error(e, path@, opt_view(key_path), hive_bytes@),
{
    let at = target_label(key_path);
    let hive = open_hive(path, hive_bytes)?;
    let root = root_key(&hive)?;
    let target = match key_path {
        Some(p) => if is_root_path(key_path) { root } else { find_subpath(&root, p)? },
        None => root,
    };
    let (entries, warnings) = collect_entries(&target)?;
    let base = Stats::from_hive(path, hive_bytes.len() as u64, hive_minor_version(&hive));
    let total_entries = entries.len();
    Ok(ListStats { base, at, entries, total_entries, warnings })
}

/// One table row: the (escaped, cut) name left-aligned in 40 columns, the
/// counts right-aligned in 8.
pub open spec fn entry_row(e: ListEntry) -> Seq<char> {
    pad_right(truncate_spec(escape_spec(e.name@), 40), 40) + "  "@ + pad_left(dec(e.subkey_count as nat), 8)
        + "  "@ + pad_left(dec(e.value_count as nat), 8) + "\n"@
}

/// The rows of all entries, in order.
pub open spec fn entry_rows(es: Seq<ListEntry>) -> Seq<char>
    decreases es.len(),
{
    if es.len() == 0 {
        Seq::empty()
    } else {
        entry_rows(es.drop_last()) + entry_row(es.last())
    }
}

/// The human-readable `list` report.
pub open spec fn list_report(stats: ListStats) -> Seq<char> {
    "File:    "@ + escape_spec(stats.base.path@) + "\n"@
        + "At:      "@ + escape_spec(stats.at@) + "\n"@ + "\n"@
        + pad_right("Name"@, 40) + "  "@ + pad_left("Subkeys"@, 8) + "  "@ + pad_left("Values"@, 8) + "\n"@
        + repeat_char('\u{2500}', 60) + "\n"@
        + entry_rows(stats.entries@)
        + "\n"@ + "Total: "@ + dec(stats.total_entries as nat) + " values\n"@
}

/// Appends `entry_row(e)`.
fn push_entry_row(out: &mut String, e: &ListEntry)
    ensures
        final(out)@ == old(out)@ + entry_row(*e),
{
    let escaped = escape_control_chars(e.name.as_str());
    let escaped_chars = chars_of(escaped.as_str());
    let cut = truncate_chars(escaped_chars.as_slice(), 40);
    let cut_chars = chars_of(cut.as_str());
    push_padded_right(out, cut_chars.as_slice(), 40);
    push_str(out, "  ");
    let sub = chars_of(decimal_of(e.subkey_count).as_str());
    push_padded_left(out, sub.as_slice(), 8);
    push_str(out, "  ");
    let val = chars_of(decimal_of(e.value_count).as_str());
    push_padded_left(out, val.as_slice(), 8);
    push_str(out, "\n");
}

/// The decimal form of `n`.
fn decimal_of(n: usize) -> (s: String)
    ensures
        s@ == dec(n as nat),
{
    let mut s = String::new();
    push_decimal(&mut s, n as u64);
    assert(Seq::<char>::empty() + dec(n as nat) =~= dec(n as nat));
    s
}

/// Human-readable sink: file and key, then an aligned table of the
/// entries and their total.
pub fn render_human(stats: &ListStats) -> (out: String)
    ensures
        out@ == list_report(*stats),
{
    let mut out = String::new();
    push_str(&mut out, "File:    ");
    let path = chars_of(stats.base.path.as_str());
    push_escaped(&mut out, path.as_slice());
    push_str(&mut out, "\n");
    push_str(&mut out, "At:      ");
    let at = chars_of(stats.at.as_str());
    push_escaped(&mut out, at.as_slice());
    push_str(&mut out, "\n");
    push_str(&mut out, "\n");
    let name_h = chars_of("Name");
    push_padded_right(&mut out, name_h.as_slice(), 40);
    push_str(&mut out, "  ");
    let sub_h = chars_of("Subkeys");
    push_padded_left(&mut out, sub_h.as_slice(), 8);
    push_str(&mut out, "  ");
    let val_h = chars_of("Values");
    push_padded_left(&mut out, val_h.as_slice(), 8);
    push_str(&mut out, "\n");
    push_repeat(&mut out, '\u{2500}', 60);
    push_str(&mut out, "\n");
    let ghost head = out@;
    let n = stats.entries.len();
    let mut i: usize = 0;
    while i < n
        invariant
            n == stats.entries@.len(),
            i <= n,
            out@ == head + entry_rows(stats.entries@.take(i as int)),
        decreases n - i,
    {
        push_entry_row(&mut out, &stats.entries[i]);
        assert(stats.entries@.take(i as int + 1).drop_last() =~= stats.entries@.take(i as int));
        i = i + 1;
    }
    assert(stats.entries@.take(n as int) =~= stats.entries@);
    push_str(&mut out, "\n");
    push_str(&mut out, "Total: ");
    push_decimal(&mut out, stats.total_entries as u64);
    push_str(&mut out, " values\n");
    assert(out@ =~= list_report(*stats));
    out
}

/// The three spellings of the root (no key path, the empty path and `.`)
/// address the same key under the same label, so listings of them hold the
/// same names and counts in the same order.
pub proof fn lemma_root_spellings_list_alike(
    bytes: Seq<u8>,
    a: Option<Seq<char>>,
    b: Option<Seq<char>>,
    ea: Seq<ListEntry>,
    eb: Seq<ListEntry>,
)
    requires
        means_root(a),
        means_root(b),
        target_key(bytes, a) matches Some(t) && ea.len() == key_children(t).len()
            && forall|i: int| 0 <= i < ea.len() ==> entry_of(#[trigger] ea[i], key_children(t)[i]),
        target_key(bytes, b) matches Some(t) && eb.len() == key_children(t).len()
            && forall|i: int| 0 <= i < eb.len() ==> entry_of(#[trigger] eb[i], key_children(t)[i]),
    ensures
        target_key(bytes, a) == target_key(bytes, b),
        at_label(a) == at_label(b),
        ea.len() == eb.len(),
        forall|i: int| 0 <= i < ea.len() ==> {
            &&& (#[trigger] ea[i]).name@ == eb[i].name@
            &&& ea[i].subkey_count == eb[i].subkey_count
            &&& ea[i].value_count == eb[i].value_count
        },
{
    assert forall|i: int| 0 <= i < ea.len() implies {
        &&& (#[trigger] ea[i]).name@ == eb[i].name@
        &&& ea[i].subkey_count == eb[i].subkey_count
        &&& ea[i].value_count == eb[i].value_count
    } by {
        assert(entry_of(ea[i], key_children(target_key(bytes, a)->0)[i]));
        assert(entry_of(eb[i], key_children(target_key(bytes, b)->0)[i]));
    }
}

/// Listing the children of a key fails, where it fails, with one error.
pub proof fn lemma_collect_error_unique(e1: ViewError, e2: ViewError, target: HiveKey)
    requires
        collect_error_of(e1, target),
        collect_error_of(e2, target),
    ensures
        same_error(e1, e2),
{
}

/// The three spellings of the root (no key path, the empty path and `.`)
/// fail, where they fail, with the same error.
pub proof fn lemma_root_spellings_fail_alike(
    bytes: Seq<u8>,
    path: Seq<char>,
    a: Option<Seq<char>>,
    b: Option<Seq<char>>,
    e1: ViewError,
    e2: ViewError,
)
    requires
        means_root(a),
        means_root(b),
        list_error(e1, path, a, bytes),
        list_error(e2, path, b, bytes),
    ensures
        same_error(e1, e2),
{
    if is_hive(bytes) {
        if let Ok(root) = root_result(bytes) {
            lemma_collect_error_unique(e1, e2, root);
        }
    }
}

/// Only a missing key path, the empty path and exactly `.` address the
/// root.  Any other key path (one starting with `.`, such as `.txt`,
/// included) addresses the key `nt_hive`'s subpath finds below the root,
/// under the path as given.
pub proof fn lemma_other_key_paths_address_subkeys(bytes: Seq<u8>, p: Seq<char>)
    requires
        p.len() > 0,
        p != "."@,
    ensures
        !means_root(Some(p)),
        at_label(Some(p)) == p,
        target_key(bytes, Some(p)) == match root_result(bytes) {
            Ok(root) => match subpath_result(root, p) {
                Some(Ok(k)) => Some(k),
                _ => None::<HiveKey<'static>>,
            },
            Err(_) => None,
        },
{
}

} // verus!
