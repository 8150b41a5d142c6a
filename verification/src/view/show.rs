//! `show` subcommand: the values of a key, decoded by REG_* type.

use vstd::prelude::*;
use crate::error::{same_error, path_segments, string_views, wrap_hive_error, wrap_hive_error_owned, ViewError};
use crate::hive::format::{find_subpath, subpath_context};
use crate::hive::nt::{
    is_hive, hive_minor_version, key_node_values, name_to_string_lossy, value_iter_next,
    value_name, value_name_text, value_items, value_total, values_all_ok, values_left, values_result,
    key_values, hive_error_text, root_result, value_name_result, values_stop_error, HiveKey, HiveValue, ValueIter,
};
use nt_hive::NtHiveError;
use crate::hive::open::{non_hive_error, describes_file, not_a_hive_context, open_hive, refused_as_non_hive, root_lookup_safe, root_key};
use crate::output::text::{chars_of, dec, pad_right, push_decimal, push_padded_right, push_repeat, push_str, repeat_char};
use crate::output::value::{
    decodable, decoded_as, format_value_data, kind_label, kind_of, value_kind, DataJson, FormattedValue,
};
use crate::output::{escape_spec, escape_control_chars, push_escaped, truncate_chars, truncate_spec, Stats};
use crate::view::list::{at_label, is_root_path, means_root, opt_view, target_key, target_label};

verus! {

/// A single value of a key, decoded: its name (`<default>` for the unnamed
/// value), REG_* type, display text and structured form.
pub struct ValueEntry {
    pub name: String,
    pub reg_type: String,
    pub data_human: String,
    pub data_json: DataJson,
}

/// Payload for the `show` subcommand.
pub struct ShowStats {
    pub base: Stats,
    pub at: String,
    pub entries: Vec<ValueEntry>,
    pub total_values: usize,
}

/// The errors met while reading values.
pub open spec fn read_error(e: ViewError) -> bool {
    e matches ViewError::Hive { context, .. } && {
        ||| context@ == "malformed value list"@
        ||| context@ == "failed to advance value iterator"@
        ||| context@ == "failed to read value name"@
    }
}

/// `j` is the first value of `items` whose name cannot be read.
pub open spec fn first_unnamed(items: Seq<HiveValue>, j: int) -> bool {
    &&& 0 <= j < items.len()
    &&& value_name_text(items[j]) is None
    &&& forall|i: int| 0 <= i < j ==> #[trigger] value_name_text(items[i]) is Some
}

/// `e` is the error of reading the values of `target`: its value list is
/// malformed, or the name of the first value without one cannot be read,
/// or the iterator stops with an error after the values it hands out.
pub open spec fn read_error_of(e: ViewError, target: HiveKey) -> bool {
    match values_result(target) {
        None => false,
        Some(Err(ve)) => e matches ViewError::Hive { context, cause }
            && context@ == "malformed value list"@ && cause@ == hive_error_text(ve),
        Some(Ok(it)) => if exists|j: int| first_unnamed(value_items(it), j) {
            value_name_result(value_items(it)[choose|j: int| first_unnamed(value_items(it), j)]) matches Err(ne)
                && e matches ViewError::Hive { context, cause }
                && context@ == "failed to read value name"@ && cause@ == hive_error_text(ne)
        } else {
            &&& !values_all_ok(it)
            &&& e matches ViewError::Hive { context, cause }
            &&& context@ == "failed to advance value iterator"@
            &&& cause@ == hive_error_text(values_stop_error(it))
        },
    }
}

/// The first value without a readable name is unique.
proof fn lemma_first_unnamed_unique(items: Seq<HiveValue>, k: int)
    requires
        first_unnamed(items, k),
    ensures
        (choose|j: int| first_unnamed(items, j)) == k,
{
    let j = choose|j: int| first_unnamed(items, j);
    assert(first_unnamed(items, j));
    if j < k {
        assert(value_name_text(items[j]) is Some);
    } else if j > k {
        assert(value_name_text(items[k]) is Some);
    }
}

/// Reading the values of a key fails, where it fails, with one error.
pub proof fn lemma_read_error_unique(e1: ViewError, e2: ViewError, target: HiveKey)
    requires
        read_error_of(e1, target),
        read_error_of(e2, target),
    ensures
        same_error(e1, e2),
{
}

/// The marker shown for data that does not decode, in both renderings.
pub open spec fn decode_error_marker(human: Seq<char>, json: DataJson) -> bool {
    &&& human == "<decode error>"@
    &&& json matches DataJson::Text(t)
    &&& t@ == "<decode error>"@
}

/// The name shown for a value named `name`: `<default>` for the unnamed
/// value.
pub open spec fn shown_name(name: Seq<char>) -> Seq<char> {
    if name.len() == 0 { "<default>"@ } else { name }
}

/// `e` shows the value `v`: its name, the label of its type, and the
/// decoding of its data, or the decode-error marker exactly where the data
/// does not decode as its type calls for.
pub open spec fn entry_shows(e: ValueEntry, v: HiveValue) -> bool {
    &&& value_name_text(v) matches Some(n)
    &&& e.name@ == shown_name(n)
    &&& e.reg_type@ == kind_label(kind_of(v))
    &&& if decodable(v, kind_of(v)) {
        exists|fv: FormattedValue|
            fv.human@ == e.data_human@ && fv.json == e.data_json && #[trigger] decoded_as(fv, v, kind_of(v), true)
    } else {
        decode_error_marker(e.data_human@, e.data_json)
    }
}

/// Whether the values of `target` and their names can all be read.
pub open spec fn values_listable(target: HiveKey) -> bool {
    match values_result(target) {
        None => true,
        Some(Err(_)) => false,
        Some(Ok(it)) => values_all_ok(it)
            && forall|i: int| 0 <= i < value_items(it).len() ==> #[trigger] value_name_text(value_items(it)[i]) is Some,
    }
}

/// Read every value of `target`, in order, and decode its name and data
/// according to its type.  A value whose data does not decode is still
/// listed, marked as a decode error; an empty name becomes `<default>`.
pub fn read_values(target: &HiveKey) -> (r: Result<Vec<ValueEntry>, ViewError>)
    ensures
        r is Ok <==> values_listable(*target),
        r matches Ok(entries) ==> entries@.len() == key_values(*target).len()
            && forall|i: int| 0 <= i < entries@.len() ==> entry_shows(#[trigger] entries@[i], key_values(*target)[i]),
        r matches Err(e) ==> read_error(e) && read_error_of(e, *target),
{
    let mut iter = match key_node_values(target) {
        Some(Ok(iter)) => iter,
        Some(Err(e)) => return Err(wrap_hive_error_owned(e, String::from_str("malformed value list"))),
        None => return Ok(Vec::new()),
    };
    let ghost it0 = iter;
    let ghost items0 = value_items(it0);
    let mut out: Vec<ValueEntry> = Vec::new();
    loop
        invariant_except_break
            values_result(*target) == Some(Ok::<ValueIter, NtHiveError>(it0)),
            items0 == value_items(it0),
            out@.len() <= items0.len(),
            value_items(iter) == items0.skip(out@.len() as int),
            values_all_ok(iter) == values_all_ok(it0),
            forall|i: int| 0 <= i < out@.len() ==> entry_shows(#[trigger] out@[i], items0[i]),
            values_stop_error(iter) == values_stop_error(it0),
        ensures
            values_result(*target) == Some(Ok::<ValueIter, NtHiveError>(it0)),
            items0 == value_items(it0),
            out@.len() == items0.len(),
            values_all_ok(it0),
            forall|i: int| 0 <= i < out@.len() ==> entry_shows(#[trigger] out@[i], items0[i]),
        decreases values_left(iter),
    {
        proof { use_type_invariant(&iter); }
        let val = match value_iter_next(&mut iter) {
            None => break,
            Some(Err(e)) => {
                proof {
                    assert(items0.len() == out@.len());
                    assert forall|j: int| !first_unnamed(items0, j) by {
                        if 0 <= j < items0.len() {
                            assert(entry_shows(out@[j], items0[j]));
                        }
                    }
                }
                return Err(wrap_hive_error(e, "failed to advance value iterator"));
            },
            Some(Ok(val)) => val,
        };
        proof {
            assert(val == items0[out@.len() as int]);
            assert(value_items(iter) =~= items0.skip(out@.len() as int + 1));
        }
        let raw_name = match value_name(&val) {
            Ok(n) => name_to_string_lossy(&n),
            Err(e) => {
                proof {
                    let k = out@.len() as int;
                    assert(value_name_text(items0[k]) is None);
                    assert forall|i: int| 0 <= i < k implies #[trigger] value_name_text(items0[i]) is Some by {
                        assert(entry_shows(out@[i], items0[i]));
                    }
                    assert(first_unnamed(items0, k));
                    lemma_first_unnamed_unique(items0, k);
                }
                return Err(wrap_hive_error(e, "failed to read value name"));
            },
        };
        let name = if raw_name.as_str().is_empty() { String::from_str("<default>") } else { raw_name };
        proof {
            reveal_strlit("<default>");
        }
        let (kind, reg_type) = value_kind(&val);
        let (data_human, data_json) = match format_value_data(&val, kind, true) {
            Ok(fv) => {
                assert(decoded_as(fv, val, kind_of(val), true));
                (fv.human, fv.json)
            },
            Err(_) => (String::from_str("<decode error>"), DataJson::Text(String::from_str("<decode error>"))),
        };
        let entry = ValueEntry { name, reg_type, data_human, data_json };
        assert(entry_shows(entry, val));
        out.push(entry);
    }
    assert forall|i: int| 0 <= i < items0.len() implies #[trigger] value_name_text(items0[i]) is Some by {
        assert(entry_shows(out@[i], items0[i]));
    }
    Ok(out)
}

/// `e` is the error `show` reports on the file `path` with contents
/// `bytes` for `key_path`: the not-a-hive error, the error reading the
/// root key, an error following a key path (never for a spelling of the
/// root), or the error of reading the key's values.
pub open spec fn show_error(e: ViewError, path: Seq<char>, key_path: Option<Seq<char>>, bytes: Seq<u8>) -> bool {
    if !is_hive(bytes) {
        non_hive_error(e, path, bytes)
    } else {
        match root_result(bytes) {
            Err(re) => e matches ViewError::Hive { context, cause }
                && context@ == "hive has no root key node"@ && cause@ == hive_error_text(re),
            Ok(root) => if means_root(key_path) {
                read_error(e) && read_error_of(e, root)
            } else {
                ||| (e matches ViewError::Hive { context, .. } && key_path matches Some(p)
                    && context@ == subpath_context(p))
                ||| (e matches ViewError::NoSuchKeyPath { key_path: kp, segments } && key_path matches Some(p)
                    && kp@ == p && string_views(segments@) == path_segments(p))
                ||| (target_key(bytes, key_path) matches Some(t) && read_error(e) && read_error_of(e, t))
            },
        }
    }
}

/// Entry point of the `show` subcommand: the values of the key at
/// `key_path` (the root when it is absent, empty or `.`) of the hive in
/// `hive_bytes` (loaded from `path`).
pub fn run(path: &str, hive_bytes: &[u8], key_path: Option<&str>) -> (r: Result<ShowStats, ViewError>)
    requires
        root_lookup_safe(hive_bytes@),
    ensures
        !is_hive(hive_bytes@) ==> refused_as_non_hive(r, path@),
        r is Ok <==> (is_hive(hive_bytes@) && (target_key(hive_bytes@, opt_view(key_path)) matches Some(t)
            && values_listable(t))),
        r matches Ok(stats) ==> {
            &&& describes_file(stats.base, path@, hive_bytes@)
            &&& stats.at@ == at_label(opt_view(key_path))
            &&& stats.total_values == stats.entries@.len()
            &&& target_key(hive_bytes@, opt_view(key_path)) matches Some(t)
            &&& stats.entries@.len() == key_values(t).len()
            &&& forall|i: int| 0 <= i < stats.entries@.len() ==> entry_shows(#[trigger] stats.entries@[i], key_values(t)[i])
        },
        r matches Err(e) ==> show_error(e, path@, opt_view(key_path), hive_bytes@),
{
    let at = target_label(key_path);
    let hive = open_hive(path, hive_bytes)?;
    let root = root_key(&hive)?;
    let target = match key_path {
        Some(p) => if is_root_path(key_path) { root } else { find_subpath(&root, p)? },
        None => root,
    };
    let entries = read_values(&target)?;
    let base = Stats::from_hive(path, hive_bytes.len() as u64, hive_minor_version(&hive));
    let total_values = entries.len();
    Ok(ShowStats { base, at, entries, total_values })
}

/// One table row: the (escaped, cut) name in 32 columns, the type in 24,
/// then the (escaped) data.
pub open spec fn value_row(e: ValueEntry) -> Seq<char> {
    pad_right(truncate_spec(escape_spec(e.name@), 32), 32) + "  "@ + pad_right(e.reg_type@, 24) + "  "@
        + escape_spec(e.data_human@) + "\n"@
}

/// The rows of all values, in order.
pub open spec fn value_rows(es: Seq<ValueEntry>) -> Seq<char>
    decreases es.len(),
{
    if es.len() == 0 {
        Seq::empty()
    } else {
        value_rows(es.drop_last()) + value_row(es.last())
    }
}

/// The human-readable `show` report.
pub open spec fn show_report(stats: ShowStats) -> Seq<char> {
    "File:    "@ + escape_spec(stats.base.path@) + "\n"@
        + "At:      "@ + escape_spec(stats.at@) + "\n"@ + "\n"@
        + pad_right("Name"@, 32) + "  "@ + pad_right("Type"@, 24) + "  Data\n"@
        + repeat_char('\u{2500}', 86) + "\n"@
        + value_rows(stats.entries@)
        + "\n"@ + "Total: "@ + dec(stats.total_values as nat) + " values\n"@
}

/// Appends `value_row(e)`.
fn push_value_row(out: &mut String, e: &ValueEntry)
    ensures
        final(out)@ == old(out)@ + value_row(*e),
{
    let escaped = escape_control_chars(e.name.as_str());
    let escaped_chars = chars_of(escaped.as_str());
    let cut = truncate_chars(escaped_chars.as_slice(), 32);
    let cut_chars = chars_of(cut.as_str());
    push_padded_right(out, cut_chars.as_slice(), 32);
    push_str(out, "  ");
    let t = chars_of(e.reg_type.as_str());
    push_padded_right(out, t.as_slice(), 24);
    push_str(out, "  ");
    let data = chars_of(e.data_human.as_str());
    push_escaped(out, data.as_slice());
    push_str(out, "\n");
}

/// Human-readable sink: file and key, then an aligned `Name | Type | Data`
/// table and the total.
pub fn render_human(stats: &ShowStats) -> (out: String)
    ensures
        out@ == show_report(*stats),
{
    let mut out = String::new();
    push_str(&mut out, "File:    ");
    let path = chars_of(stats.base.path.as_str());
    push_escaped(&mut out, path.as_slice());
    push_str(&mut out, "\n");
    push_str(&mut out, "At:      ");
    let at = chars_of(stats.at.as_str());
    push_escaped(&mut out, at.as_slice());
    push_str(&mut out, "\n");
    push_str(&mut out, "\n");
    let name_h = chars_of("Name");
    push_padded_right(&mut out, name_h.as_slice(), 32);
    push_str(&mut out, "  ");
    let type_h = chars_of("Type");
    push_padded_right(&mut out, type_h.as_slice(), 24);
    push_str(&mut out, "  Data\n");
    push_repeat(&mut out, '\u{2500}', 86);
    push_str(&mut out, "\n");
    let ghost head = out@;
    let n = stats.entries.len();
    let mut i: usize = 0;
    while i < n
        invariant
            n == stats.entries@.len(),
            i <= n,
            out@ == head + value_rows(stats.entries@.take(i as int)),
        decreases n - i,
    {
        push_value_row(&mut out, &stats.entries[i]);
        assert(stats.entries@.take(i as int + 1).drop_last() =~= stats.entries@.take(i as int));
        i = i + 1;
    }
    assert(stats.entries@.take(n as int) =~= stats.entries@);
    push_str(&mut out, "\n");
    push_str(&mut out, "Total: ");
    push_decimal(&mut out, stats.total_values as u64);
    push_str(&mut out, " values\n");
    assert(out@ =~= show_report(*stats));
    out
}

} // verus!
