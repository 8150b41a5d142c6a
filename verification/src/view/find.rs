//! `find` subcommand: pattern search across the key tree.
//!
//! A key is collected iff its name passes the name filter or at least one
//! of its values passes the value filter.  With no filters every key up to
//! the depth limit is collected.

use vstd::prelude::*;
use crate::error::{wrap_hive_error, ViewError, MAX_SCANNED_KEYS, MAX_TRAVERSAL_DEPTH};
use crate::hive::nt::{
    is_hive, hive_error_message, hive_error_text, hive_minor_version, key_node_name, key_node_subkeys,
    key_node_values, name_to_string_lossy, subkey_iter_next, subkeys_left, value_iter_next,
    value_items, value_name, value_name_text, value_total, values_left, values_result, key_values,
    values_all_ok, subkeys_result, subkey_items, subkeys_all_ok, key_name_text, key_name_result,
    root_result, string_data_result, type_code_result, HiveKey, HiveValue, SubkeyIter, ValueIter,
};
use crate::view::tree::limit_reached;
use nt_hive::NtHiveError;
use crate::error::string_views;
use crate::hive::open::{non_hive_error, describes_file, not_a_hive_context, open_hive, refused_as_non_hive, root_lookup_safe, root_key};
use crate::output::text::{
    all_ascii, chars_of, contains_chars, dec, debug_quoted, join, lowercase, push_debug_quoted,
    indent, occurs_at, push_decimal, push_indent, push_str, seq_contains, str_eq, to_lowercase, trim_trailing_nul,
};
use crate::output::{escape_spec, push_escaped, Stats};
use crate::cli::ascii_lower_seq;
use crate::output::value::{
    lemma_string_types_decode_as_strings, decodable, decoded_as, decode_error_message, decode_error_text, format_value_data, DecodeError, kind_label, kind_of, searchable_as, value_kind, FormattedValue, RegType,
};
use crate::view::show::values_listable;

verus! {

/// `needle` occurs in `haystack`, comparing lowercased text unless
/// `case_sensitive`; the empty needle occurs everywhere.  On ASCII text
/// lowercasing is the ASCII mapping.
pub open spec fn fuzzy_spec(haystack: Seq<char>, needle: Seq<char>, case_sensitive: bool) -> bool {
    needle.len() == 0 || if case_sensitive {
        seq_contains(haystack, needle)
    } else if all_ascii(haystack) && all_ascii(needle) {
        seq_contains(ascii_lower_seq(haystack), ascii_lower_seq(needle))
    } else {
        seq_contains(lowercase(haystack), lowercase(needle))
    }
}

/// True iff `needle` occurs in `haystack`, with case folded by default.
pub fn fuzzy_contains(haystack: &str, needle: &str, case_sensitive: bool) -> (b: bool)
    ensures
        b == fuzzy_spec(haystack@, needle@, case_sensitive),
{
    if needle.is_empty() {
        return true;
    }
    if case_sensitive {
        let h = chars_of(haystack);
        let n = chars_of(needle);
        contains_chars(h.as_slice(), n.as_slice())
    } else {
        let lh = to_lowercase(haystack);
        let ln = to_lowercase(needle);
        let h = chars_of(lh.as_str());
        let n = chars_of(ln.as_str());
        contains_chars(h.as_slice(), n.as_slice())
    }
}

/// Find-command filter state.
///
/// `name` is a list of substring patterns (any-of); `value` is at most one
/// substring pattern matched against a value's name and its decoded text.
pub struct FindPatterns {
    pub name: Vec<String>,
    pub value: Option<String>,
    pub case_sensitive: bool,
}

impl FindPatterns {
    /// The name filter passes `haystack`: with no name patterns it passes
    /// exactly when there is no value pattern either.
    pub open spec fn name_passes(&self, haystack: Seq<char>) -> bool {
        if self.name@.len() == 0 {
            self.value is None
        } else {
            exists|i: int| 0 <= i < self.name@.len() && fuzzy_spec(haystack, #[trigger] self.name@[i]@, self.case_sensitive)
        }
    }

    /// The value filter passes `haystack`: never without a value pattern.
    pub open spec fn value_passes(&self, haystack: Seq<char>) -> bool {
        match self.value {
            Some(p) => fuzzy_spec(haystack, p@, self.case_sensitive),
            None => false,
        }
    }

    /// Whether a key name passes the name filter.
    pub fn matches_name(&self, haystack: &str) -> (b: bool)
        ensures
            b == self.name_passes(haystack@),
    {
        if self.name.len() == 0 {
            return self.value.is_none();
        }
        let n = self.name.len();
        let mut i: usize = 0;
        while i < n
            invariant
                n == self.name@.len(),
                n > 0,
                i <= n,
                forall|k: int| 0 <= k < i ==> !fuzzy_spec(haystack@, #[trigger] self.name@[k]@, self.case_sensitive),
            decreases n - i,
        {
            if fuzzy_contains(haystack, self.name[i].as_str(), self.case_sensitive) {
                return true;
            }
            i = i + 1;
        }
        false
    }

    /// Whether a value's name or decoded text passes the value filter.
    pub fn matches_value(&self, haystack: &str) -> (b: bool)
        ensures
            b == self.value_passes(haystack@),
    {
        match &self.value {
            Some(p) => fuzzy_contains(haystack, p.as_str(), self.case_sensitive),
            None => false,
        }
    }
}

impl Default for FindPatterns {
    /// No name patterns, no value pattern, case-insensitive.
    fn default() -> (p: Self)
        ensures
            p.name@.len() == 0,
            p.value is None,
            !p.case_sensitive,
    {
        FindPatterns { name: Vec::new(), value: None, case_sensitive: false }
    }
}

/// A value of a scanned key, decoded: its name, REG_* type, display text
/// and search text.
pub struct ScannedValue {
    pub name: String,
    pub reg_type: String,
    pub preview: String,
    pub search: String,
}

/// A key as the walk saw it: its path label, the name the name filter is
/// applied to, its depth, and its decodable values (read only when there is
/// a value pattern).
pub struct ScannedKey {
    pub path: String,
    pub display_name: String,
    pub depth: usize,
    pub values: Vec<ScannedValue>,
}

/// A value that took part in a match.
pub struct ValueMatchHint {
    pub name: String,
    pub reg_type: String,
    pub preview: String,
}

/// A collected key: its path, depth and the values that passed the value
/// filter.
pub struct KeyMatch {
    pub key_path: String,
    pub depth: usize,
    pub matched_values: Vec<ValueMatchHint>,
}

/// A value passes when its name or its decoded text passes the value filter.
pub open spec fn value_passes_filter(p: FindPatterns, v: ScannedValue) -> bool {
    p.value_passes(v.name@) || p.value_passes(v.search@)
}

/// The hint recorded for a passing value.
pub open spec fn hint_of(v: ScannedValue) -> ValueMatchHint {
    ValueMatchHint { name: v.name, reg_type: v.reg_type, preview: v.preview }
}

/// The hints of the values that pass, in order.
pub open spec fn value_hits(values: Seq<ScannedValue>, p: FindPatterns) -> Seq<ValueMatchHint>
    decreases values.len(),
{
    if values.len() == 0 {
        Seq::empty()
    } else if value_passes_filter(p, values.last()) {
        value_hits(values.drop_last(), p).push(hint_of(values.last()))
    } else {
        value_hits(values.drop_last(), p)
    }
}

/// A key is collected iff its name passes or some value passes.
pub open spec fn key_passes(k: ScannedKey, p: FindPatterns) -> bool {
    p.name_passes(k.display_name@) || value_hits(k.values@, p).len() > 0
}

/// `m` is the match recorded for key `k`.
pub open spec fn is_match_of(m: KeyMatch, k: ScannedKey, p: FindPatterns) -> bool {
    &&& m.key_path == k.path
    &&& m.depth == k.depth
    &&& m.matched_values@ == value_hits(k.values@, p)
}

/// `ms` are the matches of the passing keys of `keys`, in order.
pub open spec fn matches_ok(ms: Seq<KeyMatch>, keys: Seq<ScannedKey>, p: FindPatterns) -> bool
    decreases keys.len(),
{
    if keys.len() == 0 {
        ms.len() == 0
    } else if key_passes(keys.last(), p) {
        &&& ms.len() > 0
        &&& is_match_of(ms.last(), keys.last(), p)
        &&& matches_ok(ms.drop_last(), keys.drop_last(), p)
    } else {
        matches_ok(ms, keys.drop_last(), p)
    }
}

/// The hints of the values of `values` that pass the value filter.
pub fn value_match_hints(values: &Vec<ScannedValue>, p: &FindPatterns) -> (hints: Vec<ValueMatchHint>)
    ensures
        hints@ == value_hits(values@, *p),
{
    let n = values.len();
    let mut hints: Vec<ValueMatchHint> = Vec::new();
    let mut i: usize = 0;
    while i < n
        invariant
            n == values@.len(),
            i <= n,
            hints@ == value_hits(values@.take(i as int), *p),
        decreases n - i,
    {
        let v = &values[i];
        assert(values@.take(i as int + 1).drop_last() =~= values@.take(i as int));
        assert(values@.take(i as int + 1).last() == *v);
        if p.matches_value(v.name.as_str()) || p.matches_value(v.search.as_str()) {
            hints.push(ValueMatchHint { name: v.name.clone(), reg_type: v.reg_type.clone(), preview: v.preview.clone() });
        }
        i = i + 1;
    }
    assert(values@.take(n as int) =~= values@);
    hints
}

/// The match for one scanned key, if it is collected.
pub fn match_key(key: &ScannedKey, p: &FindPatterns) -> (r: Option<KeyMatch>)
    ensures
        r is Some <==> key_passes(*key, *p),
        r matches Some(m) ==> is_match_of(m, *key, *p),
{
    let hints = value_match_hints(&key.values, p);
    if p.matches_name(key.display_name.as_str()) || hints.len() > 0 {
        Some(KeyMatch { key_path: key.path.clone(), depth: key.depth, matched_values: hints })
    } else {
        None
    }
}

/// The matches of the collected keys among `keys`, in order.
pub fn collect_matches(keys: &Vec<ScannedKey>, p: &FindPatterns) -> (ms: Vec<KeyMatch>)
    ensures
        matches_ok(ms@, keys@, *p),
{
    let n = keys.len();
    let mut ms: Vec<KeyMatch> = Vec::new();
    let mut i: usize = 0;
    while i < n
        invariant
            n == keys@.len(),
            i <= n,
            matches_ok(ms@, keys@.take(i as int), *p),
        decreases n - i,
    {
        let ghost before = ms@;
        assert(keys@.take(i as int + 1).drop_last() =~= keys@.take(i as int));
        assert(keys@.take(i as int + 1).last() == keys@[i as int]);
        match match_key(&keys[i], p) {
            Some(m) => {
                ms.push(m);
                assert(ms@.drop_last() =~= before);
            },
            None => {},
        }
        i = i + 1;
    }
    assert(keys@.take(n as int) =~= keys@);
    ms
}

/// Matches of two scans in a row are the matches of the joined scan.
pub proof fn lemma_matches_ok_append(
    m1: Seq<KeyMatch>,
    k1: Seq<ScannedKey>,
    m2: Seq<KeyMatch>,
    k2: Seq<ScannedKey>,
    p: FindPatterns,
)
    requires
        matches_ok(m1, k1, p),
        matches_ok(m2, k2, p),
    ensures
        matches_ok(m1 + m2, k1 + k2, p),
    decreases k2.len(),
{
    if k2.len() == 0 {
        assert(m2.len() == 0);
        assert(m1 + m2 =~= m1);
        assert(k1 + k2 =~= k1);
    } else {
        assert((k1 + k2).drop_last() =~= k1 + k2.drop_last());
        assert((k1 + k2).last() == k2.last());
        if key_passes(k2.last(), p) {
            lemma_matches_ok_append(m1, k1, m2.drop_last(), k2.drop_last(), p);
            assert((m1 + m2).drop_last() =~= m1 + m2.drop_last());
            assert((m1 + m2).last() == m2.last());
        } else {
            lemma_matches_ok_append(m1, k1, m2, k2.drop_last(), p);
        }
    }
}

/// `v` was read from a value of some type: its label, and the display and
/// search texts of the decoding of its data.
pub open spec fn scanned_value_ok(v: ScannedValue) -> bool {
    exists|kind: Option<RegType>| #[trigger] kind_label(kind) == v.reg_type@ && searchable_as(v.preview@, v.search@, kind)
}

/// `v` is how the walk sees the value `val`: its decoded name, the label of
/// its type, and the display and search texts of its data's decoding.
pub open spec fn value_scanned(v: ScannedValue, val: HiveValue) -> bool {
    &&& value_name_text(val) matches Some(n)
    &&& v.name@ == n
    &&& v.reg_type@ == kind_label(kind_of(val))
    &&& exists|fv: FormattedValue|
        fv.human@ == v.preview@ && fv.search@ == v.search@ && #[trigger] decoded_as(fv, val, kind_of(val), false)
}

/// `vs` are the values of `vals` whose data decodes, in order, each as
/// `value_scanned` sees it; the others are left out.
pub open spec fn values_scanned(vs: Seq<ScannedValue>, vals: Seq<HiveValue>) -> bool
    decreases vals.len(),
{
    if vals.len() == 0 {
        vs.len() == 0
    } else if decodable(vals.last(), kind_of(vals.last())) {
        &&& vs.len() > 0
        &&& value_scanned(vs.last(), vals.last())
        &&& values_scanned(vs.drop_last(), vals.drop_last())
    } else {
        values_scanned(vs, vals.drop_last())
    }
}

/// The number of values of `vals` whose data does not decode.
pub open spec fn undecodable_count(vals: Seq<HiveValue>) -> nat
    decreases vals.len(),
{
    if vals.len() == 0 {
        0
    } else if decodable(vals.last(), kind_of(vals.last())) {
        undecodable_count(vals.drop_last())
    } else {
        undecodable_count(vals.drop_last()) + 1
    }
}

/// The start of the warning for a value named `value_name` of the key
/// labelled `label` whose data does not decode; the error text follows.
pub open spec fn warning_prefix(value_name: Seq<char>, label: Seq<char>) -> Seq<char> {
    "rosregview: warning: failed to decode value `"@ + value_name + "` at `"@ + label + "`: "@
}

/// `ws` are the warnings for the values of `vals` whose data does not
/// decode, in order: each names its value and the key, then gives the
/// `nt_hive` error.
pub open spec fn warnings_for(ws: Seq<String>, vals: Seq<HiveValue>, label: Seq<char>) -> bool
    decreases vals.len(),
{
    if vals.len() == 0 {
        ws.len() == 0
    } else if decodable(vals.last(), kind_of(vals.last())) {
        warnings_for(ws, vals.drop_last(), label)
    } else {
        &&& ws.len() > 0
        &&& value_name_text(vals.last()) matches Some(n)
        &&& exists|e: DecodeError| ws.last()@ == warning_prefix(n, label) + #[trigger] decode_error_text(e)
        &&& warnings_for(ws.drop_last(), vals.drop_last(), label)
    }
}

/// Read the values of `node` for the value filter.  A value whose data does
/// not decode is left out, with a warning naming it and the key.
fn scan_values(node: &HiveKey, path_label: &str, warnings: &mut Vec<String>) -> (r: Result<Vec<ScannedValue>, ViewError>)
    ensures
        final(warnings)@.len() >= old(warnings)@.len(),
        final(warnings)@.subrange(0, old(warnings)@.len() as int) == old(warnings)@,
        r is Ok <==> values_listable(*node),
        r matches Ok(vs) ==> values_scanned(vs@, key_values(*node))
            && final(warnings)@.len() - old(warnings)@.len() == undecodable_count(key_values(*node))
            && warnings_for(final(warnings)@.skip(old(warnings)@.len() as int), key_values(*node), path_label@)
            && forall|i: int| 0 <= i < vs@.len() ==> scanned_value_ok(#[trigger] vs@[i]),
        r matches Err(e) ==> walk_error(e),
{
    let ghost w0 = warnings@;
    let mut iter = match key_node_values(node) {
        None => {
            assert(warnings@.subrange(0, w0.len() as int) =~= w0);
            return Ok(Vec::new());
        },
        Some(Err(e)) => {
            assert(warnings@.subrange(0, w0.len() as int) =~= w0);
            return Err(wrap_hive_error(e, "malformed value list"));
        },
        Some(Ok(iter)) => iter,
    };
    let ghost it0 = iter;
    let ghost items0 = value_items(it0);
    let ghost mut done: nat = 0;
    let mut out: Vec<ScannedValue> = Vec::new();
    loop
        invariant_except_break
            w0 == old(warnings)@,
            values_result(*node) == Some(Ok::<ValueIter, NtHiveError>(it0)),
            items0 == value_items(it0),
            done <= items0.len(),
            value_items(iter) == items0.skip(done as int),
            values_all_ok(iter) == values_all_ok(it0),
            forall|i: int| 0 <= i < done ==> #[trigger] value_name_text(items0[i]) is Some,
            warnings@.len() >= w0.len(),
            warnings@.subrange(0, w0.len() as int) == w0,
            values_scanned(out@, items0.take(done as int)),
            warnings@.len() - w0.len() == undecodable_count(items0.take(done as int)),
            warnings_for(warnings@.skip(w0.len() as int), items0.take(done as int), path_label@),
            forall|i: int| 0 <= i < out@.len() ==> scanned_value_ok(#[trigger] out@[i]),
        ensures
            values_result(*node) == Some(Ok::<ValueIter, NtHiveError>(it0)),
            items0 == value_items(it0),
            done == items0.len(),
            values_all_ok(it0),
            forall|i: int| 0 <= i < done ==> #[trigger] value_name_text(items0[i]) is Some,
            warnings@.len() >= w0.len(),
            warnings@.subrange(0, w0.len() as int) == w0,
            values_scanned(out@, items0.take(done as int)),
            warnings@.len() - w0.len() == undecodable_count(items0.take(done as int)),
            warnings_for(warnings@.skip(w0.len() as int), items0.take(done as int), path_label@),
            forall|i: int| 0 <= i < out@.len() ==> scanned_value_ok(#[trigger] out@[i]),
        decreases values_left(iter),
    {
        proof { use_type_invariant(&iter); }
        let val = match value_iter_next(&mut iter) {
            None => {
                proof {
                    assert(items0.skip(done as int).len() == 0);
                }
                break;
            },
            Some(Err(e)) => return Err(wrap_hive_error(e, "failed to advance value iterator during find")),
            Some(Ok(val)) => val,
        };
        proof {
            assert(val == items0[done as int]);
            assert(value_items(iter) =~= items0.skip(done as int + 1));
            assert(items0.take(done as int + 1).drop_last() =~= items0.take(done as int));
            assert(items0.take(done as int + 1).last() == val);
        }
        let val_name = match value_name(&val) {
            Err(e) => {
                proof {
                    assert(value_name_text(items0[done as int]) is None);
                }
                return Err(wrap_hive_error(e, "failed to read value name"));
            },
            Ok(n) => name_to_string_lossy(&n),
        };
        let (kind, reg_type) = value_kind(&val);
        match format_value_data(&val, kind, false) {
            Ok(fv) => {
                assert(searchable_as(fv.human@, fv.search@, kind));
                let v = ScannedValue { name: val_name, reg_type, preview: fv.human, search: fv.search };
                assert(scanned_value_ok(v));
                assert(value_scanned(v, val));
                let ghost before = out@;
                out.push(v);
                proof {
                    assert(out@.drop_last() =~= before);
                }
            },
            Err(e) => {
                let mut w = String::from_str("rosregview: warning: failed to decode value `");
                push_str(&mut w, val_name.as_str());
                push_str(&mut w, "` at `");
                push_str(&mut w, path_label);
                push_str(&mut w, "`: ");
                let msg = decode_error_message(&e);
                push_str(&mut w, msg.as_str());
                let ghost before = warnings@;
                proof {
                    reveal_strlit("rosregview: warning: failed to decode value `");
                    reveal_strlit("` at `");
                    reveal_strlit("`: ");
                    assert(w@ =~= warning_prefix(val_name@, path_label@) + decode_error_text(e));
                }
                warnings.push(w);
                assert(warnings@.subrange(0, w0.len() as int) =~= before.subrange(0, w0.len() as int));
                assert(warnings@.skip(w0.len() as int).drop_last() =~= before.skip(w0.len() as int));
                assert(warnings@.skip(w0.len() as int).last() == w);
            },
        }
        proof {
            done = done + 1;
        }
    }
    proof {
        assert(items0.take(done as int) =~= items0);
        assert forall|i: int| 0 <= i < items0.len() implies #[trigger] value_name_text(value_items(it0)[i]) is Some by {
            assert(value_name_text(items0[i]) is Some);
        }
    }
    Ok(out)
}

/// The errors the walk reports.
pub open spec fn walk_error(e: ViewError) -> bool {
    ||| e is NestingTooDeep
    ||| e is TooManyKeys
    ||| (e matches ViewError::Hive { context, .. } && {
        ||| context@ == "failed to read key name during find"@
        ||| context@ == "malformed value list"@
        ||| context@ == "failed to advance value iterator during find"@
        ||| context@ == "failed to read value name"@
        ||| context@ == "malformed subkey index"@
        ||| context@ == "failed to advance subkey iterator during find"@
        ||| context@ == "failed to read subkey name"@
    })
}

/// The depth of a scanned key is allowed by `depth_limit`.
pub open spec fn within_limit(depth: nat, depth_limit: Option<usize>) -> bool {
    depth_limit matches Some(limit) ==> depth <= limit
}

/// Facts about a scan of the subtree at `depth`: depths from `depth` up to
/// the limit, no values read without a value pattern, and every value read
/// decoded as `show` decodes it.
pub open spec fn scan_shape(scanned: Seq<ScannedKey>, depth: nat, depth_limit: Option<usize>, p: FindPatterns) -> bool {
    forall|i: int| 0 <= i < scanned.len() ==> {
        &&& depth <= #[trigger] scanned[i].depth
        &&& within_limit(scanned[i].depth as nat, depth_limit)
        &&& (p.value is None ==> scanned[i].values@.len() == 0)
        &&& forall|j: int| 0 <= j < scanned[i].values@.len() ==> scanned_value_ok(#[trigger] scanned[i].values@[j])
    }
}

/// The label of a subkey named `name` of the key labelled `parent`.
pub open spec fn child_label(parent: Seq<char>, name: Seq<char>) -> Seq<char> {
    if parent == "<root>"@ { name } else { parent + "\\"@ + name }
}

/// `k` was scanned as a direct subkey of `parent`.
pub open spec fn is_child_of(k: ScannedKey, parent: ScannedKey) -> bool {
    &&& k.depth == parent.depth + 1
    &&& k.path@ == child_label(parent.path@, k.display_name@)
}

/// The key at index `i` of `scanned` was scanned as a subkey of a key
/// scanned before it.
pub open spec fn has_parent_before(scanned: Seq<ScannedKey>, i: int) -> bool {
    exists|j: int| 0 <= j < i && #[trigger] is_child_of(scanned[i], scanned[j])
}

/// Every scanned key but the first was scanned as a subkey of a key scanned
/// before it.
pub open spec fn scan_tree(scanned: Seq<ScannedKey>) -> bool {
    forall|i: int| 0 < i < scanned.len() ==> #[trigger] has_parent_before(scanned, i)
}

/// `k` is how the walk sees `node`, labelled `label`, named `name`, at
/// `depth`: the root under its label `<root>`, every other key under its
/// decoded name; its values read as `values_scanned` says exactly when
/// there is a value pattern.
pub open spec fn key_scanned(k: ScannedKey, node: HiveKey, label: Seq<char>, name: Seq<char>, depth: nat, p: FindPatterns) -> bool {
    &&& k.path@ == label
    &&& k.display_name@ == (if depth == 0 && label == "<root>"@ { "<root>"@ } else { name })
    &&& k.depth == depth
    &&& if p.value is Some { values_scanned(k.values@, key_values(node)) } else { k.values@.len() == 0 }
}

/// `s` is the pre-order scan of the subtree of `node` (labelled `label`,
/// named `name`, at `depth`): `node` first, then, above the depth limit,
/// the scans of its subkeys in the order `nt_hive` lists them.
pub open spec fn walk_scan(
    s: Seq<ScannedKey>,
    node: HiveKey,
    label: Seq<char>,
    name: Seq<char>,
    depth: nat,
    depth_limit: Option<usize>,
    p: FindPatterns,
) -> bool
    decreases MAX_TRAVERSAL_DEPTH + 1 - depth, 0int, 0int,
{
    if depth > MAX_TRAVERSAL_DEPTH {
        false
    } else {
        &&& s.len() >= 1
        &&& key_scanned(s[0], node, label, name, depth, p)
        &&& if limit_reached(depth, depth_limit) {
            s.len() == 1
        } else {
            match subkeys_result(node) {
                None => s.len() == 1,
                Some(Err(_)) => false,
                Some(Ok(it)) => forest_scan(s.drop_first(), subkey_items(it), label, depth + 1, depth_limit, p),
            }
        }
    }
}

/// `s` is the scans of the subtrees of `children`, one after the other,
/// each child at `depth` labelled below `parent_label` by its decoded name.
pub open spec fn forest_scan(
    s: Seq<ScannedKey>,
    children: Seq<HiveKey>,
    parent_label: Seq<char>,
    depth: nat,
    depth_limit: Option<usize>,
    p: FindPatterns,
) -> bool
    decreases MAX_TRAVERSAL_DEPTH + 1 - depth, 1int, children.len(),
{
    if children.len() == 0 {
        s.len() == 0
    } else {
        &&& key_name_text(children.last()) is Some
        &&& exists|k: int| #![trigger s.skip(k)] 0 <= k <= s.len()
            && forest_scan(s.take(k), children.drop_last(), parent_label, depth, depth_limit, p)
            && walk_scan(
                s.skip(k),
                children.last(),
                child_label(parent_label, key_name_text(children.last())->0),
                key_name_text(children.last())->0,
                depth,
                depth_limit,
                p,
            )
    }
}

/// Whether the walk can read the subtree of `node` at `depth`: no key
/// deeper than `MAX_TRAVERSAL_DEPTH`, the values and their names where
/// values are read, and above the depth limit every subkey list, subkey and
/// subkey name.
pub open spec fn walk_readable(node: HiveKey, depth: nat, depth_limit: Option<usize>, with_values: bool) -> bool
    decreases MAX_TRAVERSAL_DEPTH + 1 - depth,
{
    if depth > MAX_TRAVERSAL_DEPTH {
        false
    } else {
        &&& (with_values ==> values_listable(node))
        &&& (limit_reached(depth, depth_limit) || match subkeys_result(node) {
            None => true,
            Some(Err(_)) => false,
            Some(Ok(it)) => subkeys_all_ok(it) && forall|i: int| 0 <= i < subkey_items(it).len() ==> {
                &&& key_name_text(#[trigger] subkey_items(it)[i]) is Some
                &&& walk_readable(subkey_items(it)[i], depth + 1, depth_limit, with_values)
            },
        })
    }
}

/// The number of keys the walk scans in the subtree of `node` at `depth`.
pub open spec fn scan_count(node: HiveKey, depth: nat, depth_limit: Option<usize>) -> nat
    decreases MAX_TRAVERSAL_DEPTH + 1 - depth, 0int, 0int,
{
    if depth > MAX_TRAVERSAL_DEPTH || limit_reached(depth, depth_limit) {
        1
    } else {
        match subkeys_result(node) {
            Some(Ok(it)) => 1 + forest_count(subkey_items(it), depth + 1, depth_limit),
            _ => 1,
        }
    }
}

/// The number of keys the walk scans in the subtrees of `children`.
pub open spec fn forest_count(children: Seq<HiveKey>, depth: nat, depth_limit: Option<usize>) -> nat
    decreases MAX_TRAVERSAL_DEPTH + 1 - depth, 1int, children.len(),
{
    if children.len() == 0 {
        0
    } else {
        forest_count(children.drop_last(), depth, depth_limit) + scan_count(children.last(), depth, depth_limit)
    }
}

/// The first children scan no more keys than all of them.
proof fn lemma_forest_count_prefix(children: Seq<HiveKey>, j: int, depth: nat, depth_limit: Option<usize>)
    requires
        0 <= j <= children.len(),
    ensures
        forest_count(children.take(j), depth, depth_limit) <= forest_count(children, depth, depth_limit),
    decreases children.len(),
{
    if j == children.len() {
        assert(children.take(j) =~= children);
    } else {
        lemma_forest_count_prefix(children.drop_last(), j, depth, depth_limit);
        assert(children.drop_last().take(j) =~= children.take(j));
    }
}

/// A scan of one more child extends the scan of the children before it.
proof fn lemma_forest_scan_push(
    a: Seq<ScannedKey>,
    b: Seq<ScannedKey>,
    children: Seq<HiveKey>,
    c: HiveKey,
    parent_label: Seq<char>,
    depth: nat,
    depth_limit: Option<usize>,
    p: FindPatterns,
)
    requires
        forest_scan(a, children, parent_label, depth, depth_limit, p),
        key_name_text(c) is Some,
        walk_scan(b, c, child_label(parent_label, key_name_text(c)->0), key_name_text(c)->0, depth, depth_limit, p),
    ensures
        forest_scan(a + b, children.push(c), parent_label, depth, depth_limit, p),
        forest_count(children.push(c), depth, depth_limit) == forest_count(children, depth, depth_limit) + scan_count(c, depth, depth_limit),
{
    let cs = children.push(c);
    let s = a + b;
    assert(cs.drop_last() =~= children);
    assert(cs.last() == c);
    assert(s.take(a.len() as int) =~= a);
    assert(s.skip(a.len() as int) =~= b);
}

/// A scan one level deeper keeps the shape of the scan it is appended to.
proof fn lemma_scan_shape_append(
    a: Seq<ScannedKey>,
    b: Seq<ScannedKey>,
    depth: nat,
    depth_limit: Option<usize>,
    p: FindPatterns,
)
    requires
        scan_shape(a, depth, depth_limit, p),
        scan_shape(b, depth + 1, depth_limit, p),
    ensures
        scan_shape(a + b, depth, depth_limit, p),
{
    let joined = a + b;
    assert forall|i: int| 0 <= i < joined.len() implies {
        &&& depth <= #[trigger] joined[i].depth
        &&& within_limit(joined[i].depth as nat, depth_limit)
        &&& (p.value is None ==> joined[i].values@.len() == 0)
        &&& forall|j: int| 0 <= j < joined[i].values@.len() ==> scanned_value_ok(#[trigger] joined[i].values@[j])
    } by {
        if i >= a.len() {
            let k = i - a.len();
            assert(joined[i] == b[k]);
            assert(depth + 1 <= b[k].depth);
        } else {
            assert(joined[i] == a[i]);
            assert(depth <= a[i].depth);
        }
    }
}

/// Recursively walk the hive below `node` (pre-order), descending only
/// while `depth_limit` permits, and append the match of every collected
/// key to `out`.  Returns the keys it scanned, as a ghost value.
#[verifier::rlimit(40)]
fn walk_for_matches(
    node: &HiveKey,
    path_label: &str,
    name: String,
    depth: usize,
    depth_limit: Option<usize>,
    patterns: &FindPatterns,
    out: &mut Vec<KeyMatch>,
    total_keys: &mut usize,
    warnings: &mut Vec<String>,
) -> (r: (Result<(), ViewError>, Ghost<Seq<ScannedKey>>))
    requires
        *old(total_keys) <= MAX_SCANNED_KEYS,
        within_limit(depth as nat, depth_limit),
    ensures
        *final(total_keys) <= MAX_SCANNED_KEYS,
        *old(total_keys) <= *final(total_keys),
        r.0 matches Err(e) ==> walk_error(e),
        depth > MAX_TRAVERSAL_DEPTH ==> (r.0 matches Err(e) && e is NestingTooDeep),
        depth <= MAX_TRAVERSAL_DEPTH && *old(total_keys) >= MAX_SCANNED_KEYS ==> (r.0 matches Err(e) && e is TooManyKeys),
        depth > MAX_TRAVERSAL_DEPTH || *old(total_keys) >= MAX_SCANNED_KEYS ==> {
            &&& final(out)@ == old(out)@
            &&& *final(total_keys) == *old(total_keys)
            &&& final(warnings)@ == old(warnings)@
        },
        r.0 is Ok <==> walk_readable(*node, depth as nat, depth_limit, patterns.value is Some)
            && *old(total_keys) + scan_count(*node, depth as nat, depth_limit) <= MAX_SCANNED_KEYS,
        r.0 matches Err(e) && e is Hive ==> !walk_readable(*node, depth as nat, depth_limit, patterns.value is Some),
        r.0 is Ok ==> {
            let scanned = r.1@;
            &&& walk_scan(scanned, *node, path_label@, name@, depth as nat, depth_limit, *patterns)
            &&& scanned.len() == scan_count(*node, depth as nat, depth_limit)
            &&& scanned.len() >= 1
            &&& *final(total_keys) == *old(total_keys) + scanned.len()
            &&& scanned[0].path@ == path_label@
            &&& scanned[0].depth == depth
            &&& scanned[0].display_name@ == (if depth == 0 && path_label@ == "<root>"@ { "<root>"@ } else { name@ })
            &&& scan_tree(scanned)
            &&& final(out)@ == old(out)@ + final(out)@.skip(old(out)@.len() as int)
            &&& matches_ok(final(out)@.skip(old(out)@.len() as int), scanned, *patterns)
            &&& scan_shape(scanned, depth as nat, depth_limit, *patterns)
        },
    decreases MAX_SCANNED_KEYS - *old(total_keys),
{
    let ghost none: Seq<ScannedKey> = Seq::empty();
    let ghost wv = patterns.value is Some;
    if depth > MAX_TRAVERSAL_DEPTH {
        return (Err(ViewError::NestingTooDeep), Ghost(none));
    }
    if *total_keys >= MAX_SCANNED_KEYS {
        return (Err(ViewError::TooManyKeys), Ghost(none));
    }
    let ghost entry_total = *total_keys;
    let ghost old_out = out@;
    *total_keys = *total_keys + 1;

    let is_root_label = str_eq(path_label, "<root>");
    let display_name = if is_root_label && depth == 0 { String::from_str("<root>") } else { name };

    let values = if patterns.value.is_some() {
        match scan_values(node, path_label, warnings) {
            Ok(v) => v,
            Err(e) => return (Err(e), Ghost(none)),
        }
    } else {
        Vec::new()
    };
    let key = ScannedKey { path: String::from_str(path_label), display_name, depth, values };
    proof {
        reveal_strlit("<root>");
        assert(key_scanned(key, *node, path_label@, name@, depth as nat, *patterns));
    }
    let mk = match_key(&key, patterns);
    let ghost mk_g = mk;
    match mk {
        Some(m) => out.push(m),
        None => {},
    }
    let ghost mut scanned: Seq<ScannedKey> = seq![key];
    proof {
        let new_part = out@.skip(old_out.len() as int);
        assert(out@ =~= old_out + new_part);
        assert(scanned.drop_last() =~= Seq::<ScannedKey>::empty());
        assert(scanned.last() == key);
        assert(matches_ok(Seq::<KeyMatch>::empty(), Seq::<ScannedKey>::empty(), *patterns));
        if key_passes(key, *patterns) {
            assert(new_part =~= seq![mk_g->0]);
            assert(new_part.drop_last() =~= Seq::<KeyMatch>::empty());
        } else {
            assert(new_part =~= Seq::<KeyMatch>::empty());
        }
        assert(matches_ok(new_part, scanned, *patterns));
    }

    match depth_limit {
        Some(limit) => {
            if depth >= limit {
                return (Ok(()), Ghost(scanned));
            }
        },
        None => {},
    }

    let mut iter = match key_node_subkeys(node) {
        None => return (Ok(()), Ghost(scanned)),
        Some(Err(e)) => return (Err(wrap_hive_error(e, "malformed subkey index")), Ghost(none)),
        Some(Ok(iter)) => iter,
    };
    let ghost it0 = iter;
    let ghost items0 = subkey_items(it0);
    let ghost mut idx: nat = 0;
    proof {
        assert(scanned.drop_first() =~= Seq::<ScannedKey>::empty());
        assert(items0.take(0) =~= Seq::<HiveKey>::empty());
    }
    loop
        invariant_except_break
            entry_total == *old(total_keys),
            entry_total < *total_keys <= MAX_SCANNED_KEYS,
            *total_keys == entry_total + scanned.len(),
            scanned.len() >= 1,
            scanned[0] == key,
            key.path@ == path_label@,
            key.depth == depth,
            key_scanned(key, *node, path_label@, name@, depth as nat, *patterns),
            wv == (patterns.value is Some),
            wv ==> values_listable(*node),
            depth <= MAX_TRAVERSAL_DEPTH,
            depth_limit matches Some(limit) ==> depth < limit,
            !limit_reached(depth as nat, depth_limit),
            out@ == old_out + out@.skip(old_out.len() as int),
            matches_ok(out@.skip(old_out.len() as int), scanned, *patterns),
            scan_shape(scanned, depth as nat, depth_limit, *patterns),
            is_root_label == (path_label@ == "<root>"@),
            scan_tree(scanned),
            subkeys_result(*node) == Some(Ok::<SubkeyIter, NtHiveError>(it0)),
            items0 == subkey_items(it0),
            idx <= items0.len(),
            subkey_items(iter) == items0.skip(idx as int),
            subkeys_all_ok(iter) == subkeys_all_ok(it0),
            forall|i: int| 0 <= i < idx ==> {
                &&& key_name_text(#[trigger] items0[i]) is Some
                &&& walk_readable(items0[i], depth as nat + 1, depth_limit, wv)
            },
            forest_scan(scanned.drop_first(), items0.take(idx as int), path_label@, depth as nat + 1, depth_limit, *patterns),
            scanned.len() == 1 + forest_count(items0.take(idx as int), depth as nat + 1, depth_limit),
        ensures
            entry_total == *old(total_keys),
            entry_total < *total_keys <= MAX_SCANNED_KEYS,
            *total_keys == entry_total + scanned.len(),
            scanned.len() >= 1,
            scanned[0] == key,
            key.path@ == path_label@,
            key.depth == depth,
            key_scanned(key, *node, path_label@, name@, depth as nat, *patterns),
            wv ==> values_listable(*node),
            depth <= MAX_TRAVERSAL_DEPTH,
            !limit_reached(depth as nat, depth_limit),
            out@ == old_out + out@.skip(old_out.len() as int),
            matches_ok(out@.skip(old_out.len() as int), scanned, *patterns),
            scan_shape(scanned, depth as nat, depth_limit, *patterns),
            scan_tree(scanned),
            subkeys_result(*node) == Some(Ok::<SubkeyIter, NtHiveError>(it0)),
            items0 == subkey_items(it0),
            idx == items0.len(),
            subkeys_all_ok(it0),
            forall|i: int| 0 <= i < idx ==> {
                &&& key_name_text(#[trigger] items0[i]) is Some
                &&& walk_readable(items0[i], depth as nat + 1, depth_limit, wv)
            },
            forest_scan(scanned.drop_first(), items0.take(idx as int), path_label@, depth as nat + 1, depth_limit, *patterns),
            scanned.len() == 1 + forest_count(items0.take(idx as int), depth as nat + 1, depth_limit),
        decreases subkeys_left(iter),
    {
        proof { use_type_invariant(&iter); }
        let child = match subkey_iter_next(&mut iter) {
            None => {
                proof {
                    assert(items0.skip(idx as int).len() == 0);
                }
                break;
            },
            Some(Err(e)) => return (Err(wrap_hive_error(e, "failed to advance subkey iterator during find")), Ghost(none)),
            Some(Ok(child)) => child,
        };
        proof {
            assert(child == items0[idx as int]);
            assert(subkey_items(iter) =~= items0.skip(idx as int + 1));
        }
        let child_name = match key_node_name(&child) {
            Ok(n) => name_to_string_lossy(&n),
            Err(e) => {
                proof {
                    assert(key_name_text(items0[idx as int]) is None);
                }
                return (Err(wrap_hive_error(e, "failed to read subkey name")), Ghost(none));
            },
        };
        let child_name_copy = child_name.clone();
        let child_path = if is_root_label {
            child_name
        } else {
            let mut p = String::from_str(path_label);
            push_str(&mut p, "\\");
            push_str(&mut p, child_name.as_str());
            p
        };
        let ghost before_out = out@;
        let ghost before_total = *total_keys;
        let ghost child_path_view = child_path@;
        proof {
            assert(key_name_text(child) == Some(child_name_copy@));
            assert(child_path@ == child_label(path_label@, child_name_copy@));
        }
        let (res, Ghost(child_scanned)) = walk_for_matches(
            &child,
            child_path.as_str(),
            child_name_copy,
            depth + 1,
            depth_limit,
            patterns,
            out,
            total_keys,
            warnings,
        );
        match res {
            Ok(()) => {},
            Err(e) => {
                proof {
                    lemma_forest_count_prefix(items0, idx as int + 1, depth as nat + 1, depth_limit);
                    assert(items0.take(idx as int + 1) =~= items0.take(idx as int).push(child));
                    assert(items0.take(idx as int).push(child).drop_last() =~= items0.take(idx as int));
                }
                return (Err(e), Ghost(none));
            },
        }
        proof {
            let prev_new = before_out.skip(old_out.len() as int);
            let child_new = out@.skip(before_out.len() as int);
            lemma_matches_ok_append(prev_new, scanned, child_new, child_scanned, *patterns);
            assert(out@.skip(old_out.len() as int) =~= prev_new + child_new);
            assert(out@ =~= old_out + out@.skip(old_out.len() as int));
            let joined = scanned + child_scanned;
            lemma_scan_shape_append(scanned, child_scanned, depth as nat, depth_limit, *patterns);
            assert(is_child_of(child_scanned[0], key));
            assert forall|i: int| 0 < i < joined.len() implies #[trigger] has_parent_before(joined, i) by {
                if i < scanned.len() {
                    assert(has_parent_before(scanned, i));
                    let j = choose|j: int| 0 <= j < i && #[trigger] is_child_of(scanned[i], scanned[j]);
                    assert(joined[i] == scanned[i] && joined[j] == scanned[j]);
                    assert(is_child_of(joined[i], joined[j]));
                } else if i == scanned.len() {
                    assert(joined[i] == child_scanned[0] && joined[0] == key);
                    assert(is_child_of(joined[i], joined[0]));
                } else {
                    let k = i - scanned.len();
                    assert(has_parent_before(child_scanned, k));
                    let j = choose|j: int| 0 <= j < k && #[trigger] is_child_of(child_scanned[k], child_scanned[j]);
                    assert(joined[i] == child_scanned[k] && joined[scanned.len() + j] == child_scanned[j]);
                    assert(is_child_of(joined[i], joined[scanned.len() + j]));
                }
            }
            lemma_forest_scan_push(
                scanned.drop_first(), child_scanned, items0.take(idx as int), child,
                path_label@, depth as nat + 1, depth_limit, *patterns,
            );
            assert(items0.take(idx as int + 1) =~= items0.take(idx as int).push(child));
            assert(joined.drop_first() =~= scanned.drop_first() + child_scanned);
            assert(joined[0] == key);
            scanned = joined;
            idx = idx + 1;
        }
    }
    proof {
        assert(items0.take(idx as int) =~= items0);
        assert forall|i: int| 0 <= i < subkey_items(it0).len() implies {
            &&& key_name_text(#[trigger] subkey_items(it0)[i]) is Some
            &&& walk_readable(subkey_items(it0)[i], depth as nat + 1, depth_limit, wv)
        } by {
            assert(key_name_text(items0[i]) is Some);
        }
    }
    (Ok(()), Ghost(scanned))
}

/// Payload for the `find` subcommand.
pub struct FindStats {
    pub base: Stats,
    pub patterns: FindPatterns,
    pub max_depth: Option<usize>,
    pub matches: Vec<KeyMatch>,
    pub total_keys: usize,
    /// Values that could not be decoded, one line each, for standard error.
    pub warnings: Vec<String>,
}

/// `stats` holds exactly the matches of some pre-order scan from the root:
/// the root first (labelled `<root>`), depths within the limit, one scanned
/// key per count in `total_keys`.
pub open spec fn is_scan_result(stats: FindStats, scanned: Seq<ScannedKey>) -> bool {
    &&& scanned.len() >= 1
    &&& scanned[0].path@ == "<root>"@
    &&& scanned[0].display_name@ == "<root>"@
    &&& scanned[0].depth == 0
    &&& stats.total_keys == scanned.len()
    &&& stats.total_keys <= MAX_SCANNED_KEYS
    &&& matches_ok(stats.matches@, scanned, stats.patterns)
    &&& scan_shape(scanned, 0, stats.max_depth, stats.patterns)
    &&& scan_tree(scanned)
}

/// Whether `find` succeeds on a hive file with contents `bytes`: it is a
/// hive whose root key and root name can be read, the walk can read every
/// key it visits (with their values where `with_values`), and it visits no
/// more than `MAX_SCANNED_KEYS` keys.
pub open spec fn find_succeeds(bytes: Seq<u8>, with_values: bool, max_depth: Option<usize>) -> bool {
    &&& is_hive(bytes)
    &&& root_result(bytes) matches Ok(root)
    &&& key_name_text(root) is Some
    &&& walk_readable(root, 0, max_depth, with_values)
    &&& scan_count(root, 0, max_depth) <= MAX_SCANNED_KEYS
}

/// `stats` holds the matches of the pre-order scan of the hive in `bytes`
/// from its root, down to `stats.max_depth`.
pub open spec fn scans_hive(stats: FindStats, bytes: Seq<u8>) -> bool {
    &&& root_result(bytes) matches Ok(root)
    &&& key_name_text(root) matches Some(n)
    &&& exists|scanned: Seq<ScannedKey>| #[trigger] is_scan_result(stats, scanned)
        && walk_scan(scanned, root, "<root>"@, n, 0, stats.max_depth, stats.patterns)
}

/// `e` is the error `find` reports on the file `path` with contents
/// `bytes`: the not-a-hive error, the error reading the root key or its
/// name, or an error of the walk, which is an `nt_hive` error only where
/// the walk cannot read some key it visits.
pub open spec fn find_error(e: ViewError, path: Seq<char>, bytes: Seq<u8>, with_values: bool, max_depth: Option<usize>) -> bool {
    if !is_hive(bytes) {
        non_hive_error(e, path, bytes)
    } else {
        match root_result(bytes) {
            Err(re) => e matches ViewError::Hive { context, cause }
                && context@ == "hive has no root key node"@ && cause@ == hive_error_text(re),
            Ok(root) => match key_name_result(root) {
                Err(ne) => e matches ViewError::Hive { context, cause }
                    && context@ == "failed to read key name during find"@ && cause@ == hive_error_text(ne),
                Ok(_) => {
                    &&& walk_error(e)
                    &&& (e is Hive ==> !walk_readable(root, 0, max_depth, with_values))
                },
            },
        }
    }
}

/// The contexts under which `find` reports `nt_hive` errors.
pub open spec fn find_error_context(c: Seq<char>, path: Seq<char>) -> bool {
    ||| c == not_a_hive_context(path)
    ||| c == "hive has no root key node"@
    ||| c == "failed to read key name during find"@
    ||| c == "malformed value list"@
    ||| c == "failed to advance value iterator during find"@
    ||| c == "failed to read value name"@
    ||| c == "malformed subkey index"@
    ||| c == "failed to advance subkey iterator during find"@
    ||| c == "failed to read subkey name"@
}

/// Copies of a list of strings.
pub fn clone_strings(v: &[String]) -> (out: Vec<String>)
    ensures
        out@ == v@,
{
    let n = v.len();
    let mut out: Vec<String> = Vec::new();
    let mut i: usize = 0;
    while i < n
        invariant
            n == v@.len(),
            i <= n,
            out@ == v@.take(i as int),
        decreases n - i,
    {
        out.push(v[i].clone());
        assert(v@.take(i as int + 1) =~= v@.take(i as int).push(v@[i as int]));
        i = i + 1;
    }
    assert(v@.take(n as int) =~= v@);
    out
}

/// Entry point of the `find` subcommand: search the hive in `hive_bytes`
/// (loaded from `path`) for keys whose name contains one of `name` and for
/// values whose name or decoded data contains `value`, down to `max_depth`.
pub fn run(
    path: &str,
    hive_bytes: &[u8],
    name: &[String],
    value: Option<&str>,
    case_sensitive: bool,
    max_depth: Option<usize>,
) -> (r: Result<FindStats, ViewError>)
    requires
        root_lookup_safe(hive_bytes@),
    ensures
        !is_hive(hive_bytes@) ==> refused_as_non_hive(r, path@),
        r is Ok <==> find_succeeds(hive_bytes@, value is Some, max_depth),
        r matches Ok(stats) ==> {
            &&& describes_file(stats.base, path@, hive_bytes@)
            &&& scans_hive(stats, hive_bytes@)
            &&& stats.patterns.name@ == name@
            &&& (value matches Some(v) ==> stats.patterns.value matches Some(w) && w@ == v@)
            &&& (value is None ==> stats.patterns.value is None)
            &&& stats.patterns.case_sensitive == case_sensitive
            &&& stats.max_depth == max_depth
            &&& exists|scanned: Seq<ScannedKey>| is_scan_result(stats, scanned)
        },
        r matches Err(e) ==> find_error(e, path@, hive_bytes@, value is Some, max_depth),
{
    let patterns = FindPatterns {
        name: clone_strings(name),
        value: match value {
            Some(v) => Some(String::from_str(v)),
            None => None,
        },
        case_sensitive,
    };
    let hive = open_hive(path, hive_bytes)?;
    let root = root_key(&hive)?;
    let root_name = match key_node_name(&root) {
        Ok(n) => name_to_string_lossy(&n),
        Err(e) => return Err(wrap_hive_error(e, "failed to read key name during find")),
    };
    let mut matches: Vec<KeyMatch> = Vec::new();
    let mut total_keys: usize = 0;
    let mut warnings: Vec<String> = Vec::new();
    let (res, Ghost(scanned)) = walk_for_matches(
        &root,
        "<root>",
        root_name,
        0,
        max_depth,
        &patterns,
        &mut matches,
        &mut total_keys,
        &mut warnings,
    );
    match res {
        Ok(()) => {},
        Err(e) => return Err(e),
    }
    assert(matches@.skip(0) =~= matches@);
    let base = Stats::from_hive(path, hive_bytes.len() as u64, hive_minor_version(&hive));
    let stats = FindStats { base, patterns, max_depth, matches, total_keys, warnings };
    assert(is_scan_result(stats, scanned));
    assert(scans_hive(stats, hive_bytes@));
    Ok(stats)
}

/// What `{:?}` prints for a list of strings.
pub open spec fn debug_names(names: Seq<Seq<char>>) -> Seq<char> {
    "["@ + join(names.map_values(|n: Seq<char>| debug_quoted(n)), ", "@) + "]"@
}

/// What `{:?}` prints for an optional string.
pub open spec fn debug_value(v: Option<String>) -> Seq<char> {
    match v {
        Some(s) => "Some("@ + debug_quoted(s@) + ")"@,
        None => "None"@,
    }
}

/// What `{}` prints for a `bool`.
pub open spec fn bool_text(b: bool) -> Seq<char> {
    if b { "true"@ } else { "false"@ }
}

/// The lines listing the matched values of a key at `depth`.
pub open spec fn hint_lines(hints: Seq<ValueMatchHint>, depth: nat) -> Seq<char>
    decreases hints.len(),
{
    if hints.len() == 0 {
        Seq::empty()
    } else {
        let h = hints.last();
        hint_lines(hints.drop_last(), depth) + indent(depth) + "    \u{2022} "@ + escape_spec(h.name@) + ": "@
            + h.reg_type@ + " = "@ + escape_spec(h.preview@) + "\n"@
    }
}

/// The indentation level of a match at `depth`: the keys directly below the
/// root are flush left, and each level further down two more spaces.
pub open spec fn match_level(depth: nat) -> nat {
    if depth > 0 { (depth - 1) as nat } else { 0 }
}

/// The lines of one match: its path, indented by level, then its values.
pub open spec fn match_block(m: KeyMatch) -> Seq<char> {
    indent(match_level(m.depth as nat)) + escape_spec(m.key_path@) + "\n"@
        + hint_lines(m.matched_values@, match_level(m.depth as nat))
}

/// The lines of all matches, in order.
pub open spec fn match_blocks(ms: Seq<KeyMatch>) -> Seq<char>
    decreases ms.len(),
{
    if ms.len() == 0 {
        Seq::empty()
    } else {
        match_blocks(ms.drop_last()) + match_block(ms.last())
    }
}

/// The `Max depth:` line.
pub open spec fn max_depth_line(max_depth: Option<usize>) -> Seq<char> {
    match max_depth {
        Some(limit) => "Max depth: "@ + dec(limit as nat) + "\n"@,
        None => "Max depth: unlimited\n"@,
    }
}

/// The human-readable `find` report.
pub open spec fn find_report(stats: FindStats) -> Seq<char> {
    "File:     "@ + escape_spec(stats.base.path@) + "\n"@
        + "Patterns: name~="@ + debug_names(string_views(stats.patterns.name@)) + "  value~="@
        + debug_value(stats.patterns.value) + "  case_sensitive="@ + bool_text(stats.patterns.case_sensitive)
        + "\n"@ + max_depth_line(stats.max_depth)
        + "Scanned "@ + dec(stats.total_keys as nat) + " keys, matched "@ + dec(stats.matches@.len())
        + " key(s).\n"@ + (if stats.matches@.len() > 0 { "\n"@ } else { Seq::empty() })
        + match_blocks(stats.matches@)
}

/// Appends `debug_names` of `names`.
fn push_debug_names(out: &mut String, names: &Vec<String>)
    ensures
        final(out)@ == old(out)@ + debug_names(string_views(names@)),
{
    let ghost start = out@;
    push_str(out, "[");
    let n = names.len();
    let mut i: usize = 0;
    while i < n
        invariant
            n == names@.len(),
            i <= n,
            out@ == start + "["@ + join(string_views(names@.take(i as int)).map_values(|x: Seq<char>| debug_quoted(x)), ", "@),
        decreases n - i,
    {
        let ghost prev = out@;
        if i > 0 {
            push_str(out, ", ");
        }
        push_debug_quoted(out, names[i].as_str());
        proof {
            let q = string_views(names@.take(i as int + 1)).map_values(|x: Seq<char>| debug_quoted(x));
            let q0 = string_views(names@.take(i as int)).map_values(|x: Seq<char>| debug_quoted(x));
            assert(q.drop_last() =~= q0);
            assert(q.last() == debug_quoted(names@[i as int]@));
            if i == 0 {
                assert(q0 =~= Seq::<Seq<char>>::empty());
            }
            assert(out@ =~= start + "["@ + join(q, ", "@));
        }
        i = i + 1;
    }
    push_str(out, "]");
    assert(names@.take(n as int) =~= names@);
}

/// Appends `debug_value` of `v`.
fn push_debug_value(out: &mut String, v: &Option<String>)
    ensures
        final(out)@ == old(out)@ + debug_value(*v),
{
    match v {
        Some(s) => {
            push_str(out, "Some(");
            push_debug_quoted(out, s.as_str());
            push_str(out, ")");
        },
        None => push_str(out, "None"),
    }
}

/// Appends the lines of the matched values of a key at `depth`.
fn push_hint_lines(out: &mut String, hints: &Vec<ValueMatchHint>, depth: usize)
    ensures
        final(out)@ == old(out)@ + hint_lines(hints@, depth as nat),
{
    let ghost start = out@;
    let n = hints.len();
    let mut i: usize = 0;
    while i < n
        invariant
            n == hints@.len(),
            i <= n,
            out@ == start + hint_lines(hints@.take(i as int), depth as nat),
        decreases n - i,
    {
        let h = &hints[i];
        push_indent(out, depth);
        push_str(out, "    \u{2022} ");
        let name = chars_of(h.name.as_str());
        push_escaped(out, name.as_slice());
        push_str(out, ": ");
        push_str(out, h.reg_type.as_str());
        push_str(out, " = ");
        let preview = chars_of(h.preview.as_str());
        push_escaped(out, preview.as_slice());
        push_str(out, "\n");
        assert(hints@.take(i as int + 1).drop_last() =~= hints@.take(i as int));
        assert(hints@.take(i as int + 1).last() == *h);
        assert(out@ =~= start + hint_lines(hints@.take(i as int + 1), depth as nat));
        i = i + 1;
    }
    assert(hints@.take(n as int) =~= hints@);
}

/// Appends the lines of all matches.
fn push_match_blocks(out: &mut String, ms: &Vec<KeyMatch>)
    ensures
        final(out)@ == old(out)@ + match_blocks(ms@),
{
    let ghost start = out@;
    let n = ms.len();
    let mut i: usize = 0;
    while i < n
        invariant
            n == ms@.len(),
            i <= n,
            out@ == start + match_blocks(ms@.take(i as int)),
        decreases n - i,
    {
        let m = &ms[i];
        let ghost before = out@;
        let level: usize = if m.depth > 0 { m.depth - 1 } else { 0 };
        push_indent(out, level);
        let path = chars_of(m.key_path.as_str());
        push_escaped(out, path.as_slice());
        push_str(out, "\n");
        push_hint_lines(out, &m.matched_values, level);
        assert(out@ =~= before + match_block(*m));
        assert(ms@.take(i as int + 1).drop_last() =~= ms@.take(i as int));
        assert(ms@.take(i as int + 1).last() == *m);
        i = i + 1;
    }
    assert(ms@.take(n as int) =~= ms@);
}

/// Human-readable sink: the search settings, the counts, then every
/// matched key indented by its level below the root, with its matched
/// values below it.
pub fn render_human(stats: &FindStats) -> (out: String)
    ensures
        out@ == find_report(*stats),
{
    let mut out = String::new();
    push_str(&mut out, "File:     ");
    let path = chars_of(stats.base.path.as_str());
    push_escaped(&mut out, path.as_slice());
    push_str(&mut out, "\n");
    push_str(&mut out, "Patterns: name~=");
    push_debug_names(&mut out, &stats.patterns.name);
    push_str(&mut out, "  value~=");
    push_debug_value(&mut out, &stats.patterns.value);
    push_str(&mut out, "  case_sensitive=");
    if stats.patterns.case_sensitive {
        push_str(&mut out, "true");
    } else {
        push_str(&mut out, "false");
    }
    push_str(&mut out, "\n");
    match stats.max_depth {
        Some(limit) => {
            push_str(&mut out, "Max depth: ");
            push_decimal(&mut out, limit as u64);
            push_str(&mut out, "\n");
        },
        None => push_str(&mut out, "Max depth: unlimited\n"),
    }
    push_str(&mut out, "Scanned ");
    push_decimal(&mut out, stats.total_keys as u64);
    push_str(&mut out, " keys, matched ");
    push_decimal(&mut out, stats.matches.len() as u64);
    push_str(&mut out, " key(s).\n");
    if stats.matches.len() > 0 {
        push_str(&mut out, "\n");
    }
    push_match_blocks(&mut out, &stats.matches);
    assert(out@ =~= find_report(*stats));
    out
}

/// The empty needle occurs in every text, in either mode.
pub proof fn lemma_empty_needle_matches(haystack: Seq<char>, case_sensitive: bool)
    ensures
        fuzzy_spec(haystack, Seq::empty(), case_sensitive),
{
}

/// Every text contains itself, in either mode.
pub proof fn lemma_text_contains_itself(text: Seq<char>, case_sensitive: bool)
    ensures
        fuzzy_spec(text, text, case_sensitive),
{
    assert(text.subrange(0, text.len() as int) =~= text);
    assert(occurs_at(text, text, 0));
    let l = lowercase(text);
    assert(l.subrange(0, l.len() as int) =~= l);
    assert(occurs_at(l, l, 0));
    let a = ascii_lower_seq(text);
    assert(a.subrange(0, a.len() as int) =~= a);
    assert(occurs_at(a, a, 0));
}

/// Without filters every key name passes.
pub proof fn lemma_no_filters_accept_every_name(p: FindPatterns, haystack: Seq<char>)
    requires
        p.name@.len() == 0,
        p.value is None,
    ensures
        p.name_passes(haystack),
{
}

/// A value pattern alone lets no key name pass.
pub proof fn lemma_value_only_matches_no_name(p: FindPatterns, haystack: Seq<char>)
    requires
        p.name@.len() == 0,
        p.value is Some,
    ensures
        !p.name_passes(haystack),
{
}

/// Without a value pattern no value passes, so no key has matched values.
pub proof fn lemma_no_value_pattern_no_hits(p: FindPatterns, values: Seq<ScannedValue>)
    requires
        p.value is None,
    ensures
        value_hits(values, p).len() == 0,
    decreases values.len(),
{
    if values.len() > 0 {
        lemma_no_value_pattern_no_hits(p, values.drop_last());
    }
}

/// `h` is the hint of some value of `values` that passes the value filter.
pub open spec fn hint_of_passing_value(values: Seq<ScannedValue>, p: FindPatterns, h: ValueMatchHint) -> bool {
    exists|i: int| 0 <= i < values.len() && value_passes_filter(p, values[i]) && h == hint_of(#[trigger] values[i])
}

/// Every recorded hint is that of a value that passes the value filter.
pub proof fn lemma_hints_pass_filter(values: Seq<ScannedValue>, p: FindPatterns)
    ensures
        forall|j: int| 0 <= j < value_hits(values, p).len()
            ==> hint_of_passing_value(values, p, #[trigger] value_hits(values, p)[j]),
    decreases values.len(),
{
    if values.len() > 0 {
        let init = values.drop_last();
        lemma_hints_pass_filter(init, p);
        let prev = value_hits(init, p);
        let hits = value_hits(values, p);
        assert forall|j: int| 0 <= j < hits.len() implies hint_of_passing_value(values, p, #[trigger] hits[j]) by {
            if j < prev.len() {
                assert(hits[j] == prev[j]);
                assert(hint_of_passing_value(init, p, prev[j]));
                let i = choose|i: int| 0 <= i < init.len() && value_passes_filter(p, init[i]) && prev[j] == hint_of(#[trigger] init[i]);
                assert(init[i] == values[i]);
            } else {
                let i = values.len() - 1;
                assert(values[i] == values.last());
            }
        }
    }
}

/// `m` is the match of some key of `keys` that passes the filters.
pub open spec fn match_of_passing_key(keys: Seq<ScannedKey>, p: FindPatterns, m: KeyMatch) -> bool {
    exists|i: int| 0 <= i < keys.len() && key_passes(keys[i], p) && is_match_of(m, #[trigger] keys[i], p)
}

/// Every match is that of a scanned key that passes the filters, and there
/// are never more matches than scanned keys.
pub proof fn lemma_matches_are_of_passing_keys(ms: Seq<KeyMatch>, keys: Seq<ScannedKey>, p: FindPatterns)
    requires
        matches_ok(ms, keys, p),
    ensures
        ms.len() <= keys.len(),
        forall|j: int| 0 <= j < ms.len() ==> match_of_passing_key(keys, p, #[trigger] ms[j]),
    decreases keys.len(),
{
    if keys.len() > 0 {
        let k0 = keys.drop_last();
        let m0 = if key_passes(keys.last(), p) { ms.drop_last() } else { ms };
        lemma_matches_are_of_passing_keys(m0, k0, p);
        assert forall|j: int| 0 <= j < ms.len() implies match_of_passing_key(keys, p, #[trigger] ms[j]) by {
            if j < m0.len() {
                assert(ms[j] == m0[j]);
                assert(match_of_passing_key(k0, p, m0[j]));
                let i = choose|i: int| 0 <= i < k0.len() && key_passes(k0[i], p) && is_match_of(m0[j], #[trigger] k0[i], p);
                assert(k0[i] == keys[i]);
            } else {
                let i = keys.len() - 1;
                assert(keys[i] == keys.last());
            }
        }
    }
}

/// Without filters every scanned key is collected, in scan order.
pub proof fn lemma_no_filters_collect_every_key(ms: Seq<KeyMatch>, keys: Seq<ScannedKey>, p: FindPatterns)
    requires
        matches_ok(ms, keys, p),
        p.name@.len() == 0,
        p.value is None,
    ensures
        ms.len() == keys.len(),
        forall|i: int| 0 <= i < keys.len() ==> is_match_of(#[trigger] ms[i], keys[i], p),
    decreases keys.len(),
{
    if keys.len() > 0 {
        assert(key_passes(keys.last(), p));
        lemma_no_filters_collect_every_key(ms.drop_last(), keys.drop_last(), p);
        assert forall|i: int| 0 <= i < keys.len() implies is_match_of(#[trigger] ms[i], keys[i], p) by {
            if i < keys.len() - 1 {
                assert(ms[i] == ms.drop_last()[i]);
                assert(keys[i] == keys.drop_last()[i]);
            }
        }
    }
}

/// No match lies deeper than the depth limit of the scan.
pub proof fn lemma_matches_within_depth(
    ms: Seq<KeyMatch>,
    keys: Seq<ScannedKey>,
    p: FindPatterns,
    depth_limit: Option<usize>,
)
    requires
        matches_ok(ms, keys, p),
        scan_shape(keys, 0, depth_limit, p),
    ensures
        forall|j: int| 0 <= j < ms.len() ==> within_limit(#[trigger] ms[j].depth as nat, depth_limit),
{
    lemma_matches_are_of_passing_keys(ms, keys, p);
    assert forall|j: int| 0 <= j < ms.len() implies within_limit(#[trigger] ms[j].depth as nat, depth_limit) by {
        assert(match_of_passing_key(keys, p, ms[j]));
        let i = choose|i: int| 0 <= i < keys.len() && key_passes(keys[i], p) && is_match_of(ms[j], #[trigger] keys[i], p);
        assert(within_limit(keys[i].depth as nat, depth_limit));
    }
}

/// A value whose whole search text holds the value pattern passes the
/// value filter, whatever its (shortened) display text shows.
pub proof fn lemma_value_filter_searches_whole_text(p: FindPatterns, v: ScannedValue)
    requires
        p.value_passes(v.search@),
    ensures
        value_passes_filter(p, v),
{
}

/// A key with a value whose search text holds the value pattern is
/// collected, and that value is among its hints.
pub proof fn lemma_key_with_passing_value_is_collected(k: ScannedKey, p: FindPatterns, i: int)
    requires
        0 <= i < k.values@.len(),
        p.value_passes(k.values@[i].search@),
    ensures
        key_passes(k, p),
        value_hits(k.values@, p).contains(hint_of(k.values@[i])),
{
    lemma_value_hits_contains(k.values@, p, i);
}

/// The hints of `vs` hold the hint of every value whose search text holds
/// the value pattern.
proof fn lemma_value_hits_contains(vs: Seq<ScannedValue>, p: FindPatterns, i: int)
    requires
        0 <= i < vs.len(),
        p.value_passes(vs[i].search@),
    ensures
        value_hits(vs, p).contains(hint_of(vs[i])),
    decreases vs.len(),
{
    if i == vs.len() - 1 {
        assert(vs.last() == vs[i]);
        let h = value_hits(vs, p);
        assert(h.last() == hint_of(vs[i]));
        assert(h[h.len() - 1] == hint_of(vs[i]));
    } else {
        assert(vs.drop_last()[i] == vs[i]);
        lemma_value_hits_contains(vs.drop_last(), p, i);
        let h0 = value_hits(vs.drop_last(), p);
        let j = choose|j: int| 0 <= j < h0.len() && h0[j] == hint_of(vs[i]);
        if value_passes_filter(p, vs.last()) {
            assert(value_hits(vs, p) == h0.push(hint_of(vs.last())));
            assert(value_hits(vs, p)[j] == hint_of(vs[i]));
        }
    }
}

/// A `REG_SZ` value scanned for `find` whose whole string (without its
/// trailing NULs) holds the value pattern passes the value filter, however
/// long the string is.
pub proof fn lemma_long_string_values_are_found(p: FindPatterns, v: ScannedValue, val: HiveValue, s: String)
    requires
        value_scanned(v, val),
        type_code_result(val) == Ok::<u32, NtHiveError>(1),
        string_data_result(val) == Ok::<String, NtHiveError>(s),
        p.value_passes(trim_trailing_nul(s@)),
    ensures
        v.search@ == trim_trailing_nul(s@),
        value_passes_filter(p, v),
{
    let fv = choose|fv: FormattedValue|
        fv.human@ == v.preview@ && fv.search@ == v.search@ && #[trigger] decoded_as(fv, val, kind_of(val), false);
    lemma_string_types_decode_as_strings(val, s, fv, false);
}

} // verus!
