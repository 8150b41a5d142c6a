//! `tree` subcommand: the recursive key tree.

use vstd::prelude::*;
use crate::error::{wrap_hive_error, ViewError, MAX_TRAVERSAL_DEPTH};
use crate::hive::nt::{
    hive_minor_version, is_hive, key_children, key_name_text, key_node_name, key_node_subkeys,
    name_to_string_lossy, subkey_items, subkey_iter_next, subkeys_all_ok, subkeys_left, subkeys_result,
    hive_error_text, root_result, HiveKey, SubkeyIter,
};
use nt_hive::NtHiveError;
use crate::hive::open::{non_hive_error, describes_file, not_a_hive_context, open_hive, refused_as_non_hive, root_lookup_safe, root_key};
use crate::output::text::{chars_of, dec, indent, push_decimal, push_indent, push_str};
use crate::output::{escape_spec, push_escaped, Stats};

verus! {

/// A single key in the recursive tree: its name and its subkeys.
pub struct KeyTreeNode {
    pub name: String,
    pub subkeys: Vec<KeyTreeNode>,
}

/// No key of the tree rooted at `node` (which sits at `depth`) below the
/// limit has subkeys: `Some(n)` keeps keys down to depth `n`.
pub open spec fn respects_depth(node: KeyTreeNode, depth: nat, depth_limit: Option<usize>) -> bool
    decreases node,
{
    &&& (depth_limit matches Some(limit) && depth >= limit ==> node.subkeys@.len() == 0)
    &&& forall|i: int| 0 <= i < node.subkeys@.len() ==> respects_depth(#[trigger] node.subkeys@[i], depth + 1, depth_limit)
}

/// Every key of the tree rooted at `node` (which sits at `depth`) has a
/// depth that a `usize` holds.
pub open spec fn fits_depth(node: KeyTreeNode, depth: nat) -> bool
    decreases node,
{
    &&& depth < usize::MAX
    &&& forall|i: int| 0 <= i < node.subkeys@.len() ==> fits_depth(#[trigger] node.subkeys@[i], depth + 1)
}

/// The text of the tree rooted at `node`, printed at `depth`: one line per
/// key, indented by depth, in pre-order.
pub open spec fn tree_text(node: KeyTreeNode, depth: nat) -> Seq<char>
    decreases node, node.subkeys@.len() + 1,
{
    indent(depth) + escape_spec(node.name@) + "\n"@ + subtrees_text(node, node.subkeys@.len() as int, depth + 1)
}

/// The text of the first `k` subtrees of `node`, printed at `depth`.
pub open spec fn subtrees_text(node: KeyTreeNode, k: int, depth: nat) -> Seq<char>
    decreases node, k,
{
    if k <= 0 || k > node.subkeys@.len() {
        Seq::empty()
    } else {
        subtrees_text(node, k - 1, depth) + tree_text(node.subkeys@[k - 1], depth)
    }
}

/// Tree-specific payload: the shared `Stats`, the depth limit and the tree.
pub struct TreeStats {
    pub base: Stats,
    pub depth_limit: Option<usize>,
    pub tree: KeyTreeNode,
}

/// The errors the tree walk reports.
pub open spec fn build_error(e: ViewError) -> bool {
    ||| e is NestingTooDeep
    ||| (e matches ViewError::Hive { context, .. } && {
        ||| context@ == "failed to advance subkey iterator"@
        ||| context@ == "failed to read subkey name"@
        ||| context@ == "malformed subkey index"@
    })
}

/// The depth limit stops descent below a key at `depth`.
pub open spec fn limit_reached(depth: nat, depth_limit: Option<usize>) -> bool {
    depth_limit matches Some(limit) && depth >= limit
}

/// Whether the tree below `node`, which sits at `depth`, can be read: no key
/// deeper than `MAX_TRAVERSAL_DEPTH`, and above the depth limit every
/// subkey list, subkey and subkey name readable.
pub open spec fn tree_readable(node: HiveKey, depth: nat, depth_limit: Option<usize>) -> bool
    decreases MAX_TRAVERSAL_DEPTH + 1 - depth,
{
    if depth > MAX_TRAVERSAL_DEPTH {
        false
    } else if limit_reached(depth, depth_limit) {
        true
    } else {
        match subkeys_result(node) {
            None => true,
            Some(Err(_)) => false,
            Some(Ok(it)) => subkeys_all_ok(it) && forall|i: int| 0 <= i < subkey_items(it).len() ==> {
                &&& key_name_text(#[trigger] subkey_items(it)[i]) is Some
                &&& tree_readable(subkey_items(it)[i], depth + 1, depth_limit)
            },
        }
    }
}

/// Whether every read the tree walk makes below `node` (at `depth`)
/// succeeds, whatever the nesting: above the depth limit every subkey list,
/// subkey and subkey name down to `MAX_TRAVERSAL_DEPTH`, past which the
/// walk reads nothing more.
pub open spec fn tree_reads_ok(node: HiveKey, depth: nat, depth_limit: Option<usize>) -> bool
    decreases MAX_TRAVERSAL_DEPTH + 1 - depth,
{
    if depth > MAX_TRAVERSAL_DEPTH || limit_reached(depth, depth_limit) {
        true
    } else {
        match subkeys_result(node) {
            None => true,
            Some(Err(_)) => false,
            Some(Ok(it)) => subkeys_all_ok(it) && forall|i: int| 0 <= i < subkey_items(it).len() ==> {
                &&& key_name_text(#[trigger] subkey_items(it)[i]) is Some
                &&& tree_reads_ok(subkey_items(it)[i], depth + 1, depth_limit)
            },
        }
    }
}

/// `t` is the tree of `node`, named `name`, which sits at `depth`: above the
/// depth limit one subtree per subkey `nt_hive` lists, in order, each named
/// by its key's decoded name; at the limit no subtrees.
pub open spec fn tree_built(t: KeyTreeNode, node: HiveKey, name: Seq<char>, depth: nat, depth_limit: Option<usize>) -> bool
    decreases MAX_TRAVERSAL_DEPTH + 1 - depth,
{
    &&& t.name@ == name
    &&& if depth > MAX_TRAVERSAL_DEPTH {
        false
    } else if limit_reached(depth, depth_limit) {
        t.subkeys@.len() == 0
    } else {
        &&& t.subkeys@.len() == key_children(node).len()
        &&& forall|i: int| #![trigger t.subkeys@[i]] 0 <= i < t.subkeys@.len() ==> match key_name_text(key_children(node)[i]) {
            Some(n) => tree_built(t.subkeys@[i], key_children(node)[i], n, depth + 1, depth_limit),
            None => false,
        }
    }
}

/// Recursively walk a key and build its `KeyTreeNode`, named `name`.
///
/// `depth_limit` semantics: `None` = unlimited; `Some(n)` = stop descending
/// at depth `n` (n=0 shows only the root).  `current_depth` is the depth of
/// `node` itself.
pub fn build_tree(node: &HiveKey, name: &str, depth_limit: Option<usize>, current_depth: usize) -> (r: Result<KeyTreeNode, ViewError>)
    ensures
        r is Ok <==> tree_readable(*node, current_depth as nat, depth_limit),
        r matches Ok(t) ==> tree_built(t, *node, name@, current_depth as nat, depth_limit)
            && respects_depth(t, current_depth as nat, depth_limit) && fits_depth(t, current_depth as nat),
        r matches Err(e) ==> build_error(e),
        r matches Err(e) ==> (e is NestingTooDeep || !tree_reads_ok(*node, current_depth as nat, depth_limit)),
    decreases MAX_TRAVERSAL_DEPTH + 1 - current_depth,
{
    if current_depth > MAX_TRAVERSAL_DEPTH {
        return Err(ViewError::NestingTooDeep);
    }
    let reached_limit = match depth_limit {
        Some(limit) => current_depth >= limit,
        None => false,
    };
    let mut subkeys: Vec<KeyTreeNode> = Vec::new();
    if !reached_limit {
        match key_node_subkeys(node) {
            None => {},
            Some(Err(e)) => return Err(wrap_hive_error(e, "malformed subkey index")),
            Some(Ok(iter)) => {
                let mut iter = iter;
                let ghost it0 = iter;
                let ghost items0 = subkey_items(it0);
                loop
                    invariant_except_break
                        current_depth <= MAX_TRAVERSAL_DEPTH,
                        !limit_reached(current_depth as nat, depth_limit),
                        subkeys_result(*node) == Some(Ok::<SubkeyIter, NtHiveError>(it0)),
                        items0 == subkey_items(it0),
                        subkeys@.len() <= items0.len(),
                        subkey_items(iter) == items0.skip(subkeys@.len() as int),
                        subkeys_all_ok(iter) == subkeys_all_ok(it0),
                        forall|i: int| 0 <= i < subkeys@.len() ==> respects_depth(#[trigger] subkeys@[i], current_depth as nat + 1, depth_limit)
                            && fits_depth(subkeys@[i], current_depth as nat + 1),
                        forall|i: int| 0 <= i < subkeys@.len() ==> {
                            &&& key_name_text(#[trigger] items0[i]) is Some
                            &&& tree_readable(items0[i], current_depth as nat + 1, depth_limit)
                            &&& tree_built(subkeys@[i], items0[i], key_name_text(items0[i])->0, current_depth as nat + 1, depth_limit)
                        },
                    ensures
                        current_depth <= MAX_TRAVERSAL_DEPTH,
                        !limit_reached(current_depth as nat, depth_limit),
                        subkeys_result(*node) == Some(Ok::<SubkeyIter, NtHiveError>(it0)),
                        items0 == subkey_items(it0),
                        subkeys@.len() == items0.len(),
                        subkeys_all_ok(it0),
                        forall|i: int| 0 <= i < subkeys@.len() ==> respects_depth(#[trigger] subkeys@[i], current_depth as nat + 1, depth_limit)
                            && fits_depth(subkeys@[i], current_depth as nat + 1),
                        forall|i: int| 0 <= i < subkeys@.len() ==> {
                            &&& key_name_text(#[trigger] items0[i]) is Some
                            &&& tree_readable(items0[i], current_depth as nat + 1, depth_limit)
                            &&& tree_built(subkeys@[i], items0[i], key_name_text(items0[i])->0, current_depth as nat + 1, depth_limit)
                        },
                    decreases subkeys_left(iter),
                {
                    proof { use_type_invariant(&iter); }
                    let child = match subkey_iter_next(&mut iter) {
                        None => break,
                        Some(Err(e)) => return Err(wrap_hive_error(e, "failed to advance subkey iterator")),
                        Some(Ok(child)) => child,
                    };
                    proof {
                        assert(child == items0[subkeys@.len() as int]);
                        assert(subkey_items(iter) =~= items0.skip(subkeys@.len() as int + 1));
                    }
                    let child_name = match key_node_name(&child) {
                        Ok(n) => name_to_string_lossy(&n),
                        Err(e) => {
                            proof {
                                assert(key_name_text(items0[subkeys@.len() as int]) is None);
                            }
                            return Err(wrap_hive_error(e, "failed to read subkey name"));
                        },
                    };
                    let sub = match build_tree(&child, child_name.as_str(), depth_limit, current_depth + 1) {
                        Ok(sub) => sub,
                        Err(e) => return Err(e),
                    };
                    subkeys.push(sub);
                }
                proof {
                    assert forall|i: int| 0 <= i < items0.len() implies {
                        &&& key_name_text(#[trigger] items0[i]) is Some
                        &&& tree_readable(items0[i], current_depth as nat + 1, depth_limit)
                    } by {
                        assert(key_name_text(items0[i]) is Some);
                    }
                }
            },
        }
    }
    let t = KeyTreeNode { name: String::from_str(name), subkeys };
    assert(respects_depth(t, current_depth as nat, depth_limit));
    assert(fits_depth(t, current_depth as nat));
    assert(tree_built(t, *node, name@, current_depth as nat, depth_limit));
    Ok(t)
}

/// Appends the text of the tree rooted at `node`, printed at `depth`.
pub fn render_tree_to_string(node: &KeyTreeNode, depth: usize, out: &mut String)
    requires
        fits_depth(*node, depth as nat),
    ensures
        final(out)@ == old(out)@ + tree_text(*node, depth as nat),
    decreases node,
{
    let ghost start = out@;
    push_indent(out, depth);
    let name = chars_of(node.name.as_str());
    push_escaped(out, name.as_slice());
    push_str(out, "\n");
    let ghost head = out@;
    let n = node.subkeys.len();
    let mut i: usize = 0;
    while i < n
        invariant
            n == node.subkeys@.len(),
            i <= n,
            fits_depth(*node, depth as nat),
            out@ == head + subtrees_text(*node, i as int, depth as nat + 1),
        decreases n - i,
    {
        assert(fits_depth(node.subkeys@[i as int], depth as nat + 1));
        render_tree_to_string(&node.subkeys[i], depth + 1, out);
        i = i + 1;
    }
    assert(out@ =~= start + tree_text(*node, depth as nat));
}

/// The `Depth:` line.
pub open spec fn depth_line(depth_limit: Option<usize>) -> Seq<char> {
    match depth_limit {
        Some(limit) => "Depth:    0..="@ + dec(limit as nat) + "\n"@,
        None => "Depth:    unlimited\n"@,
    }
}

/// The human-readable `tree` report.
pub open spec fn tree_report(stats: TreeStats) -> Seq<char> {
    "File:     "@ + escape_spec(stats.base.path@) + "\n"@
        + "Size:     "@ + dec(stats.base.file_size_bytes as nat) + " bytes\n"@
        + depth_line(stats.depth_limit) + "\n"@
        + tree_text(stats.tree, 0)
}

/// Human-readable sink: file facts, the depth limit, then the indented tree.
pub fn render_human(stats: &TreeStats) -> (out: String)
    requires
        fits_depth(stats.tree, 0),
    ensures
        out@ == tree_report(*stats),
{
    let mut out = String::new();
    push_str(&mut out, "File:     ");
    let path = chars_of(stats.base.path.as_str());
    push_escaped(&mut out, path.as_slice());
    push_str(&mut out, "\n");
    push_str(&mut out, "Size:     ");
    push_decimal(&mut out, stats.base.file_size_bytes);
    push_str(&mut out, " bytes\n");
    match stats.depth_limit {
        Some(limit) => {
            push_str(&mut out, "Depth:    0..=");
            push_decimal(&mut out, limit as u64);
            push_str(&mut out, "\n");
        },
        None => push_str(&mut out, "Depth:    unlimited\n"),
    }
    push_str(&mut out, "\n");
    render_tree_to_string(&stats.tree, 0, &mut out);
    assert(out@ =~= tree_report(*stats));
    out
}

/// `e` is the error `tree` reports on the file `path` with contents
/// `bytes`: the not-a-hive error, the error reading the root key, or an
/// error of the walk, which is the nesting limit where every read of the
/// walk succeeds.
pub open spec fn tree_error(e: ViewError, path: Seq<char>, bytes: Seq<u8>, depth: Option<usize>) -> bool {
    if !is_hive(bytes) {
        non_hive_error(e, path, bytes)
    } else {
        match root_result(bytes) {
            Err(re) => e matches ViewError::Hive { context, cause }
                && context@ == "hive has no root key node"@ && cause@ == hive_error_text(re),
            Ok(root) => {
                &&& build_error(e)
                &&& (e is NestingTooDeep || !tree_reads_ok(root, 0, depth))
            },
        }
    }
}

/// Entry point of the `tree` subcommand: the key tree of the hive in
/// `hive_bytes` (loaded from `path`) down to `depth` levels.
pub fn run(path: &str, hive_bytes: &[u8], depth: Option<usize>) -> (r: Result<TreeStats, ViewError>)
    requires
        root_lookup_safe(hive_bytes@),
    ensures
        !is_hive(hive_bytes@) ==> refused_as_non_hive(r, path@),
        r is Ok <==> (is_hive(hive_bytes@) && (root_result(hive_bytes@) matches Ok(root)
            && tree_readable(root, 0, depth))),
        r matches Ok(stats) ==> {
            &&& describes_file(stats.base, path@, hive_bytes@)
            &&& stats.depth_limit == depth
            &&& stats.tree.name@ == "<root>"@
            &&& root_result(hive_bytes@) matches Ok(root)
            &&& tree_built(stats.tree, root, "<root>"@, 0, depth)
            &&& respects_depth(stats.tree, 0, depth)
            &&& fits_depth(stats.tree, 0)
        },
        r matches Err(e) ==> tree_error(e, path@, hive_bytes@, depth),
{
    let hive = open_hive(path, hive_bytes)?;
    let root = root_key(&hive)?;
    let tree = build_tree(&root, "<root>", depth, 0)?;
    let base = Stats::from_hive(path, hive_bytes.len() as u64, hive_minor_version(&hive));
    Ok(TreeStats { base, depth_limit: depth, tree })
}


/// With depth limit 0 the tree is the root alone.
pub proof fn lemma_depth_zero_is_root_only(t: KeyTreeNode)
    requires
        respects_depth(t, 0, Some(0usize)),
    ensures
        t.subkeys@.len() == 0,
{
}

/// With depth limit 1 the tree is the root and its direct children, none of
/// which has subkeys.
pub proof fn lemma_depth_one_children_are_leaves(t: KeyTreeNode)
    requires
        respects_depth(t, 0, Some(1usize)),
    ensures
        forall|i: int| 0 <= i < t.subkeys@.len() ==> (#[trigger] t.subkeys@[i]).subkeys@.len() == 0,
{
    assert forall|i: int| 0 <= i < t.subkeys@.len() implies (#[trigger] t.subkeys@[i]).subkeys@.len() == 0 by {
        assert(respects_depth(t.subkeys@[i], 1, Some(1usize)));
    }
}

/// Without a depth limit no cutoff applies: the tree of a key at any depth
/// up to `MAX_TRAVERSAL_DEPTH` has one subtree per subkey `nt_hive` lists,
/// in order, each named by its key's decoded name.
pub proof fn lemma_unlimited_tree_keeps_every_subkey(t: KeyTreeNode, node: HiveKey, name: Seq<char>, depth: nat)
    requires
        depth <= MAX_TRAVERSAL_DEPTH,
        tree_built(t, node, name, depth, None),
    ensures
        t.subkeys@.len() == key_children(node).len(),
        forall|i: int| 0 <= i < t.subkeys@.len() ==>
            key_name_text(#[trigger] key_children(node)[i]) == Some(t.subkeys@[i].name@),
{
    assert forall|i: int| 0 <= i < t.subkeys@.len() implies
        key_name_text(#[trigger] key_children(node)[i]) == Some(t.subkeys@[i].name@) by {
        let c = key_children(node)[i];
        assert(tree_built(t.subkeys@[i], c, key_name_text(c)->0, depth + 1, None));
    }
}

/// Without a depth limit the walk reads every subkey list down to
/// `MAX_TRAVERSAL_DEPTH`: a key whose subkey index is malformed, or whose
/// subkeys do not all load, at any such depth makes the tree unreadable.
pub proof fn lemma_unlimited_tree_reads_every_list(node: HiveKey, depth: nat)
    requires
        depth <= MAX_TRAVERSAL_DEPTH,
        tree_readable(node, depth, None),
    ensures
        !(subkeys_result(node) matches Some(Err(_))),
        subkeys_result(node) matches Some(Ok(it)) ==> subkeys_all_ok(it),
{
}

/// Above the depth limit the tree of a key has one subtree per subkey
/// `nt_hive` lists; at the limit it has none.
pub proof fn lemma_tree_cut_exactly_at_the_limit(t: KeyTreeNode, node: HiveKey, name: Seq<char>, depth: nat, limit: usize)
    requires
        depth <= MAX_TRAVERSAL_DEPTH,
        tree_built(t, node, name, depth, Some(limit)),
    ensures
        depth < limit ==> t.subkeys@.len() == key_children(node).len(),
        depth >= limit ==> t.subkeys@.len() == 0,
{
}

} // verus!
