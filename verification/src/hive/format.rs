//! Registry-path navigation shared by the `list` and `show` subcommands.

use vstd::prelude::*;
use crate::error::{
    path_segments, segments_from, string_views, wrap_hive_error_owned, ViewError,
};
use crate::hive::nt::{key_node_subpath, subpath_result, HiveKey};
use crate::output::text::{chars_of, push_str, string_from_chars};

verus! {

/// The context given to an `nt_hive` error met while following a subpath.
pub open spec fn subpath_context(key_path: Seq<char>) -> Seq<char> {
    "failed to parse subpath `"@ + key_path + "`"@
}

/// The non-empty components of a backslash-separated key path.
pub fn split_key_path(key_path: &str) -> (segments: Vec<String>)
    ensures
        string_views(segments@) == path_segments(key_path@),
{
    let cs = chars_of(key_path);
    let n = cs.len();
    let mut segments: Vec<String> = Vec::new();
    let mut cur: Vec<char> = Vec::new();
    let mut i: usize = 0;
    assert(cs@.skip(0) =~= cs@);
    assert(string_views(segments@) =~= Seq::<Seq<char>>::empty());
    assert(cur@ =~= Seq::<char>::empty());
    while i < n
        invariant
            n == cs@.len(),
            cs@ == key_path@,
            i <= n,
            segments_from(cs@.skip(i as int), cur@, string_views(segments@)) == path_segments(key_path@),
        decreases n - i,
    {
        let ghost rest = cs@.skip(i as int);
        let ghost old_cur = cur@;
        let ghost old_done = string_views(segments@);
        assert(rest.drop_first() =~= cs@.skip(i as int + 1));
        assert(rest[0] == cs@[i as int]);
        if cs[i] == '\\' {
            if cur.len() > 0 {
                let seg = string_from_chars(cur.as_slice());
                segments.push(seg);
                assert(string_views(segments@) =~= old_done.push(old_cur));
            }
            cur = Vec::new();
            assert(cur@ =~= Seq::<char>::empty());
        } else {
            cur.push(cs[i]);
        }
        i = i + 1;
    }
    assert(cs@.skip(n as int) =~= Seq::<char>::empty());
    let ghost old_done = string_views(segments@);
    if cur.len() > 0 {
        let seg = string_from_chars(cur.as_slice());
        segments.push(seg);
        assert(string_views(segments@) =~= old_done.push(cur@));
    }
    segments
}

/// Locate a subkey under `root` given a backslash-separated path (empty
/// components are skipped).  A path that names no key gives
/// `NoSuchKeyPath` with its components.
pub fn find_subpath<'h>(root: &HiveKey<'h>, key_path: &str) -> (r: Result<HiveKey<'h>, ViewError>)
    ensures
        match subpath_result(*root, key_path@) {
            Some(Ok(k)) => r matches Ok(found) && found == k,
            Some(Err(_)) => r matches Err(e)
                && e matches ViewError::Hive { context, .. } && context@ == subpath_context(key_path@),
            None => r matches Err(e) && e matches ViewError::NoSuchKeyPath { key_path: p, segments }
                && p@ == key_path@ && string_views(segments@) == path_segments(key_path@),
        },
{
    proof { use_type_invariant(&root); }
    match key_node_subpath(root, key_path) {
        Some(Ok(node)) => Ok(node),
        Some(Err(e)) => {
            let mut context = String::from_str("failed to parse subpath `");
            push_str(&mut context, key_path);
            push_str(&mut context, "`");
            Err(wrap_hive_error_owned(e, context))
        },
        None => {
            let segments = split_key_path(key_path);
            Err(ViewError::NoSuchKeyPath { key_path: String::from_str(key_path), segments })
        },
    }
}


/// The components of a key path are non-empty and hold no backslash.
pub proof fn lemma_segments_are_clean(path: Seq<char>)
    ensures
        forall|i: int| 0 <= i < path_segments(path).len() ==> {
            &&& (#[trigger] path_segments(path)[i]).len() > 0
            &&& !path_segments(path)[i].contains('\\')
        },
{
    lemma_segments_from_clean(path, Seq::empty(), Seq::empty());
}

/// Splitting keeps clean components clean.
proof fn lemma_segments_from_clean(rest: Seq<char>, cur: Seq<char>, done: Seq<Seq<char>>)
    requires
        !cur.contains('\\'),
        forall|i: int| 0 <= i < done.len() ==> (#[trigger] done[i]).len() > 0 && !done[i].contains('\\'),
    ensures
        forall|i: int| 0 <= i < segments_from(rest, cur, done).len() ==> {
            &&& (#[trigger] segments_from(rest, cur, done)[i]).len() > 0
            &&& !segments_from(rest, cur, done)[i].contains('\\')
        },
    decreases rest.len(),
{
    if rest.len() == 0 {
        if cur.len() > 0 {
            let r = done.push(cur);
            assert forall|i: int| 0 <= i < r.len() implies (#[trigger] r[i]).len() > 0 && !r[i].contains('\\') by {
                if i < done.len() {
                    assert(r[i] == done[i]);
                } else {
                    assert(r[i] == cur);
                }
            }
        }
    } else if rest[0] == '\\' {
        let next_done = if cur.len() > 0 { done.push(cur) } else { done };
        assert forall|i: int| 0 <= i < next_done.len() implies (#[trigger] next_done[i]).len() > 0 && !next_done[i].contains('\\') by {
            if i < done.len() {
                assert(next_done[i] == done[i]);
            }
        }
        assert(!Seq::<char>::empty().contains('\\'));
        lemma_segments_from_clean(rest.drop_first(), Seq::empty(), next_done);
        assert(segments_from(rest, cur, done) == segments_from(rest.drop_first(), Seq::empty(), next_done));
    } else {
        let next_cur = cur.push(rest[0]);
        assert forall|j: int| 0 <= j < next_cur.len() implies next_cur[j] != '\\' by {
            if j < cur.len() {
                assert(next_cur[j] == cur[j]);
                assert(cur.contains(cur[j]));
            }
        }
        assert(!next_cur.contains('\\'));
        lemma_segments_from_clean(rest.drop_first(), next_cur, done);
        assert(segments_from(rest, cur, done) == segments_from(rest.drop_first(), next_cur, done));
    }
}

} // verus!
