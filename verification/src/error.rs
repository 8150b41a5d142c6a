//! The library's error type.
//!
//! Every failure of a subcommand is one of these variants; `message` gives
//! the line shown to the user and `cause` the underlying `nt_hive` text
//! where there is one.

use vstd::prelude::*;
use nt_hive::NtHiveError;
use crate::hive::nt::{hive_error_message, hive_error_text};
use crate::output::text::{dec, join, push_decimal, push_str};

verus! {

/// Deepest key nesting the recursive walks accept.
pub const MAX_TRAVERSAL_DEPTH: usize = 512;

/// Most keys `find` scans in one hive.
pub const MAX_SCANNED_KEYS: usize = 1000000;

/// Largest hive file accepted, in bytes.
pub const MAX_HIVE_SIZE: u64 = 1073741824;

/// Why a subcommand failed.
pub enum ViewError {
    /// `nt_hive` reported `cause` while the library was doing `context`.
    Hive { context: String, cause: String },
    /// `key_path` names no key; `segments` are its non-empty components.
    NoSuchKeyPath { key_path: String, segments: Vec<String> },
    /// Keys are nested deeper than `MAX_TRAVERSAL_DEPTH`.
    NestingTooDeep,
    /// The hive holds more keys than `MAX_SCANNED_KEYS`.
    TooManyKeys,
    /// A list holds more items than a `usize` counts.
    TooManyEntries,
    /// The hive file at `path` has `size` bytes, more than `MAX_HIVE_SIZE`.
    TooLarge { path: String, size: u64 },
    /// The hive file at `path` grew past `MAX_HIVE_SIZE` while it was read.
    GrewBeyondLimit { path: String },
}

/// The components of a key path: the non-empty pieces between backslashes.
pub open spec fn path_segments(path: Seq<char>) -> Seq<Seq<char>> {
    segments_from(path, Seq::empty(), Seq::empty())
}

/// Splitting the rest of a path, with `cur` the component read so far and
/// `done` the components already complete.
pub open spec fn segments_from(rest: Seq<char>, cur: Seq<char>, done: Seq<Seq<char>>) -> Seq<Seq<char>>
    decreases rest.len(),
{
    if rest.len() == 0 {
        if cur.len() > 0 { done.push(cur) } else { done }
    } else if rest[0] == '\\' {
        segments_from(rest.drop_first(), Seq::empty(), if cur.len() > 0 { done.push(cur) } else { done })
    } else {
        segments_from(rest.drop_first(), cur.push(rest[0]), done)
    }
}

/// The views of a list of strings.
pub open spec fn string_views(v: Seq<String>) -> Seq<Seq<char>> {
    v.map_values(|s: String| s@)
}

/// `a` and `b` are the same error: the same variant with fields of the
/// same text.
pub open spec fn same_error(a: ViewError, b: ViewError) -> bool {
    match a {
        ViewError::Hive { context: c1, cause: u1 } =>
            b matches ViewError::Hive { context: c2, cause: u2 } && c1@ == c2@ && u1@ == u2@,
        ViewError::NoSuchKeyPath { key_path: p1, segments: s1 } =>
            b matches ViewError::NoSuchKeyPath { key_path: p2, segments: s2 } && p1@ == p2@
                && string_views(s1@) == string_views(s2@),
        ViewError::NestingTooDeep => b is NestingTooDeep,
        ViewError::TooManyKeys => b is TooManyKeys,
        ViewError::TooManyEntries => b is TooManyEntries,
        ViewError::TooLarge { path: p1, size: z1 } =>
            b matches ViewError::TooLarge { path: p2, size: z2 } && p1@ == p2@ && z1 == z2,
        ViewError::GrewBeyondLimit { path: p1 } =>
            b matches ViewError::GrewBeyondLimit { path: p2 } && p1@ == p2@,
    }
}

/// The line shown for an error.
pub open spec fn message_spec(e: ViewError) -> Seq<char> {
    match e {
        ViewError::Hive { context, cause } => context@,
        ViewError::NoSuchKeyPath { key_path, segments } =>
            "no such key path `"@ + key_path@ + "` (segments: "@
                + join(string_views(segments@), " / "@) + ")"@,
        ViewError::NestingTooDeep =>
            "registry key nesting exceeds the safety limit of "@ + dec(MAX_TRAVERSAL_DEPTH as nat) + " levels"@,
        ViewError::TooManyKeys =>
            "registry contains more than "@ + dec(MAX_SCANNED_KEYS as nat) + " keys"@,
        ViewError::TooManyEntries => "registry list holds more entries than can be counted"@,
        ViewError::TooLarge { path, size } =>
            "hive file `"@ + path@ + "` is too large ("@ + dec(size as nat) + " bytes; limit is "@
                + dec(MAX_HIVE_SIZE as nat) + " bytes)"@,
        ViewError::GrewBeyondLimit { path } =>
            "hive file `"@ + path@ + "` grew beyond the size limit"@,
    }
}

impl ViewError {
    /// The line shown for this error (its outermost context).
    pub fn message(&self) -> (m: String)
        ensures
            m@ == message_spec(*self),
    {
        match self {
            ViewError::Hive { context, cause } => context.clone(),
            ViewError::NoSuchKeyPath { key_path, segments } => {
                let mut m = String::from_str("no such key path `");
                push_str(&mut m, key_path.as_str());
                push_str(&mut m, "` (segments: ");
                push_joined(&mut m, segments, " / ");
                push_str(&mut m, ")");
                m
            },
            ViewError::NestingTooDeep => {
                let mut m = String::from_str("registry key nesting exceeds the safety limit of ");
                push_decimal(&mut m, MAX_TRAVERSAL_DEPTH as u64);
                push_str(&mut m, " levels");
                m
            },
            ViewError::TooManyKeys => {
                let mut m = String::from_str("registry contains more than ");
                push_decimal(&mut m, MAX_SCANNED_KEYS as u64);
                push_str(&mut m, " keys");
                m
            },
            ViewError::TooManyEntries => String::from_str("registry list holds more entries than can be counted"),
            ViewError::TooLarge { path, size } => {
                let mut m = String::from_str("hive file `");
                push_str(&mut m, path.as_str());
                push_str(&mut m, "` is too large (");
                push_decimal(&mut m, *size);
                push_str(&mut m, " bytes; limit is ");
                push_decimal(&mut m, MAX_HIVE_SIZE);
                push_str(&mut m, " bytes)");
                m
            },
            ViewError::GrewBeyondLimit { path } => {
                let mut m = String::from_str("hive file `");
                push_str(&mut m, path.as_str());
                push_str(&mut m, "` grew beyond the size limit");
                m
            },
        }
    }

    /// The `nt_hive` error text underneath this error, if there is one.
    pub fn cause(&self) -> (c: Option<String>)
        ensures
            c matches Some(t) ==> self matches ViewError::Hive { cause, .. } && t@ == cause@,
            c is None ==> !(self is Hive),
    {
        match self {
            ViewError::Hive { context, cause } => Some(cause.clone()),
            _ => None,
        }
    }
}

/// Appends the strings of `parts` with `sep` between neighbours.
pub fn push_joined(s: &mut String, parts: &Vec<String>, sep: &str)
    ensures
        final(s)@ == old(s)@ + join(string_views(parts@), sep@),
{
    let ghost start = s@;
    let n = parts.len();
    let mut i: usize = 0;
    while i < n
        invariant
            n == parts@.len(),
            i <= n,
            s@ == start + join(string_views(parts@.take(i as int)), sep@),
        decreases n - i,
    {
        let ghost prev = s@;
        if i > 0 {
            push_str(s, sep);
        }
        push_str(s, parts[i].as_str());
        proof {
            let taken = string_views(parts@.take(i as int + 1));
            assert(taken.drop_last() =~= string_views(parts@.take(i as int)));
            assert(taken.last() == parts@[i as int]@);
            if i == 0 {
                assert(string_views(parts@.take(0)) =~= Seq::<Seq<char>>::empty());
                assert(s@ =~= start + join(taken, sep@));
            } else {
                assert(s@ =~= start + join(taken, sep@));
            }
        }
        i = i + 1;
    }
    assert(parts@.take(n as int) =~= parts@);
}

/// Wrap an `nt_hive` error together with what the library was doing.
pub fn wrap_hive_error(e: NtHiveError, context: &str) -> (r: ViewError)
    ensures
        r matches ViewError::Hive { context: c, cause } && c@ == context@ && cause@ == hive_error_text(e),
{
    ViewError::Hive { context: String::from_str(context), cause: hive_error_message(&e) }
}

/// Same as [`wrap_hive_error`] but takes an owned context (e.g. one that
/// was built from a key path).
pub fn wrap_hive_error_owned(e: NtHiveError, context: String) -> (r: ViewError)
    ensures
        r matches ViewError::Hive { context: c, cause } && c@ == context@ && cause@ == hive_error_text(e),
{
    ViewError::Hive { context, cause: hive_error_message(&e) }
}

} // verus!
