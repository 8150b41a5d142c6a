//! Output helpers shared by every subcommand.
//!
//! `Stats` is the shape every subcommand's payload shares under the same
//! top-level keys (`path`, `file_size_bytes`, `minor_version`).
//! `truncate_with_ellipsis` and `escape_control_chars` are the shared
//! text helpers; `hex` and `value` render raw and typed value data.

pub mod hex;
pub mod text;
pub mod value;

use vstd::prelude::*;
use crate::output::text::{chars_of, hex_min, push_char, push_chars, push_hex_min, string_from_chars};

verus! {

/// Unicode general category Cc, the characters `char::is_control` accepts.
pub open spec fn is_control(c: char) -> bool {
    (c as nat) <= 0x1f || (0x7f <= (c as nat) && (c as nat) <= 0x9f)
}

/// What `char::escape_default` yields for a control character.
pub open spec fn escape_control(c: char) -> Seq<char> {
    if c == '\t' {
        seq!['\\', 't']
    } else if c == '\r' {
        seq!['\\', 'r']
    } else if c == '\n' {
        seq!['\\', 'n']
    } else {
        seq!['\\', 'u', '{'] + hex_min(c as nat) + seq!['}']
    }
}

/// One character of `escape_control_chars`' output.
pub open spec fn escape_char(c: char) -> Seq<char> {
    if is_control(c) {
        escape_control(c)
    } else {
        seq![c]
    }
}

/// `s` with every control character escaped and everything else kept.
pub open spec fn escape_spec(s: Seq<char>) -> Seq<char>
    decreases s.len(),
{
    if s.len() == 0 {
        Seq::empty()
    } else {
        escape_spec(s.drop_last()) + escape_char(s.last())
    }
}

/// The ellipsis appended by `truncate_with_ellipsis`.
pub open spec fn ellipsis() -> char {
    '\u{2026}'
}

/// `s` cut to `max_chars` characters, ending in an ellipsis when it was longer.
pub open spec fn truncate_spec(s: Seq<char>, max_chars: nat) -> Seq<char> {
    if s.len() <= max_chars {
        s
    } else {
        let keep: nat = if max_chars == 0 { 0 } else { (max_chars - 1) as nat };
        s.take(keep as int).push(ellipsis())
    }
}

/// Whether `c` is a control character (as `char::is_control` decides).
fn char_is_control(c: char) -> (b: bool)
    ensures
        b == is_control(c),
{
    let n = c as u32;
    n <= 0x1f || (0x7f <= n && n <= 0x9f)
}

/// Appends `escape_char(c)`.
fn push_escaped_char(s: &mut String, c: char)
    ensures
        final(s)@ == old(s)@ + escape_char(c),
{
    let ghost start = s@;
    if !char_is_control(c) {
        push_char(s, c);
    } else if c == '\t' {
        push_char(s, '\\');
        push_char(s, 't');
        assert(s@ =~= start + escape_char(c));
    } else if c == '\r' {
        push_char(s, '\\');
        push_char(s, 'r');
        assert(s@ =~= start + escape_char(c));
    } else if c == '\n' {
        push_char(s, '\\');
        push_char(s, 'n');
        assert(s@ =~= start + escape_char(c));
    } else {
        push_char(s, '\\');
        push_char(s, 'u');
        push_char(s, '{');
        push_hex_min(s, c as u32);
        push_char(s, '}');
        assert(s@ =~= start + escape_char(c));
    }
}

/// Appends `escape_spec(cs)`.
pub fn push_escaped(s: &mut String, cs: &[char])
    ensures
        final(s)@ == old(s)@ + escape_spec(cs@),
{
    let ghost start = s@;
    let n = cs.len();
    let mut i: usize = 0;
    while i < n
        invariant
            n == cs@.len(),
            i <= n,
            s@ == start + escape_spec(cs@.take(i as int)),
        decreases n - i,
    {
        push_escaped_char(s, cs[i]);
        assert(cs@.take(i as int + 1).drop_last() =~= cs@.take(i as int));
        i = i + 1;
    }
    assert(cs@.take(n as int) =~= cs@);
}

/// Escape terminal control characters while preserving printable Unicode.
pub fn escape_control_chars(value: &str) -> (escaped: String)
    ensures
        escaped@ == escape_spec(value@),
{
    let cs = chars_of(value);
    let mut escaped = String::new();
    push_escaped(&mut escaped, cs.as_slice());
    assert(Seq::<char>::empty() + escape_spec(value@) =~= escape_spec(value@));
    escaped
}

/// File-level (hive-wide) facts that every subcommand's payload shares.
pub struct Stats {
    /// The path the hive was loaded from, as displayed to the user.
    pub path: String,
    /// Size of the hive data in bytes.
    pub file_size_bytes: u64,
    /// The hive's minor version (e.g. 5 = Windows XP) from its base block.
    pub minor_version: u32,
}

impl Stats {
    /// Construct the `Stats` shared base from a hive path, its size, and
    /// the hive's minor version.
    pub fn from_hive(path: &str, file_size_bytes: u64, minor_version: u32) -> (stats: Self)
        ensures
            stats.path@ == path@,
            stats.file_size_bytes == file_size_bytes,
            stats.minor_version == minor_version,
    {
        Stats { path: String::from_str(path), file_size_bytes, minor_version }
    }
}

/// Truncate a string to `max_chars` characters, appending `…` if it was
/// longer. Counts by Unicode scalar value (Rust `char`), not bytes.
pub fn truncate_with_ellipsis(s: &str, max_chars: usize) -> (out: String)
    ensures
        out@ == truncate_spec(s@, max_chars as nat),
{
    let cs = chars_of(s);
    truncate_chars(cs.as_slice(), max_chars)
}

/// `truncate_with_ellipsis` on a character slice.
pub fn truncate_chars(cs: &[char], max_chars: usize) -> (out: String)
    ensures
        out@ == truncate_spec(cs@, max_chars as nat),
{
    if cs.len() <= max_chars {
        string_from_chars(cs)
    } else {
        let keep: usize = if max_chars == 0 { 0 } else { max_chars - 1 };
        let mut out = String::new();
        push_chars(&mut out, &cs[0..keep]);
        push_char(&mut out, '\u{2026}');
        assert(out@ =~= truncate_spec(cs@, max_chars as nat));
        out
    }
}


/// Escaping leaves no control character in the text.
pub proof fn lemma_escape_leaves_no_control(s: Seq<char>)
    ensures
        forall|i: int| 0 <= i < escape_spec(s).len() ==> !is_control(#[trigger] escape_spec(s)[i]),
    decreases s.len(),
{
    if s.len() > 0 {
        lemma_escape_leaves_no_control(s.drop_last());
        let c = s.last();
        lemma_hex_min_digits(c as nat);
        let e = escape_char(c);
        assert forall|i: int| 0 <= i < e.len() implies !is_control(#[trigger] e[i]) by {
            if is_control(c) && c != '\t' && c != '\r' && c != '\n' && 3 <= i < e.len() - 1 {
                assert(e[i] == hex_min(c as nat)[i - 3]);
            }
        }
        let prev = escape_spec(s.drop_last());
        assert forall|i: int| 0 <= i < escape_spec(s).len() implies !is_control(#[trigger] escape_spec(s)[i]) by {
            if i < prev.len() {
                assert(escape_spec(s)[i] == prev[i]);
            } else {
                assert(escape_spec(s)[i] == e[i - prev.len()]);
            }
        }
    }
}

/// The digits of `hex_min` are `0`-`9` and `a`-`f`.
pub proof fn lemma_hex_min_digits(n: nat)
    ensures
        forall|i: int| 0 <= i < hex_min(n).len() ==> {
            let c = #[trigger] hex_min(n)[i];
            ('0' <= c && c <= '9') || ('a' <= c && c <= 'f')
        },
    decreases n,
{
    if n >= 16 {
        lemma_hex_min_digits(n / 16);
        let h = hex_min(n);
        assert forall|i: int| 0 <= i < h.len() implies {
            let c = #[trigger] h[i];
            ('0' <= c && c <= '9') || ('a' <= c && c <= 'f')
        } by {
            if i < h.len() - 1 {
                assert(h[i] == hex_min(n / 16)[i]);
            }
        }
    }
}

/// Text without control characters passes through escaping unchanged.
pub proof fn lemma_escape_keeps_plain_text(s: Seq<char>)
    requires
        forall|i: int| 0 <= i < s.len() ==> !is_control(#[trigger] s[i]),
    ensures
        escape_spec(s) == s,
    decreases s.len(),
{
    if s.len() > 0 {
        assert(!is_control(s[s.len() - 1]));
        lemma_escape_keeps_plain_text(s.drop_last());
        assert(s.drop_last().push(s.last()) =~= s);
    }
}

/// A truncated string never has more than `max_chars` characters (one, the
/// ellipsis, when `max_chars` is 0 and the string is not empty), and a
/// string that fits is returned whole.
pub proof fn lemma_truncate_length(s: Seq<char>, max_chars: nat)
    ensures
        s.len() <= max_chars ==> truncate_spec(s, max_chars) == s,
        s.len() > max_chars ==> truncate_spec(s, max_chars).len() == if max_chars == 0 { 1 } else { max_chars },
        s.len() > max_chars ==> truncate_spec(s, max_chars).last() == ellipsis(),
{
}

} // verus!
