//! Hex dumps of raw value data.

use vstd::prelude::*;
use crate::output::text::{hex_fixed, push_char, push_hex_u8};

verus! {

/// Space-separated two-digit lowercase hex pairs of `bytes`.
pub open spec fn hex_dump_spec(bytes: Seq<u8>) -> Seq<char>
    decreases bytes.len(),
{
    if bytes.len() == 0 {
        Seq::empty()
    } else if bytes.len() == 1 {
        hex_fixed(bytes[0] as nat, 2)
    } else {
        hex_dump_spec(bytes.drop_last()).push(' ') + hex_fixed(bytes.last() as nat, 2)
    }
}

/// Render `bytes` as space-separated lowercase hex pairs. Caller is
/// responsible for any truncation / size annotation.
pub fn hex_dump(bytes: &[u8]) -> (s: String)
    ensures
        s@ == hex_dump_spec(bytes@),
{
    let mut s = String::new();
    let n = bytes.len();
    let mut i: usize = 0;
    while i < n
        invariant
            n == bytes@.len(),
            i <= n,
            s@ == hex_dump_spec(bytes@.take(i as int)),
        decreases n - i,
    {
        let ghost prev = s@;
        if i > 0 {
            push_char(&mut s, ' ');
        }
        push_hex_u8(&mut s, bytes[i]);
        assert(bytes@.take(i as int + 1).drop_last() =~= bytes@.take(i as int));
        i = i + 1;
    }
    assert(bytes@.take(n as int) =~= bytes@);
    s
}


/// A dump of `n` bytes is `3n - 1` characters long (two hex digits per
/// byte, one space between neighbours), and empty for no bytes.
pub proof fn lemma_hex_dump_length(bytes: Seq<u8>)
    ensures
        hex_dump_spec(bytes).len() == if bytes.len() == 0 { 0 } else { 3 * bytes.len() - 1 },
    decreases bytes.len(),
{
    lemma_hex_fixed_length(bytes.last() as nat, 2);
    if bytes.len() > 1 {
        lemma_hex_dump_length(bytes.drop_last());
    }
}

/// `hex_fixed(n, w)` has `w` characters.
pub proof fn lemma_hex_fixed_length(n: nat, width: nat)
    ensures
        hex_fixed(n, width).len() == width,
    decreases width,
{
    if width > 0 {
        lemma_hex_fixed_length(n / 16, (width - 1) as nat);
    }
}

} // verus!
