//! Raw byte order on file names.
//!
//! Directory-range selection compares file names by the bytes of their
//! UTF-8 encoding, not numerically and not locale-aware.

use vstd::prelude::*;
use vstd::string::StringSliceAdditionalSpecFns;

verus! {

/// Lexicographic "less than or equal" on byte sequences, read from
/// position `i` on (the bytes before `i` are assumed equal).
pub open spec fn lex_le_from(a: Seq<u8>, b: Seq<u8>, i: int) -> bool
    decreases a.len() - i,
{
    if i >= a.len() {
        true
    } else if i >= b.len() {
        false
    } else if a[i] != b[i] {
        a[i] < b[i]
    } else {
        lex_le_from(a, b, i + 1)
    }
}

/// Lexicographic "less than or equal" on whole byte sequences.
pub open spec fn lex_le(a: Seq<u8>, b: Seq<u8>) -> bool {
    lex_le_from(a, b, 0)
}

/// Raw-name order: the UTF-8 bytes of the names, compared lexicographically.
pub open spec fn name_le(a: Seq<char>, b: Seq<char>) -> bool {
    lex_le(vstd::utf8::encode_utf8(a), vstd::utf8::encode_utf8(b))
}

/// The byte order is total: of two byte sequences, one is `<=` the other.
pub proof fn lemma_lex_le_from_total(a: Seq<u8>, b: Seq<u8>, i: int)
    ensures
        lex_le_from(a, b, i) || lex_le_from(b, a, i),
    decreases a.len() - i,
{
    if i < a.len() && i < b.len() && a[i] == b[i] {
        lemma_lex_le_from_total(a, b, i + 1);
    }
}

/// The byte order is transitive.
pub proof fn lemma_lex_le_from_trans(a: Seq<u8>, b: Seq<u8>, c: Seq<u8>, i: int)
    requires
        lex_le_from(a, b, i),
        lex_le_from(b, c, i),
    ensures
        lex_le_from(a, c, i),
    decreases a.len() - i,
{
    if i >= a.len() {
    } else {
        if i < b.len() && i < c.len() && a[i] == b[i] && b[i] == c[i] {
            lemma_lex_le_from_trans(a, b, c, i + 1);
        }
    }
}

/// The byte order is antisymmetric: two sequences `<=` each other agree
/// from `i` on, and have the same length.
pub proof fn lemma_lex_le_from_antisym(a: Seq<u8>, b: Seq<u8>, i: int)
    requires
        0 <= i <= a.len(),
        i <= b.len(),
        lex_le_from(a, b, i),
        lex_le_from(b, a, i),
    ensures
        a.len() == b.len(),
        forall|k: int| i <= k < a.len() ==> a[k] == b[k],
    decreases a.len() - i,
{
    if i >= a.len() {
        assert(b.len() <= i);
    } else {
        assert(i < b.len());
        assert(a[i] == b[i]);
        lemma_lex_le_from_antisym(a, b, i + 1);
    }
}

/// `name_le` is antisymmetric: names `<=` each other are the same name.
pub proof fn lemma_name_le_antisym(a: Seq<char>, b: Seq<char>)
    requires
        name_le(a, b),
        name_le(b, a),
    ensures
        a == b,
{
    let ea = vstd::utf8::encode_utf8(a);
    let eb = vstd::utf8::encode_utf8(b);
    lemma_lex_le_from_antisym(ea, eb, 0);
    assert(ea =~= eb);
    vstd::utf8::encode_utf8_decode_utf8(a);
    vstd::utf8::encode_utf8_decode_utf8(b);
}

/// `name_le` is total: any two names are ordered one way or the other.
pub proof fn lemma_name_le_total(a: Seq<char>, b: Seq<char>)
    ensures
        name_le(a, b) || name_le(b, a),
{
    lemma_lex_le_from_total(vstd::utf8::encode_utf8(a), vstd::utf8::encode_utf8(b), 0);
}

/// `name_le` is transitive.
pub proof fn lemma_name_le_trans(a: Seq<char>, b: Seq<char>, c: Seq<char>)
    requires
        name_le(a, b),
        name_le(b, c),
    ensures
        name_le(a, c),
{
    lemma_lex_le_from_trans(
        vstd::utf8::encode_utf8(a),
        vstd::utf8::encode_utf8(b),
        vstd::utf8::encode_utf8(c),
        0,
    );
}

/// Decides `name_le` on two names.
pub fn name_le_exec(a: &str, b: &str) -> (r: bool)
    ensures
        r == name_le(a@, b@),
{
    let ab = a.as_bytes_vec();
    let bb = b.as_bytes_vec();
    let mut i: usize = 0;
    loop
        invariant
            ab@ == a.spec_bytes(),
            bb@ == b.spec_bytes(),
            i <= ab@.len(),
            i <= bb@.len(),
            lex_le(ab@, bb@) == lex_le_from(ab@, bb@, i as int),
        decreases ab@.len() - i,
    {
        if i >= ab.len() {
            return true;
        }
        if i >= bb.len() {
            return false;
        }
        let x = ab[i];
        let y = bb[i];
        if x != y {
            return x < y;
        }
        i = i + 1;
    }
}

} // verus!
