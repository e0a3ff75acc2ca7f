//! Byte-level comparisons on UTF-8 strings.
//!
//! Match rules compare a pattern against a request's path or header either by
//! full equality or as a byte prefix. Both comparisons run over the UTF-8
//! bytes of the two strings; since UTF-8 encoding is injective, byte equality
//! coincides with character equality.

use vstd::prelude::*;
use vstd::utf8::{encode_utf8, encode_utf8_decode_utf8};

verus! {

/// The UTF-8 bytes of `p` form a prefix of the UTF-8 bytes of `s`.
pub open spec fn is_byte_prefix(p: Seq<char>, s: Seq<char>) -> bool {
    encode_utf8(p).is_prefix_of(encode_utf8(s))
}

/// UTF-8 encoding is injective: equal encodings decode to equal strings.
pub proof fn lemma_encode_utf8_injective(a: Seq<char>, b: Seq<char>)
    requires
        encode_utf8(a) == encode_utf8(b),
    ensures
        a == b,
{
    encode_utf8_decode_utf8(a);
    encode_utf8_decode_utf8(b);
}

/// Full string equality, decided over the UTF-8 bytes of the two strings.
pub fn str_eq(a: &str, b: &str) -> (r: bool)
    ensures
        r == (a@ == b@),
{
    let ab = a.as_bytes();
    let bb = b.as_bytes();
    if ab.len() != bb.len() {
        return false;
    }
    let n = ab.len();
    let mut i: usize = 0;
    while i < n
        invariant
            n == ab@.len() == bb@.len(),
            i <= n,
            ab@ == encode_utf8(a@),
            bb@ == encode_utf8(b@),
            forall|j: int| 0 <= j < i ==> ab@[j] == bb@[j],
        decreases n - i,
    {
        if ab[i] != bb[i] {
            return false;
        }
        i += 1;
    }
    proof {
        assert(ab@ =~= bb@);
        lemma_encode_utf8_injective(a@, b@);
    }
    true
}

/// Whether the string `s` starts with the pattern `p`, decided bytewise.
pub fn str_starts_with(s: &str, p: &str) -> (r: bool)
    ensures
        r == is_byte_prefix(p@, s@),
{
    let sb = s.as_bytes();
    let pb = p.as_bytes();
    if pb.len() > sb.len() {
        return false;
    }
    let n = pb.len();
    let mut i: usize = 0;
    while i < n
        invariant
            n == pb@.len() <= sb@.len(),
            i <= n,
            pb@ == encode_utf8(p@),
            sb@ == encode_utf8(s@),
            forall|j: int| 0 <= j < i ==> pb@[j] == sb@[j],
        decreases n - i,
    {
        if pb[i] != sb[i] {
            return false;
        }
        i += 1;
    }
    proof {
        assert(pb@ =~= sb@.subrange(0, n as int));
    }
    true
}

} // verus!

