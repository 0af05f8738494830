//! Cutting UTF-8 text next to ASCII bytes keeps it UTF-8.
//!
//! Every piece that the atlas reader and the path functions hand out is cut
//! from a UTF-8 text right before or right after an ASCII byte, so each piece
//! is itself valid UTF-8 and can be turned back into a string.
use vstd::prelude::*;
use vstd::utf8::{
    is_char_boundary, is_char_boundary_iff_not_is_continuation_byte, is_char_boundary_start_end_of_seq,
    length_of_first_scalar, pop_first_scalar, valid_utf8, valid_utf8_concat, valid_utf8_split,
};

verus! {

/// Whether `p` is a place of `b` next to an ASCII byte, or one of its ends.
pub open spec fn is_ascii_cut(b: Seq<u8>, p: int) -> bool {
    ||| p == 0
    ||| p == b.len()
    ||| (0 <= p < b.len() && b[p] < 128)
    ||| (0 < p <= b.len() && b[p - 1] < 128)
}

/// Whether every byte of `b` is ASCII.
pub open spec fn all_ascii(b: Seq<u8>) -> bool {
    forall|k: int| 0 <= k < b.len() ==> #[trigger] b[k] < 128
}

proof fn lemma_boundary_after_ascii(b: Seq<u8>, q: int)
    requires
        valid_utf8(b),
        is_char_boundary(b, q),
        0 <= q < b.len(),
        b[q] < 128,
    ensures
        is_char_boundary(b, q + 1),
    decreases b.len(),
{
    let n = length_of_first_scalar(b);
    let p = pop_first_scalar(b);
    if q == 0 {
        assert(n == 1);
        assert(is_char_boundary(p, 0));
    } else {
        assert(is_char_boundary(b, q) == is_char_boundary(p, q - n));
        assert(q - n >= 0);
        assert(p.len() == b.len() - n);
        assert(p[q - n] == b[q]);
        lemma_boundary_after_ascii(p, q - n);
        assert(is_char_boundary(b, q + 1) == is_char_boundary(p, q + 1 - n));
    }
}

proof fn lemma_ascii_cut_is_boundary(b: Seq<u8>, p: int)
    requires
        valid_utf8(b),
        0 <= p <= b.len(),
        is_ascii_cut(b, p),
    ensures
        is_char_boundary(b, p),
{
    is_char_boundary_start_end_of_seq(b);
    if p == 0 || p == b.len() {
    } else if b[p] < 128 {
        is_char_boundary_iff_not_is_continuation_byte(b, p);
    } else {
        is_char_boundary_iff_not_is_continuation_byte(b, p - 1);
        lemma_boundary_after_ascii(b, p - 1);
    }
}

/// The bytes of a valid UTF-8 text between two places next to ASCII bytes
/// are valid UTF-8.
pub proof fn lemma_cut_valid(b: Seq<u8>, i: int, j: int)
    requires
        valid_utf8(b),
        0 <= i <= j <= b.len(),
        is_ascii_cut(b, i),
        is_ascii_cut(b, j),
    ensures
        valid_utf8(b.subrange(i, j)),
{
    lemma_ascii_cut_is_boundary(b, i);
    lemma_ascii_cut_is_boundary(b, j);
    valid_utf8_split(b, i);
    let c = b.subrange(i, b.len() as int);
    if j == b.len() {
        assert(b.subrange(i, j) =~= c);
    } else {
        is_char_boundary_iff_not_is_continuation_byte(b, j);
        assert(c[j - i] == b[j]);
        is_char_boundary_iff_not_is_continuation_byte(c, j - i);
        valid_utf8_split(c, j - i);
        assert(c.subrange(0, j - i) =~= b.subrange(i, j));
    }
}

/// Bytes that are all ASCII are valid UTF-8.
pub proof fn lemma_ascii_valid(b: Seq<u8>)
    requires
        all_ascii(b),
    ensures
        valid_utf8(b),
    decreases b.len(),
{
    if b.len() > 0 {
        let p = pop_first_scalar(b);
        assert(p =~= b.subrange(1, b.len() as int));
        assert forall|k: int| 0 <= k < p.len() implies #[trigger] p[k] < 128 by {
            assert(p[k] == b[k + 1]);
        }
        lemma_ascii_valid(p);
    }
}

/// Two valid UTF-8 byte strings joined are valid UTF-8.
pub proof fn lemma_join_valid(a: Seq<u8>, b: Seq<u8>)
    requires
        valid_utf8(a),
        valid_utf8(b),
    ensures
        valid_utf8(a + b),
{
    valid_utf8_concat(a, b);
}

} // verus!
