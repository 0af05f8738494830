//! The four numbers of an atlas attribute, collected into an `ArrayVec` with
//! room for exactly four.
use vstd::prelude::*;
use arrayvec::ArrayVec;
use crate::atlas::text::{copy_range, find_pair, find_pair_from, lemma_find_pair_from, split_pair_from};
use crate::atlas::AtlasError;

verus! {

pub const COMMA: u8 = 44;

pub const SPACE: u8 = 32;

/// Makes `arrayvec::ArrayVec` known to Verus as an opaque type.
#[verifier::external_type_specification]
#[verifier::external_body]
#[verifier::reject_recursive_types(T)]
pub struct ExArrayVec<T, const CAP: usize>(ArrayVec<T, CAP>);

/// The byte strings that an `ArrayVec` with room for four holds, in order
/// (the views of its first `len` elements). Only the contracts of the three
/// wrappers below say anything of it.
pub uninterp spec fn held_values(v: ArrayVec<Vec<u8>, 4>) -> Seq<Seq<u8>>;

/// Calls `arrayvec::ArrayVec::new`. Trusted, not proved: the new vector holds
/// nothing (the source sets its length to 0).
#[verifier::external_body]
fn new_value_list() -> (v: ArrayVec<Vec<u8>, 4>)
    ensures
        held_values(v) == Seq::<Seq<u8>>::empty(),
{
    ArrayVec::new()
}

/// Calls `arrayvec::ArrayVec::try_push`. Trusted, not proved: when fewer than
/// four values are held it appends `x` and returns `Ok`; otherwise it leaves
/// the vector as it was and returns a `CapacityError`. `true` stands for `Ok`.
#[verifier::external_body]
fn try_push_value(v: &mut ArrayVec<Vec<u8>, 4>, x: Vec<u8>) -> (pushed: bool)
    ensures
        pushed == (held_values(*old(v)).len() < 4),
        pushed ==> held_values(*final(v)) == held_values(*old(v)).push(x@),
        !pushed ==> held_values(*final(v)) == held_values(*old(v)),
{
    v.try_push(x).is_ok()
}

/// Calls `arrayvec::ArrayVec::into_inner`. Trusted, not proved: when the
/// length is not below the capacity (four) it returns the array of the held
/// values in order, otherwise it returns the vector as an error (`None` here).
#[verifier::external_body]
fn into_value_array(v: ArrayVec<Vec<u8>, 4>) -> (r: Option<[Vec<u8>; 4]>)
    ensures
        r is Some <==> held_values(v).len() >= 4,
        r matches Some(a) ==> forall|k: int| 0 <= k < 4 ==> (#[trigger] a@[k])@ == held_values(v)[k],
{
    match v.into_inner() {
        Ok(a) => Some(a),
        Err(_) => None,
    }
}

/// The pieces of `s` separated by `", "`, when there are exactly four.
pub open spec fn four_values(s: Seq<u8>) -> Result<Seq<Seq<u8>>, AtlasError> {
    let parts = split_pair_from(s, COMMA, SPACE, 0);
    if parts.len() > 4 {
        Err(AtlasError::TooManyValues)
    } else if parts.len() < 4 {
        Err(AtlasError::TooFewValues)
    } else {
        Ok(parts)
    }
}

/// The four pieces of `s` separated by `", "`; an error when there are more
/// or fewer.
pub fn parse_values(s: &[u8]) -> (r: Result<[Vec<u8>; 4], AtlasError>)
    ensures
        r matches Ok(a) ==> four_values(s@) matches Ok(parts) && forall|k: int|
            0 <= k < 4 ==> (#[trigger] a@[k])@ == parts[k],
        r matches Err(e) ==> four_values(s@) == Err::<Seq<Seq<u8>>, AtlasError>(e),
{
    let ghost all = split_pair_from(s@, COMMA, SPACE, 0);
    let len = s.len();
    let mut list = new_value_list();
    let mut pos: usize = 0;
    let mut next = find_pair(s, COMMA, SPACE, 0);
    let ghost mut acc: Seq<Seq<u8>> = Seq::empty();
    assert(acc + split_pair_from(s@, COMMA, SPACE, 0) =~= all);
    while next.is_some()
        invariant
            pos <= s@.len(),
            len == s@.len(),
            held_values(list) == acc,
            acc.len() <= 4,
            acc + split_pair_from(s@, COMMA, SPACE, pos as int) == all,
            all == split_pair_from(s@, COMMA, SPACE, 0),
            next matches Some(j) ==> find_pair_from(s@, COMMA, SPACE, pos as int) == Some(j as int),
            next is None ==> find_pair_from(s@, COMMA, SPACE, pos as int) is None,
        decreases s@.len() - pos,
    {
        let j = next.unwrap();
        proof {
            lemma_find_pair_from(s@, COMMA, SPACE, pos as int);
        }
        let piece = copy_range(s, pos, j);
        let ghost piece_view = piece@;
        let ghost rest = split_pair_from(s@, COMMA, SPACE, j + 2);
        assert(split_pair_from(s@, COMMA, SPACE, pos as int) == seq![piece_view] + rest);
        if !try_push_value(&mut list, piece) {
            assert(all.len() == acc.len() + 1 + rest.len());
            proof {
                lemma_split_nonempty(s@, j + 2);
            }
            return Err(AtlasError::TooManyValues);
        }
        proof {
            acc = acc.push(piece_view);
            assert(acc + rest =~= all);
        }
        pos = j + 2;
        next = find_pair(s, COMMA, SPACE, pos);
    }
    let last = copy_range(s, pos, len);
    let ghost last_view = last@;
    assert(split_pair_from(s@, COMMA, SPACE, pos as int) == seq![last_view]);
    if !try_push_value(&mut list, last) {
        assert(all.len() == acc.len() + 1);
        return Err(AtlasError::TooManyValues);
    }
    proof {
        acc = acc.push(last_view);
        assert(acc =~= all);
    }
    match into_value_array(list) {
        Some(a) => Ok(a),
        None => Err(AtlasError::TooFewValues),
    }
}

proof fn lemma_split_nonempty(s: Seq<u8>, i: int)
    requires
        0 <= i <= s.len(),
    ensures
        split_pair_from(s, COMMA, SPACE, i).len() >= 1,
{
}

} // verus!
