//! The bounded list of argument positions that a request keeps, an
//! `ArrayVec` of the `arrayvec` crate with room for 256 positions.
//!
//! Verus cannot take `ArrayVec`'s declaration (its parameter is bounded by
//! `arrayvec`'s own `Array` trait), so the list is held in a private field of
//! [`Positions`], which Verus sees only through [`positions_of`] and the
//! wrappers below.

use arrayvec::ArrayVec;
use vstd::prelude::*;

verus! {

/// The argument positions of a request.
#[verifier::external_body]
#[derive(Debug)]
pub struct Positions {
    inner: ArrayVec<[usize; 256]>,
}

/// What a list of positions holds, first to last.
pub uninterp spec fn positions_of(v: Positions) -> Seq<usize>;

/// `ArrayVec::new`: a new list is empty.
#[verifier::external_body]
pub fn positions_new() -> (r: Positions)
    ensures
        positions_of(r) == Seq::<usize>::empty(),
{
    Positions { inner: ArrayVec::new() }
}

/// `ArrayVec::len`: the number of positions, never above the capacity of
/// 256.
#[verifier::external_body]
pub fn positions_len(v: &Positions) -> (r: usize)
    ensures
        r == positions_of(*v).len(),
        r <= 256,
{
    v.inner.len()
}

/// `ArrayVec::push`: the position is added last. It panics on a full list,
/// so a full list is not accepted.
#[verifier::external_body]
pub fn positions_push(v: &mut Positions, position: usize)
    requires
        positions_of(*old(v)).len() < 256,
    ensures
        positions_of(*final(v)) == positions_of(*old(v)).push(position),
{
    v.inner.push(position)
}

/// The position at `idx` (through the slice that `ArrayVec` derefs to),
/// if there is one.
#[verifier::external_body]
pub fn positions_get(v: &Positions, idx: usize) -> (r: Option<usize>)
    ensures
        r == if idx < positions_of(*v).len() {
            Some(positions_of(*v)[idx as int])
        } else {
            None::<usize>
        },
{
    v.inner.get(idx).copied()
}

/// `ArrayVec::clear`: the list is emptied.
#[verifier::external_body]
pub fn positions_clear(v: &mut Positions)
    ensures
        positions_of(*final(v)) == Seq::<usize>::empty(),
{
    v.inner.clear()
}

/// `ArrayVec::clone`: a copy with the same positions.
#[verifier::external_body]
pub fn positions_clone(v: &Positions) -> (r: Positions)
    ensures
        positions_of(r) == positions_of(*v),
{
    Positions { inner: v.inner.clone() }
}

} // verus!
