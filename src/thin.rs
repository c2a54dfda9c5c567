use vstd::prelude::*;

use thincollections::thin_vec::ThinVec;

use crate::pieces::Move;

verus! {

/// The vector of `thincollections` that move lists are handed out in.
#[verifier::external_type_specification]
#[verifier::external_body]
#[verifier::reject_recursive_types(T)]
pub struct ExThinVec<T>(ThinVec<T>);

/// The moves a `ThinVec` holds, in order.
pub uninterp spec fn thin_moves(v: ThinVec<Move>) -> Seq<Move>;

/// Relies on `ThinVec::with_capacity`: the new vector holds nothing.
#[verifier::external_body]
pub(crate) fn new_move_list(capacity: usize) -> (r: ThinVec<Move>)
    ensures
        thin_moves(r) == Seq::<Move>::empty(),
{
    ThinVec::with_capacity(capacity)
}

/// Relies on `ThinVec::push`: the move is appended at the back; the push panics only when
/// the length would overflow.
#[verifier::external_body]
pub(crate) fn push_move(v: &mut ThinVec<Move>, m: Move)
    requires
        thin_moves(*old(v)).len() < usize::MAX,
    ensures
        thin_moves(*final(v)) == thin_moves(*old(v)).push(m),
{
    v.push(m)
}

/// Relies on `ThinVec::len`: the number of moves held.
#[verifier::external_body]
pub(crate) fn move_count(v: &ThinVec<Move>) -> (r: usize)
    ensures
        r == thin_moves(*v).len(),
{
    v.len()
}

/// Relies on indexing a `ThinVec`, which reads the slice it dereferences to.
#[verifier::external_body]
pub(crate) fn move_at(v: &ThinVec<Move>, i: usize) -> (r: Move)
    requires
        i < thin_moves(*v).len(),
    ensures
        r == thin_moves(*v)[i as int],
{
    v[i]
}

} // verus!
