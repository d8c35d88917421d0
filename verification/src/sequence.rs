//! Joining sequences end to end.

use vstd::prelude::*;

verus! {

/// The elements of `pieces`, joined in the order in which the pieces stand.
pub open spec fn joined<T>(pieces: Seq<Seq<T>>) -> Seq<T>
    decreases pieces.len(),
{
    if pieces.len() == 0 {
        Seq::empty()
    } else {
        joined(pieces.drop_last()) + pieces.last()
    }
}

/// Joining one piece more appends that piece.
pub proof fn lemma_joined_push<T>(pieces: Seq<Seq<T>>, piece: Seq<T>)
    ensures
        joined(pieces.push(piece)) == joined(pieces) + piece,
{
    assert(pieces.push(piece).drop_last() =~= pieces);
}

/// The lengths of `pieces`, added up.
pub open spec fn total_length<T>(pieces: Seq<Seq<T>>) -> nat
    decreases pieces.len(),
{
    if pieces.len() == 0 {
        0
    } else {
        total_length(pieces.drop_last()) + pieces.last().len()
    }
}

/// Joining neither drops nor repeats an element: the joined sequence is as
/// long as all pieces together.
pub proof fn law_joined_keeps_every_element<T>(pieces: Seq<Seq<T>>)
    ensures
        joined(pieces).len() == total_length(pieces),
    decreases pieces.len(),
{
    if pieces.len() > 0 {
        law_joined_keeps_every_element(pieces.drop_last());
    }
}

} // verus!
