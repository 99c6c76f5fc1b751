//! Copies of vectors.

use vstd::prelude::*;

verus! {

/// A vector with the same elements.
pub(crate) fn copied<T: Copy>(from: &Vec<T>) -> (to: Vec<T>)
    ensures
        to@ == from@,
{
    let mut to: Vec<T> = Vec::new();
    let mut i: usize = 0;
    while i < from.len()
        invariant
            i <= from@.len(),
            to@ == from@.take(i as int),
        decreases from@.len() - i,
    {
        to.push(from[i]);
        i = i + 1;
        assert(to@ =~= from@.take(i as int));
    }
    assert(from@.take(i as int) =~= from@);
    to
}

} // verus!
