//! Small helpers on vectors.

use vstd::prelude::*;

verus! {

/// A copy of a vector of plain values.
pub fn copy_vec<T: Copy>(source: &Vec<T>) -> (r: Vec<T>)
    ensures
        r@ == source@,
{
    let mut out: Vec<T> = Vec::new();
    let mut i: usize = 0;
    while i < source.len()
        invariant
            i <= source@.len(),
            out@ == source@.subrange(0, i as int),
        decreases source@.len() - i,
    {
        out.push(source[i]);
        i = i + 1;
    }
    out
}

} // verus!
