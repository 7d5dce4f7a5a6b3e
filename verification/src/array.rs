//! Small positional utilities over vectors.

use vstd::prelude::*;

verus! {

/// Pair every element with its position.
pub fn enumerate<T: Copy>(arr: &Vec<T>) -> (out: Vec<(usize, T)>)
    ensures
        out@.len() == arr@.len(),
        forall|i: int| 0 <= i < arr@.len() ==> #[trigger] out@[i] == (i as usize, arr@[i]),
{
    let mut out: Vec<(usize, T)> = Vec::new();
    let mut i: usize = 0;
    while i < arr.len()
        invariant
            i <= arr@.len(),
            out@.len() == i,
            forall|j: int| 0 <= j < i ==> #[trigger] out@[j] == (j as usize, arr@[j]),
        decreases arr@.len() - i,
    {
        out.push((i, arr[i]));
        i = i + 1;
    }
    out
}

/// Pair the elements of two equally long vectors position by position.
pub fn zip<T: Copy, U: Copy>(left: &Vec<T>, right: &Vec<U>) -> (out: Vec<(T, U)>)
    requires
        left@.len() == right@.len(),
    ensures
        out@.len() == left@.len(),
        forall|i: int| 0 <= i < left@.len() ==> #[trigger] out@[i] == (left@[i], right@[i]),
{
    let mut out: Vec<(T, U)> = Vec::new();
    let mut i: usize = 0;
    while i < left.len()
        invariant
            left@.len() == right@.len(),
            i <= left@.len(),
            out@.len() == i,
            forall|j: int| 0 <= j < i ==> #[trigger] out@[j] == (left@[j], right@[j]),
        decreases left@.len() - i,
    {
        out.push((left[i], right[i]));
        i = i + 1;
    }
    out
}

} // verus!
