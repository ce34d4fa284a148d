//! Dimension-checked element-wise arithmetic on coordinate lists.
//!
//! A vector is a list of coordinates; sums, differences, element-wise products
//! and the terms of a dot product combine two lists coordinate by coordinate,
//! and make sense only when the two have the same length.
use vstd::prelude::*;

verus! {

/// Two vectors of different lengths met in an operation that needs equal ones.
#[derive(Clone, Copy, Debug, PartialEq, Eq, Structural)]
pub struct DimensionMismatch {
    pub left: usize,
    pub right: usize,
}

/// Combines `a` and `b` coordinate by coordinate with `f`: coordinate `k` of
/// the result is `f(a[k], b[k])`. Fails, with both lengths, when the lengths
/// differ.
pub fn zip_with<T: Copy, F: Fn(T, T) -> T>(a: &Vec<T>, b: &Vec<T>, f: F) -> (r: Result<
    Vec<T>,
    DimensionMismatch,
>)
    requires
        forall|x: T, y: T| f.requires((x, y)),
    ensures
        match r {
            Ok(c) => {
                &&& a.len() == b.len()
                &&& c.len() == a.len()
                &&& forall|k: int| 0 <= k < c.len() ==> f.ensures((a[k], b[k]), #[trigger] c[k])
            },
            Err(e) => a.len() != b.len() && e == (DimensionMismatch { left: a.len(), right: b.len() }),
        },
{
    if a.len() != b.len() {
        return Err(DimensionMismatch { left: a.len(), right: b.len() });
    }
    let mut c: Vec<T> = Vec::with_capacity(a.len());
    let mut i: usize = 0;
    while i < a.len()
        invariant
            a.len() == b.len(),
            i <= a.len(),
            c.len() == i,
            forall|x: T, y: T| f.requires((x, y)),
            forall|k: int| 0 <= k < i ==> f.ensures((a[k], b[k]), #[trigger] c[k]),
        decreases a.len() - i,
    {
        let v = f(a[i], b[i]);
        c.push(v);
        i = i + 1;
    }
    Ok(c)
}

} // verus!
