//! Values and lists of values: the zero, the copying and the appending.

use vstd::prelude::*;

verus! {

/// `value` is a zero: what `T::default()` gives.
pub open spec fn is_zero<T: Default>(value: T) -> bool {
    call_ensures(T::default, (), value)
}

/// A vector with the entries of `values`.
pub fn copy_of<T: Copy>(values: &Vec<T>) -> (copy: Vec<T>)
    ensures
        copy@ == values@,
{
    let mut copy: Vec<T> = Vec::with_capacity(values.len());
    let mut i: usize = 0;
    while i < values.len()
        invariant
            i <= values.len(),
            copy@ == values@.take(i as int),
        decreases values.len() - i,
    {
        copy.push(values[i]);
        i = i + 1;
    }
    copy
}

/// Appends `values` to `data`.
pub fn append<T: Copy>(data: &mut Vec<T>, values: &[T])
    ensures
        final(data)@ == old(data)@ + values@,
{
    let n = values.len();
    let mut i: usize = 0;
    while i < n
        invariant
            i <= n,
            n == values@.len(),
            data@ == old(data)@ + values@.take(i as int),
        decreases n - i,
    {
        data.push(values[i]);
        i = i + 1;
    }
}

} // verus!
