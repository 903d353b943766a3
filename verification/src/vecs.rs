//! Vectors whose items are taken out one by one.

use vstd::prelude::*;

verus! {

/// The items in reverse order: what `pop` then gives is the first item
/// first.
pub fn reversed<T>(items: Vec<T>) -> (turned: Vec<T>)
    ensures
        turned@ == items@.reverse(),
{
    let mut rest = items;
    let mut turned: Vec<T> = Vec::new();
    while rest.len() > 0
        invariant
            turned@.len() + rest@.len() == items@.len(),
            forall|i: int| 0 <= i < rest@.len() ==> rest@[i] == items@[i],
            forall|i: int| 0 <= i < turned@.len() ==> turned@[i] == items@[items@.len() - 1 - i],
        decreases rest@.len(),
    {
        let item = rest.pop().unwrap();
        turned.push(item);
    }
    assert(turned@ =~= items@.reverse());
    turned
}

} // verus!
