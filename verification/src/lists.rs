//! List helpers.

use vstd::prelude::*;

verus! {

/// The items of a list, last one first.
pub fn reversed<T>(list: Vec<T>) -> (r: Vec<T>)
    ensures
        r@ == list@.reverse(),
{
    let mut rest = list;
    let mut r: Vec<T> = Vec::new();
    while rest.len() > 0
        invariant
            r@ + rest@.reverse() == list@.reverse(),
        decreases rest@.len(),
    {
        let ghost before = rest@;
        match rest.pop() {
            Some(item) => {
                r.push(item);
                assert(before.reverse() =~= seq![item] + rest@.reverse());
                assert(r@ + rest@.reverse() =~= list@.reverse());
            },
            None => {},
        }
    }
    assert(r@ =~= list@.reverse());
    r
}

} // verus!
