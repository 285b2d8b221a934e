//! Operations on vectors that move their elements.
use vstd::prelude::*;

verus! {

/// The elements of `reversed`, last first.
pub fn unreversed<T>(reversed: Vec<T>) -> (list: Vec<T>)
    ensures
        list@ == reversed@.reverse(),
{
    let mut left = reversed;
    let mut list: Vec<T> = Vec::new();
    while left.len() > 0
        invariant
            left@.len() + list@.len() == reversed@.len(),
            left@ == reversed@.take(left@.len() as int),
            forall|i: int| 0 <= i < list@.len() ==> list@[i] == reversed@[reversed@.len() - 1 - i],
        decreases left.len(),
    {
        let item = left.pop().unwrap();
        list.push(item);
        assert(left@ =~= reversed@.take(left@.len() as int));
    }
    assert(list@ =~= reversed@.reverse());
    list
}

} // verus!
