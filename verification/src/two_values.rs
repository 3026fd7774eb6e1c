//! A pair of borrowed values, together with two small slice helpers: one that
//! borrows an element by index, and one that increases a counter through a
//! mutable borrow and hands that borrow back.

use vstd::prelude::*;

verus! {

/// Two values borrowed for the lifetime `'a`.
pub struct TwoValues<'a> {
    pub first: &'a usize,
    pub second: &'a usize,
}

impl<'a> TwoValues<'a> {
    pub fn new(first: &'a usize, second: &'a usize) -> (pair: TwoValues<'a>)
        ensures
            pair.first == first,
            pair.second == second,
    {
        TwoValues { first, second }
    }

    pub fn get_first(&self) -> (value: &'a usize)
        ensures
            value == self.first,
    {
        self.first
    }

    pub fn get_second(&self) -> (value: &'a usize)
        ensures
            value == self.second,
    {
        self.second
    }
}

/// Borrows the `*n`-th element of `data`.
pub fn nth_item<'a>(data: &'a [usize], n: &usize) -> (item: &'a usize)
    requires
        *n < data@.len(),
    ensures
        *item == data@[*n as int],
{
    &data[*n]
}

/// Adds the first element of `data` to `*n` and returns the mutable borrow of
/// `n`, so the caller may go on using it.
pub fn increased_by_first_item<'a>(data: &[usize], n: &'a mut usize) -> (increased: &'a mut usize)
    requires
        data@.len() > 0,
        *old(n) + data@[0] <= usize::MAX,
    ensures
        *increased == *old(n) + data@[0],
        *final(n) == *final(increased),
{
    *n += data[0];
    n
}

} // verus!
