//! The list in which a roll keeps the values of its dice.
//!
//! Most rolls are a handful of dice, so the values are kept in a
//! `smallvec::SmallVec` with room for four of them in place. Verus cannot
//! look inside a `SmallVec`: what the list holds is known by the name
//! `rolled`, and the functions below say what each `SmallVec` operation
//! does to it. Their contracts are taken from the `smallvec` sources and
//! are not proved here.

use smallvec::SmallVec;
use vstd::prelude::*;

verus! {

/// The largest number of values that a list may hold before another one is
/// pushed. Below it `SmallVec::push` never fails for want of address space,
/// on 32-bit machines as on larger ones.
pub const MAX_ROLLS: usize = 0x1000_0000;

/// A list of rolled values, in the order in which they were stored.
#[verifier::external_body]
#[derive(Debug)]
pub struct Rolls {
    values: SmallVec<[i32; 4]>,
}

/// The values that `rolls` holds, first stored first.
pub uninterp spec fn rolled(rolls: Rolls) -> Seq<i32>;

impl Rolls {
    /// `SmallVec::new`: a list that holds nothing.
    #[verifier::external_body]
    pub(crate) fn new() -> (rolls: Rolls)
        ensures
            rolled(rolls) == Seq::<i32>::empty(),
    {
        Rolls { values: SmallVec::new() }
    }

    /// `SmallVec::push`: appends `value` behind the values already held.
    /// The push panics when the list has to grow beyond the address space,
    /// which cannot happen below `MAX_ROLLS` values.
    #[verifier::external_body]
    pub(crate) fn push(&mut self, value: i32)
        requires
            rolled(*old(self)).len() < MAX_ROLLS,
        ensures
            rolled(*final(self)) == rolled(*old(self)).push(value),
    {
        self.values.push(value)
    }

    /// `SmallVec::len`: the number of values held.
    #[verifier::external_body]
    pub(crate) fn len(&self) -> (len: usize)
        ensures
            len == rolled(*self).len(),
    {
        self.values.len()
    }

    /// `SmallVec::as_slice`, indexed: the value at position `index`.
    /// Indexing panics at or beyond the length.
    #[verifier::external_body]
    pub(crate) fn get(&self, index: usize) -> (value: i32)
        requires
            index < rolled(*self).len(),
        ensures
            value == rolled(*self)[index as int],
    {
        self.values.as_slice()[index]
    }
}

impl Clone for Rolls {
    /// `SmallVec::clone`: a list that holds the same values in the same
    /// order.
    #[verifier::external_body]
    fn clone(&self) -> (copy: Self)
        ensures
            rolled(copy) == rolled(*self),
    {
        Rolls { values: self.values.clone() }
    }
}

} // verus!
