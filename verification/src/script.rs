//! A source of draws that are known beforehand.

use crate::realize::Realizer;
use vstd::prelude::*;

verus! {

/// A source that hands out a given list of draws, from the first to the
/// last, whatever the die. It serves where a roll has to be repeatable.
pub struct ScriptedRealizer {
    draws: Vec<i32>,
    position: usize,
    asked: Ghost<Seq<i32>>,
}

impl ScriptedRealizer {
    #[verifier::type_invariant]
    spec fn within(self) -> bool {
        self.position <= self.draws.len()
    }

    /// A source that hands out `draws`.
    pub fn new(draws: Vec<i32>) -> (source: Self)
        ensures
            source.pending() == draws@,
            source.asked() == Seq::<i32>::empty(),
    {
        assert(draws@.skip(0) =~= draws@);
        ScriptedRealizer { draws, position: 0, asked: Ghost(Seq::empty()) }
    }

    /// The number of draws that are left.
    pub fn remaining(&self) -> (count: usize)
        ensures
            count == self.pending().len(),
    {
        proof {
            use_type_invariant(self);
        }
        self.draws.len() - self.position
    }
}

impl Realizer for ScriptedRealizer {
    closed spec fn pending(&self) -> Seq<i32> {
        self.draws@.skip(self.position as int)
    }

    closed spec fn asked(&self) -> Seq<i32> {
        self.asked@
    }

    fn next(&mut self, max: i32) -> (value: i32) {
        proof {
            use_type_invariant(&*self);
            self.asked@ = self.asked@.push(max);
            assert(self.draws@.skip(self.position as int).drop_first() =~= self.draws@.skip(
                self.position + 1,
            ));
        }
        let value: i32 = self.draws[self.position];
        self.position = self.position + 1;
        value
    }
}

} // verus!
