//! The log of a session's draws, sorted by the size of the die.
//!
//! The draws are kept in a `hashbrown::HashMap` from the number of sides to
//! a `smallvec::SmallVec` of the values drawn for it. Verus cannot look
//! inside either: what the map holds is known by the name `logged`, and the
//! functions of `Ledger` say what the operations of the two crates do to
//! it. Their contracts are taken from the crates' sources and are not
//! proved here.

use hashbrown::HashMap;
use smallvec::SmallVec;
use vstd::prelude::*;

verus! {

/// The largest number of draws that a log may hold. Up to this number no
/// list of draws can outgrow the address space, on 32-bit machines as on
/// larger ones.
pub const MAX_LOGGED: usize = 0x1000_0000;

/// The largest number of sizes of die that a map may hold. Up to this
/// number no map of this crate can outgrow the address space, on 32-bit
/// machines as on larger ones.
pub const MAX_SIZES: usize = 0x0100_0000;

/// The map behind a log.
#[verifier::external_body]
#[derive(Debug)]
pub struct Ledger {
    entries: HashMap<i32, SmallVec<[i32; 4]>>,
}

/// The draws that `ledger` holds for each size of die, first drawn first.
pub uninterp spec fn logged(ledger: Ledger) -> Map<i32, Seq<i32>>;

/// A log without draws.
pub open spec fn nothing() -> Map<i32, Seq<i32>> {
    Map::empty()
}

/// The draws held for `max`: none if the size is unknown.
pub open spec fn draws_for(held: Map<i32, Seq<i32>>, max: i32) -> Seq<i32> {
    if held.contains_key(max) {
        held[max]
    } else {
        Seq::empty()
    }
}

/// Whether `entries` lists what `held` holds, each size once.
pub open spec fn lists(entries: Seq<(i32, Vec<i32>)>, held: Map<i32, Seq<i32>>) -> bool {
    &&& forall|i: int|
        0 <= i < entries.len() ==> held.contains_key((#[trigger] entries[i]).0) && held[entries[i].0]
            == entries[i].1@
    &&& forall|i: int, j: int|
        0 <= i < j < entries.len() ==> (#[trigger] entries[i]).0 != (#[trigger] entries[j]).0
    &&& forall|max: i32|
        held.contains_key(max) ==> exists|i: int|
            0 <= i < entries.len() && (#[trigger] entries[i]).0 == max
}

impl Ledger {
    /// `HashMap::new`: a map that holds nothing.
    #[verifier::external_body]
    fn new() -> (ledger: Ledger)
        ensures
            logged(ledger) == nothing(),
    {
        Ledger { entries: HashMap::new() }
    }

    /// `HashMap::contains_key`: whether a list is held for `max`.
    #[verifier::external_body]
    fn has(&self, max: i32) -> (held: bool)
        ensures
            held == logged(*self).contains_key(max),
    {
        self.entries.contains_key(&max)
    }

    /// `HashMap::len`: the number of sizes that a list is held for.
    #[verifier::external_body]
    fn len(&self) -> (count: usize)
        requires
            logged(*self).dom().finite(),
        ensures
            count == logged(*self).dom().len(),
    {
        self.entries.len()
    }

    /// `HashMap::entry`, `Entry::or_default` and `SmallVec::push`: appends
    /// `value` to the list of `max`, which is made if it is not there. The
    /// map grows only for a size that it does not hold. Map and list panic
    /// when they have to grow beyond the address space, which cannot
    /// happen below `MAX_SIZES` sizes and `MAX_LOGGED` values.
    #[verifier::external_body]
    fn record(&mut self, max: i32, value: i32)
        requires
            logged(*old(self)).dom().finite(),
            logged(*old(self)).contains_key(max) || logged(*old(self)).dom().len() < MAX_SIZES,
            draws_for(logged(*old(self)), max).len() < MAX_LOGGED,
        ensures
            logged(*final(self)) == logged(*old(self)).insert(
                max,
                draws_for(logged(*old(self)), max).push(value),
            ),
        no_unwind
    {
        self.entries.entry(max).or_default().push(value)
    }

    /// `HashMap::into_iter` and `SmallVec::into_vec`: hands out the sizes,
    /// each once and with its draws, in no order that could be told
    /// beforehand.
    #[verifier::external_body]
    fn into_entries(self) -> (entries: Vec<(i32, Vec<i32>)>)
        requires
            logged(self).dom().finite(),
        ensures
            lists(entries@, logged(self)),
            entries.len() == logged(self).dom().len(),
    {
        self.entries.into_iter().map(|(max, values)| (max, values.into_vec())).collect()
    }
}

/// The log of a session's draws.
#[derive(Debug)]
pub struct RollLog {
    ledger: Ledger,
    count: usize,
}

impl View for RollLog {
    type V = Map<i32, Seq<i32>>;

    closed spec fn view(&self) -> Map<i32, Seq<i32>> {
        logged(self.ledger)
    }
}

/// Whether `held` holds finitely many sizes, no more than `count`, and no
/// more than `count` draws for any of them.
pub open spec fn within(held: Map<i32, Seq<i32>>, count: int) -> bool {
    &&& held.dom().finite()
    &&& held.dom().len() <= count
    &&& forall|max: i32| held.contains_key(max) ==> (#[trigger] held[max]).len() <= count
}

/// Recording one more draw keeps a log within one more than its count.
pub proof fn lemma_within_insert(held: Map<i32, Seq<i32>>, count: int, max: i32, value: i32)
    requires
        within(held, count),
    ensures
        within(held.insert(max, draws_for(held, max).push(value)), count + 1),
{
    let after = held.insert(max, draws_for(held, max).push(value));
    assert(after.dom() =~= held.dom().insert(max));
    assert forall|size: i32| after.contains_key(size) implies (#[trigger] after[size]).len()
        <= count + 1 by {
        if size != max {
            assert(held.contains_key(size));
            assert(after[size] == held[size]);
        }
    }
}

impl RollLog {
    #[verifier::type_invariant]
    spec fn bounded(self) -> bool {
        &&& within(logged(self.ledger), self.count as int)
        &&& self.count <= MAX_LOGGED
        &&& logged(self.ledger).dom().len() <= MAX_SIZES
    }

    /// The number of draws recorded.
    pub closed spec fn count(&self) -> nat {
        self.count as nat
    }

    /// A log that holds nothing.
    pub fn new() -> (log: Self)
        ensures
            log@ == nothing(),
            log.count() == 0,
    {
        RollLog { ledger: Ledger::new(), count: 0 }
    }

    /// The number of draws recorded.
    pub fn len(&self) -> (count: usize)
        ensures
            count == self.count(),
            count <= MAX_LOGGED,
    {
        proof {
            use_type_invariant(self);
        }
        self.count
    }

    /// The number of sizes of die that draws are recorded for.
    pub fn sizes(&self) -> (count: usize)
        ensures
            self@.dom().finite(),
            count == self@.dom().len(),
            count <= MAX_SIZES,
            count <= self.count(),
    {
        proof {
            use_type_invariant(self);
        }
        self.ledger.len()
    }

    /// Whether draws are recorded for a die of `max` sides.
    pub fn knows(&self, max: i32) -> (known: bool)
        ensures
            known == self@.contains_key(max),
    {
        self.ledger.has(max)
    }

    /// Records that `value` was drawn for a die of `max` sides. There has
    /// to be room for the draw, and for the size if it is a new one.
    pub fn record(&mut self, max: i32, value: i32)
        requires
            old(self).count() < MAX_LOGGED,
            old(self)@.contains_key(max) || old(self)@.dom().len() < MAX_SIZES,
        ensures
            final(self)@ == old(self)@.insert(max, draws_for(old(self)@, max).push(value)),
            final(self).count() == old(self).count() + 1,
    {
        proof {
            use_type_invariant(&*self);
            lemma_within_insert(logged(self.ledger), self.count as int, max, value);
            assert(logged(self.ledger).insert(
                max,
                draws_for(logged(self.ledger), max).push(value),
            ).dom() =~= logged(self.ledger).dom().insert(max));
        }
        self.count = self.count + 1;
        self.ledger.record(max, value);
    }

    /// Hands out the sizes, each once and with its draws, in no order that
    /// could be told beforehand.
    pub fn into_entries(self) -> (entries: Vec<(i32, Vec<i32>)>)
        ensures
            lists(entries@, self@),
            self@.dom().finite(),
            entries.len() == self@.dom().len() <= MAX_SIZES,
            entries.len() <= self.count(),
            forall|i: int| 0 <= i < entries.len() ==> (#[trigger] entries[i]).1.len() <= self.count(),
    {
        proof {
            use_type_invariant(&self);
        }
        self.ledger.into_entries()
    }
}

} // verus!
