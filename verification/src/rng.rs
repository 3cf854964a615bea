//! Sources of draws: dice that are really thrown, and a wrapper that keeps
//! a log of what another source hands out.
//!
//! The random source holds one generator, made from a seed, and for each
//! size of die a range of values, made when the size is first asked for.
//! Generator and ranges are `rand`'s, the ranges in a `hashbrown::HashMap`;
//! Verus cannot look inside them. What is known of them is the map
//! `provided` from the sizes that have a range to the lowest value of that
//! range, and that a value drawn for a size lies within its range: the
//! functions of `Providers` say so on the word of the two crates' sources.
//!
//! The seed comes from the caller, who fetches it from wherever chance is
//! to be had. A generator made from a seed needs nothing from the system
//! afterwards, so a draw cannot fail.

use crate::expression::Expression;
use crate::log::{draws_for, RollLog, MAX_LOGGED, MAX_SIZES};
use crate::realize::{outcome, run, Realization, RealizedExpression, Realizer};
use crate::rolls::MAX_ROLLS;
use hashbrown::HashMap;
use rand::distributions::{Distribution, Uniform};
use rand::rngs::StdRng;
use rand::SeedableRng;
use vstd::prelude::*;

verus! {

/// The generator of a random source and its ranges, by size of die.
#[verifier::external_body]
#[derive(Debug)]
pub struct Providers {
    ranges: HashMap<i32, Uniform<i32>>,
    generator: StdRng,
}

/// For each size of die that `providers` holds a range for, the lowest
/// value of that range. Its highest value is the size.
pub uninterp spec fn provided(providers: Providers) -> Map<i32, i32>;

/// No ranges at all.
pub open spec fn unopened() -> Map<i32, i32> {
    Map::empty()
}

impl Providers {
    /// `HashMap::new` and `SeedableRng::seed_from_u64` for `StdRng`: no
    /// ranges, and a generator made from `seed`.
    #[verifier::external_body]
    fn new(seed: u64) -> (providers: Providers)
        ensures
            provided(providers) == unopened(),
    {
        Providers { ranges: HashMap::new(), generator: StdRng::seed_from_u64(seed) }
    }

    /// `HashMap::contains_key`: whether a range for `max` is held.
    #[verifier::external_body]
    fn has(&self, max: i32) -> (held: bool)
        ensures
            held == provided(*self).contains_key(max),
    {
        self.ranges.contains_key(&max)
    }

    /// `HashMap::len`: the number of ranges held.
    #[verifier::external_body]
    fn len(&self) -> (count: usize)
        requires
            provided(*self).dom().finite(),
        ensures
            count == provided(*self).dom().len(),
    {
        self.ranges.len()
    }

    /// `Uniform::from` and `HashMap::insert`: makes the range of the values
    /// from `low` to `max` and holds it for `max`. `Uniform::from` panics
    /// on an empty range, that is for `max` below `low`, and the map when
    /// it has to grow beyond the address space, which cannot happen below
    /// `MAX_SIZES` sizes.
    #[verifier::external_body]
    fn open(&mut self, low: i32, max: i32)
        requires
            low <= max,
            provided(*old(self)).dom().finite(),
            provided(*old(self)).dom().len() < MAX_SIZES,
        ensures
            provided(*final(self)) == provided(*old(self)).insert(max, low),
        no_unwind
    {
        self.ranges.insert(max, Uniform::from(low..=max));
    }

    /// `HashMap::get` and `Distribution::sample`: a value of the range held
    /// for `max`, taken from the generator. The generator works on its own
    /// state alone. The sampler asks it for words until one falls into the
    /// part of the words that it accepts, which is more than half of them.
    #[verifier::external_body]
    fn draw(&mut self, max: i32) -> (value: i32)
        requires
            provided(*old(self)).contains_key(max),
        ensures
            provided(*final(self)) == provided(*old(self)),
            provided(*old(self))[max] <= value <= max,
        no_unwind
    {
        self.ranges.get(&max).unwrap().sample(&mut self.generator)
    }
}

/// A source of random draws, uniform over the values of the die asked for.
#[derive(Debug)]
pub struct RngSource {
    providers: Providers,
}

/// What a log holds after `draws` were noted for `max`, in order.
pub open spec fn noted(held: Map<i32, Seq<i32>>, max: i32, draws: Seq<i32>) -> Map<i32, Seq<i32>> {
    if draws.len() == 0 {
        held
    } else {
        held.insert(max, draws_for(held, max) + draws)
    }
}

/// The draws that `after` holds for `max` behind those that `before` holds.
pub open spec fn added(before: Map<i32, Seq<i32>>, after: Map<i32, Seq<i32>>, max: i32) -> Seq<
    i32,
> {
    draws_for(after, max).skip(draws_for(before, max).len() as int)
}

impl RngSource {
    #[verifier::type_invariant]
    spec fn bounded(self) -> bool {
        &&& provided(self.providers).dom().finite()
        &&& forall|max: i32|
            provided(self.providers).contains_key(max) ==> #[trigger] provided(self.providers)[max]
                == 1
    }

    /// The sizes of die that have been drawn for.
    pub closed spec fn sizes(&self) -> Set<i32> {
        provided(self.providers).dom()
    }

    /// A source that has not been drawn from, with a generator made from
    /// `seed`. For dice that cannot be foretold the seed has to come from
    /// chance; the same seed gives the same draws again, as long as the
    /// generator is the same.
    pub fn new(seed: u64) -> (source: Self)
        ensures
            source.sizes() == Set::<i32>::empty(),
    {
        let providers = Providers::new(seed);
        assert(provided(providers).dom() =~= Set::<i32>::empty());
        RngSource { providers }
    }

    /// The number of sizes of die that have been drawn for.
    pub fn len(&self) -> (count: usize)
        ensures
            self.sizes().finite(),
            count == self.sizes().len(),
    {
        proof {
            use_type_invariant(self);
        }
        self.providers.len()
    }

    /// Whether `max` has been drawn for.
    pub fn knows(&self, max: i32) -> (known: bool)
        ensures
            known == self.sizes().contains(max),
    {
        self.providers.has(max)
    }

    /// Throws a die of `max` sides. Whatever comes is between one and
    /// `max`; the size is remembered.
    pub fn next(&mut self, max: i32) -> (value: i32)
        requires
            max >= 1,
            old(self).sizes().contains(max) || old(self).sizes().len() < MAX_SIZES,
        ensures
            1 <= value <= max,
            final(self).sizes() == old(self).sizes().insert(max),
    {
        proof {
            use_type_invariant(&*self);
        }
        if !self.providers.has(max) {
            self.providers.open(1, max);
        }
        assert(provided(self.providers).dom() =~= old(self).sizes().insert(max));
        self.providers.draw(max)
    }

    /// Throws the die that `roll` waits for, notes the value in `log` and
    /// hands it to the roll. Returns the value.
    pub fn advance(&mut self, roll: &mut Realization, log: &mut RollLog) -> (value: i32)
        requires
            !old(roll)@.done(),
            old(roll)@.stored.len() < MAX_ROLLS,
            old(roll).expression().max >= 1,
            old(self).sizes().contains(old(roll).expression().max) || old(self).sizes().len()
                < MAX_SIZES,
            old(log).count() < MAX_LOGGED,
            old(log)@.contains_key(old(roll).expression().max) || old(log)@.dom().len() < MAX_SIZES,
        ensures
            1 <= value <= old(roll).expression().max,
            final(self).sizes() == old(self).sizes().insert(old(roll).expression().max),
            final(roll)@ == crate::realize::step(old(roll).expression(), old(roll)@, value),
            final(roll).expression() == old(roll).expression(),
            final(log)@ == old(log)@.insert(
                old(roll).expression().max,
                draws_for(old(log)@, old(roll).expression().max).push(value),
            ),
            final(log).count() == old(log).count() + 1,
    {
        let max: i32 = roll.sides();
        let value: i32 = self.next(max);
        log.record(max, value);
        roll.feed(value);
        value
    }

    /// Rolls `expression` with real dice, noting every draw in `log`.
    ///
    /// The draws are those that the log gains for the die of the
    /// expression: each lies between one and the number of sides, and the
    /// roll is the one that `run` describes for them. It goes on until it
    /// is done or the room runs out: `None` is returned just where the log
    /// is full, or where the log or the source cannot take a further size
    /// of die, before the roll is done. A die of no sides cannot be thrown.
    pub fn roll(&mut self, log: &mut RollLog, expression: &Expression) -> (realized: Option<
        RealizedExpression,
    >)
        requires
            expression.max >= 1 || expression.count <= 0,
        ensures
            final(log)@ == noted(
                old(log)@,
                expression.max,
                added(old(log)@, final(log)@, expression.max),
            ),
            final(log).count() == old(log).count() + added(
                old(log)@,
                final(log)@,
                expression.max,
            ).len(),
            forall|i: int|
                0 <= i < added(old(log)@, final(log)@, expression.max).len() ==> 1 <= (
                #[trigger] added(old(log)@, final(log)@, expression.max)[i]) <= expression.max,
            run(*expression, added(old(log)@, final(log)@, expression.max)).drawn == added(
                old(log)@,
                final(log)@,
                expression.max,
            ).len(),
            final(self).sizes() == if added(old(log)@, final(log)@, expression.max).len() > 0 {
                old(self).sizes().insert(expression.max)
            } else {
                old(self).sizes()
            },
            match realized {
                Some(result) => run(
                    *expression,
                    added(old(log)@, final(log)@, expression.max),
                ).done() && result@ == outcome(
                    *expression,
                    added(old(log)@, final(log)@, expression.max),
                ),
                None => !run(*expression, added(old(log)@, final(log)@, expression.max)).done()
                    && (final(log).count() == MAX_LOGGED || (!final(log)@.contains_key(
                    expression.max,
                ) && final(log)@.dom().len() == MAX_SIZES) || (!final(self).sizes().contains(
                    expression.max,
                ) && final(self).sizes().len() >= MAX_SIZES)),
            },
    {
        let ghost held = log@;
        let ghost sizes = self.sizes();
        let ghost max = expression.max;
        let ghost draws = Seq::<i32>::empty();
        let mut roll = Realization::new(expression);
        proof {
            assert(added(held, held, max) =~= draws);
        }
        while !roll.is_done()
            invariant
                roll.expression() == *expression,
                max == expression.max,
                expression.max >= 1 || expression.count <= 0,
                roll@ == run(*expression, draws),
                roll@.drawn == draws.len(),
                roll@.stored.len() <= draws.len(),
                log@ == noted(held, max, draws),
                log.count() == old(log).count() + draws.len(),
                held == old(log)@,
                added(held, log@, max) == draws,
                forall|i: int| 0 <= i < draws.len() ==> 1 <= #[trigger] draws[i] <= max,
                self.sizes() == if draws.len() > 0 {
                    sizes.insert(max)
                } else {
                    sizes
                },
                sizes == old(self).sizes(),
            decreases MAX_LOGGED - log.count(),
        {
            if log.len() >= MAX_LOGGED {
                return None;
            }
            if !log.knows(expression.max) && log.sizes() >= MAX_SIZES {
                return None;
            }
            if !self.knows(expression.max) && self.len() >= MAX_SIZES {
                return None;
            }
            let ghost before = draws;
            let value: i32 = self.advance(&mut roll, log);
            proof {
                draws = before.push(value);
                assert(draws.drop_last() =~= before);
                assert(draws_for(held, max) + draws =~= (draws_for(held, max) + before).push(
                    value,
                ));
                assert(log@ =~= noted(held, max, draws));
                assert(added(held, log@, max) =~= draws);
                assert(sizes.insert(max).insert(max) =~= sizes.insert(max));
            }
        }
        Some(roll.finish())
    }
}

/// A source that hands out what another source hands out, and keeps a log
/// of it.
pub struct LogWrapper<'r, R> {
    realizer: &'r mut R,
    log: RollLog,
}

impl<'r, R: Realizer> LogWrapper<'r, R> {
    /// What has been logged so far.
    pub closed spec fn logged(&self) -> Map<i32, Seq<i32>> {
        self.log@
    }

    /// The number of draws that the log is sure to have room for, whatever
    /// dice they are for: each may be the first of its size.
    pub closed spec fn room(&self) -> int {
        MAX_SIZES - self.log.count()
    }

    /// The draws that the wrapped source hands out from here on.
    pub closed spec fn inner(&self) -> Seq<i32> {
        self.realizer.pending()
    }

    /// The sizes of die that the wrapped source has been asked for so far.
    pub closed spec fn inner_asked(&self) -> Seq<i32> {
        self.realizer.asked()
    }

    /// A wrapper around `realizer` with an empty log.
    pub fn new(realizer: &'r mut R) -> (wrapper: Self)
        ensures
            wrapper.logged() == crate::log::nothing(),
            wrapper.room() == MAX_SIZES,
            wrapper.inner() == old(realizer).pending(),
            wrapper.inner_asked() == old(realizer).asked(),
    {
        LogWrapper { realizer, log: RollLog::new() }
    }

    /// Ends the logging and hands out the log.
    pub fn finalize(self) -> (log: RollLog)
        ensures
            log@ == self.logged(),
            log.count() == MAX_SIZES - self.room(),
    {
        self.log
    }
}

/// The draws that a wrapper hands out: those of the wrapped source, as far
/// as the log has room for them.
pub open spec fn loggable(inner: Seq<i32>, room: int) -> Seq<i32> {
    if room <= 0 {
        Seq::empty()
    } else if room < inner.len() {
        inner.take(room)
    } else {
        inner
    }
}

impl<'r, R: Realizer> Realizer for LogWrapper<'r, R> {
    open spec fn pending(&self) -> Seq<i32> {
        loggable(self.inner(), self.room())
    }

    open spec fn asked(&self) -> Seq<i32> {
        self.inner_asked()
    }

    fn next(&mut self, max: i32) -> (value: i32)
        ensures
            final(self).logged() == old(self).logged().insert(
                max,
                crate::log::draws_for(old(self).logged(), max).push(value),
            ),
            final(self).room() == old(self).room() - 1,
            final(self).inner() == old(self).inner().drop_first(),
            final(self).inner_asked() == old(self).inner_asked().push(max),
    {
        let _ = self.log.sizes();
        let result: i32 = self.realizer.next(max);
        self.log.record(max, result);
        proof {
            assert(loggable(old(self).inner().drop_first(), old(self).room() - 1) =~= loggable(
                old(self).inner(),
                old(self).room(),
            ).drop_first());
        }
        result
    }
}

} // verus!
