//! Rolling an expression.
//!
//! A roll takes its values from a source of draws, one at a time, and what
//! it does with each is decided by the values alone. So a roll is described
//! as a function of the draws: `run` folds `step` over them, starting from
//! `start`.
//!
//! One die's life: a value is drawn; while it is at or below the reroll
//! threshold it is thrown away and drawn anew; then it is stored; while the
//! stored value is at or above the explode threshold one more value is
//! drawn for the same die, which goes the same way. Under advantage or
//! disadvantage the first value of the first die, and no other, is chosen
//! from two draws.

use crate::expression::{Advantage, Expression};
use crate::rolls::{Rolls, MAX_ROLLS};
use vstd::prelude::*;

verus! {

/// How far a roll has come.
pub struct Progress {
    /// The values stored so far.
    pub stored: Seq<i32>,
    /// The number of dice that are not finished yet.
    pub remaining: int,
    /// Whether the next value is still the one chosen from two draws.
    pub opening: bool,
    /// The first of those two draws, while the second is awaited.
    pub held: Option<i32>,
    /// The number of draws taken so far.
    pub drawn: nat,
}

impl Progress {
    /// Whether every die is finished.
    pub open spec fn done(self) -> bool {
        self.remaining <= 0
    }
}

/// The value kept of two draws.
pub open spec fn kept(advantage: Advantage, first: i32, second: i32) -> i32 {
    match advantage {
        Advantage::Advantage => if first >= second {
            first
        } else {
            second
        },
        Advantage::Disadvantage => if first <= second {
            first
        } else {
            second
        },
        Advantage::Normal => second,
    }
}

/// A roll of `expression` before the first draw.
pub open spec fn start(expression: Expression) -> Progress {
    Progress {
        stored: Seq::empty(),
        remaining: expression.count as int,
        opening: expression.advantage != Advantage::Normal,
        held: None,
        drawn: 0,
    }
}

/// What becomes of a roll when `value` is settled for the die in hand: it
/// is thrown away, or stored with one more value to come, or stored as the
/// die's last.
pub open spec fn settle(expression: Expression, progress: Progress, value: i32) -> Progress {
    if expression.rerolls(value) {
        progress
    } else if expression.explodes(value) {
        Progress { stored: progress.stored.push(value), ..progress }
    } else {
        Progress {
            stored: progress.stored.push(value),
            remaining: progress.remaining - 1,
            ..progress
        }
    }
}

/// What becomes of a roll when `draw` is drawn. A finished roll takes no
/// draw and stays as it is.
pub open spec fn step(expression: Expression, progress: Progress, draw: i32) -> Progress {
    if progress.done() {
        progress
    } else if progress.opening && progress.held is None {
        Progress { held: Some(draw), drawn: progress.drawn + 1, ..progress }
    } else {
        settle(
            expression,
            Progress { opening: false, held: None, drawn: progress.drawn + 1, ..progress },
            if progress.opening {
                kept(expression.advantage, progress.held->0, draw)
            } else {
                draw
            },
        )
    }
}

/// The roll of `expression` after the given draws, taken in order.
pub open spec fn run(expression: Expression, draws: Seq<i32>) -> Progress
    decreases draws.len(),
{
    if draws.len() == 0 {
        start(expression)
    } else {
        step(expression, run(expression, draws.drop_last()), draws.last())
    }
}

/// How a value is to be shown.
#[derive(Copy, Clone, Debug, PartialEq, Eq, Structural)]
pub enum Highlight {
    /// The largest value of the die.
    High,
    /// A one.
    Low,
    /// Any other value.
    Normal,
}

/// How `value` of a die with the given number of sides is shown. A one is
/// low even on a die of one side.
pub open spec fn highlight_of(value: i32, sides: i32) -> Highlight {
    if value == 1 {
        Highlight::Low
    } else if value == sides {
        Highlight::High
    } else {
        Highlight::Normal
    }
}

/// The sum of `values`.
pub open spec fn sum_of(values: Seq<i32>) -> int
    decreases values.len(),
{
    if values.len() == 0 {
        0
    } else {
        sum_of(values.drop_last()) + values.last()
    }
}

/// A finished roll as a mathematical value.
pub struct Realized {
    /// The stored values, in the order in which they were rolled.
    pub results: Seq<i32>,
    /// The number of sides of the dice.
    pub sides: i32,
    /// What is added to the sum of the dice.
    pub modifier: i32,
}

impl Realized {
    /// The sum of the stored values and the modifier.
    pub open spec fn total(self) -> int {
        sum_of(self.results) + self.modifier
    }

    /// Whether the roll is a single value, the largest of its die.
    pub open spec fn critical(self) -> bool {
        self.results.len() == 1 && self.total() == self.sides + self.modifier
    }
}

/// The finished roll that the draws give, provided that they finish one.
pub open spec fn outcome(expression: Expression, draws: Seq<i32>) -> Realized {
    Realized {
        results: run(expression, draws).stored,
        sides: expression.max,
        modifier: expression.modifier,
    }
}

/// The result of a roll.
#[derive(Clone, Debug)]
pub struct RealizedExpression {
    results: Rolls,
    max: i32,
    modifier: i32,
}

impl View for RealizedExpression {
    type V = Realized;

    closed spec fn view(&self) -> Realized {
        Realized {
            results: crate::rolls::rolled(self.results),
            sides: self.max,
            modifier: self.modifier,
        }
    }
}

/// The sum of the first `upto` values of a list stays within `upto` times
/// the range of one value.
proof fn lemma_sum_bounds(values: Seq<i32>, upto: int)
    requires
        0 <= upto <= values.len(),
    ensures
        -0x8000_0000 * upto <= sum_of(values.take(upto)) <= 0x7fff_ffff * upto,
    decreases upto,
{
    if upto > 0 {
        lemma_sum_bounds(values, upto - 1);
        assert(values.take(upto).drop_last() =~= values.take(upto - 1));
    }
}

impl RealizedExpression {
    /// The sum of the stored values and the modifier, which has to fit the
    /// result type.
    pub fn sum(&self) -> (sum: i32)
        requires
            i32::MIN <= self@.total() <= i32::MAX,
        ensures
            sum == self@.total(),
    {
        match self.checked_sum() {
            Some(sum) => sum,
            None => 0,
        }
    }

    /// The sum of the stored values and the modifier, if it fits the result
    /// type.
    pub fn checked_sum(&self) -> (sum: Option<i32>)
        ensures
            match sum {
                Some(sum) => sum == self@.total(),
                None => self@.total() < i32::MIN || self@.total() > i32::MAX,
            },
    {
        let ghost values = self@.results;
        let count: usize = self.results.len();
        let mut total: i128 = 0;
        let mut at: usize = 0;
        while at < count
            invariant
                at <= count == values.len(),
                values == crate::rolls::rolled(self.results),
                total == sum_of(values.take(at as int)),
                -0x8000_0000 * at <= total <= 0x7fff_ffff * at,
            decreases count - at,
        {
            let value: i32 = self.results.get(at);
            proof {
                assert(values.take(at + 1).drop_last() =~= values.take(at as int));
                lemma_sum_bounds(values, at + 1);
            }
            total = total + value as i128;
            at = at + 1;
        }
        assert(values.take(at as int) =~= values);
        let total: i128 = total + self.modifier as i128;
        if total < i32::MIN as i128 || total > i32::MAX as i128 {
            None
        } else {
            Some(total as i32)
        }
    }

    /// What is added to the sum of the dice.
    pub fn modifier(&self) -> (modifier: i32)
        ensures
            modifier == self@.modifier,
    {
        self.modifier
    }

    /// The stored values in the order in which they were rolled, each with
    /// the way it is to be shown.
    pub fn results(&self) -> (results: Vec<(Highlight, i32)>)
        ensures
            results.len() == self@.results.len(),
            forall|i: int|
                0 <= i < results.len() ==> #[trigger] results[i] == (
                    highlight_of(self@.results[i], self@.sides),
                    self@.results[i],
                ),
    {
        let ghost values = self@.results;
        let count: usize = self.results.len();
        let mut results: Vec<(Highlight, i32)> = Vec::new();
        let mut at: usize = 0;
        while at < count
            invariant
                at <= count == values.len(),
                values == crate::rolls::rolled(self.results),
                results.len() == at,
                forall|i: int|
                    0 <= i < at ==> #[trigger] results[i] == (
                        highlight_of(values[i], self.max),
                        values[i],
                    ),
            decreases count - at,
        {
            let value: i32 = self.results.get(at);
            let highlight = if value == 1 {
                Highlight::Low
            } else if value == self.max {
                Highlight::High
            } else {
                Highlight::Normal
            };
            results.push((highlight, value));
            at = at + 1;
        }
        results
    }

    /// Whether the roll is a single value, the largest of its die.
    pub fn is_critical(&self) -> (critical: bool)
        ensures
            critical == self@.critical(),
    {
        proof {
            let values = self@.results;
            if values.len() == 1 {
                assert(values.drop_last() =~= Seq::<i32>::empty());
                assert(sum_of(values) == values[0]) by {
                    reveal_with_fuel(sum_of, 2);
                }
            }
        }
        self.results.len() == 1 && self.results.get(0) == self.max
    }
}

/// A roll in progress: it is fed one draw after the other until it is done.
pub struct Realization {
    expression: Expression,
    results: Rolls,
    remaining: i32,
    opening: bool,
    held: Option<i32>,
    drawn: Ghost<nat>,
}

impl View for Realization {
    type V = Progress;

    closed spec fn view(&self) -> Progress {
        Progress {
            stored: crate::rolls::rolled(self.results),
            remaining: self.remaining as int,
            opening: self.opening,
            held: self.held,
            drawn: self.drawn@,
        }
    }
}

impl Realization {
    /// The expression that is rolled.
    pub closed spec fn expression(&self) -> Expression {
        self.expression
    }

    /// A roll of `expression` before the first draw.
    pub fn new(expression: &Expression) -> (roll: Self)
        ensures
            roll@ == start(*expression),
            roll.expression() == *expression,
    {
        Realization {
            expression: Expression {
                count: expression.count,
                max: expression.max,
                modifier: expression.modifier,
                advantage: expression.advantage,
                reroll: expression.reroll,
                explode: expression.explode,
            },
            results: Rolls::new(),
            remaining: expression.count,
            opening: match expression.advantage {
                Advantage::Normal => false,
                _ => true,
            },
            held: None,
            drawn: Ghost(0),
        }
    }

    /// Whether every die is finished, so that no further draw is taken.
    pub fn is_done(&self) -> (done: bool)
        ensures
            done == self@.done(),
    {
        self.remaining <= 0
    }

    /// The number of values stored so far.
    pub fn len(&self) -> (count: usize)
        ensures
            count == self@.stored.len(),
    {
        self.results.len()
    }

    /// The number of sides of the die to draw for.
    pub fn sides(&self) -> (sides: i32)
        ensures
            sides == self.expression().max,
    {
        self.expression.max
    }

    /// Takes the next draw.
    pub fn feed(&mut self, draw: i32)
        requires
            !old(self)@.done(),
            old(self)@.stored.len() < MAX_ROLLS,
        ensures
            final(self)@ == step(old(self).expression(), old(self)@, draw),
            final(self).expression() == old(self).expression(),
    {
        proof {
            self.drawn@ = self.drawn@ + 1;
        }
        if self.opening {
            match self.held {
                None => {
                    self.held = Some(draw);
                    return ;
                },
                Some(first) => {
                    let value: i32 = match self.expression.advantage {
                        Advantage::Advantage => if first >= draw {
                            first
                        } else {
                            draw
                        },
                        Advantage::Disadvantage => if first <= draw {
                            first
                        } else {
                            draw
                        },
                        Advantage::Normal => draw,
                    };
                    self.opening = false;
                    self.held = None;
                    self.settle(value);
                },
            }
        } else {
            self.held = None;
            self.settle(draw);
        }
    }

    /// Settles `value` for the die in hand.
    fn settle(&mut self, value: i32)
        requires
            !old(self)@.done(),
            old(self)@.stored.len() < MAX_ROLLS,
        ensures
            final(self)@ == settle(old(self).expression(), old(self)@, value),
            final(self).expression() == old(self).expression(),
    {
        if self.expression.reroll(value) {
            return ;
        }
        self.results.push(value);
        if self.expression.explode(value) {
            return ;
        }
        self.remaining = self.remaining - 1;
    }

    /// The result of the finished roll.
    pub fn finish(self) -> (realized: RealizedExpression)
        requires
            self@.done(),
        ensures
            realized@ == (Realized {
                results: self@.stored,
                sides: self.expression().max,
                modifier: self.expression().modifier,
            }),
    {
        RealizedExpression {
            results: self.results,
            max: self.expression.max,
            modifier: self.expression.modifier,
        }
    }
}

/// The roll after the first `upto + 1` draws is the roll after the first
/// `upto`, one step on.
pub proof fn lemma_run_next(expression: Expression, draws: Seq<i32>, upto: int)
    requires
        0 <= upto < draws.len(),
    ensures
        run(expression, draws.take(upto + 1)) == step(
            expression,
            run(expression, draws.take(upto)),
            draws[upto],
        ),
{
    assert(draws.take(upto + 1).drop_last() =~= draws.take(upto));
}

/// A roll that is done after some of the draws is the same after all of
/// them: what follows is not drawn.
pub proof fn lemma_done_stays(expression: Expression, draws: Seq<i32>, upto: int)
    requires
        0 <= upto <= draws.len(),
        run(expression, draws.take(upto)).done(),
    ensures
        run(expression, draws) == run(expression, draws.take(upto)),
    decreases draws.len() - upto,
{
    if upto < draws.len() {
        lemma_run_next(expression, draws, upto);
        lemma_done_stays(expression, draws, upto + 1);
    } else {
        assert(draws.take(upto) =~= draws);
    }
}

/// Every die that is not finished stores at least one more value before
/// the roll is done: the stored values and the unfinished dice together
/// never become fewer.
pub proof fn lemma_stores_ahead(expression: Expression, draws: Seq<i32>, upto: int)
    requires
        0 <= upto <= draws.len(),
        !run(expression, draws.take(upto)).done(),
    ensures
        run(expression, draws.take(upto)).stored.len() + run(
            expression,
            draws.take(upto),
        ).remaining <= run(expression, draws).stored.len() + if run(expression, draws).done() {
            0
        } else {
            run(expression, draws).remaining
        },
    decreases draws.len() - upto,
{
    if upto < draws.len() {
        lemma_run_next(expression, draws, upto);
        if run(expression, draws.take(upto + 1)).done() {
            lemma_done_stays(expression, draws, upto + 1);
        } else {
            lemma_stores_ahead(expression, draws, upto + 1);
        }
    } else {
        assert(draws.take(upto) =~= draws);
    }
}

/// `times` times the size `max`.
pub open spec fn repeated(max: i32, times: nat) -> Seq<i32> {
    Seq::new(times, |i: int| max)
}

/// A source of draws.
///
/// `next(max)` hands out one value for a die of `max` sides. The roll
/// takes the value as it comes: that it lies between one and `max` is the
/// source's business, and nothing here depends on it. What a roll owes the
/// source is to ask for the right die, each time: `asked` keeps the sizes.
pub trait Realizer {
    /// The draws that this source hands out from here on, in order. A
    /// source that does not say what it holds is taken to hold nothing: a
    /// caller that is verified cannot draw from it.
    open spec fn pending(&self) -> Seq<i32> {
        Seq::empty()
    }

    /// The sizes of die that this source has been asked for so far, in
    /// order. A source that does not say is taken never to have been
    /// asked.
    open spec fn asked(&self) -> Seq<i32> {
        Seq::empty()
    }

    /// Hands out the next draw, for a die of `max` sides.
    fn next(&mut self, max: i32) -> (value: i32)
        requires
            old(self).pending().len() > 0,
        ensures
            value == old(self).pending().first(),
            final(self).pending() == old(self).pending().drop_first(),
            final(self).asked() == old(self).asked().push(max),
    ;

    /// Rolls `expression` with draws from this source.
    ///
    /// The roll comes to an end if and only if the pending draws finish it,
    /// which is what the first condition asks. The result is then the one
    /// that `run` describes, and just the draws that it took are gone from
    /// the source, each of them asked for with the number of sides of the
    /// expression.
    fn realize(&mut self, expression: &Expression) -> (realized: RealizedExpression)
        requires
            run(*expression, old(self).pending()).done(),
            run(*expression, old(self).pending()).stored.len() <= MAX_ROLLS,
        ensures
            realized@ == outcome(*expression, old(self).pending()),
            final(self).pending() == old(self).pending().skip(
                run(*expression, old(self).pending()).drawn as int,
            ),
            final(self).asked() == old(self).asked() + repeated(
                expression.max,
                run(*expression, old(self).pending()).drawn,
            ),
    {
        let ghost draws = self.pending();
        let ghost before = self.asked();
        let mut roll = Realization::new(expression);
        proof {
            assert(draws.take(0) =~= Seq::<i32>::empty());
            assert(draws.skip(0) =~= draws);
            assert(before + repeated(expression.max, 0) =~= before);
        }
        while !roll.is_done()
            invariant
                roll.expression() == *expression,
                self.asked() == before + repeated(expression.max, roll@.drawn),
                roll@.drawn <= draws.len(),
                roll@ == run(*expression, draws.take(roll@.drawn as int)),
                self.pending() == draws.skip(roll@.drawn as int),
                run(*expression, draws).done(),
                run(*expression, draws).stored.len() <= MAX_ROLLS,
            decreases draws.len() - roll@.drawn,
        {
            let ghost taken = roll@.drawn as int;
            proof {
                lemma_stores_ahead(*expression, draws, taken);
                if taken == draws.len() {
                    assert(draws.take(taken) =~= draws);
                }
                lemma_run_next(*expression, draws, taken);
            }
            let draw: i32 = self.next(expression.max);
            roll.feed(draw);
            proof {
                assert(draws.skip(taken).drop_first() =~= draws.skip(taken + 1));
                assert((before + repeated(expression.max, taken as nat)).push(expression.max)
                    =~= before + repeated(expression.max, (taken + 1) as nat));
            }
        }
        proof {
            lemma_done_stays(*expression, draws, roll@.drawn as int);
        }
        roll.finish()
    }
}

/// The number of draws that the first value of a roll takes: two under
/// advantage or disadvantage, else one.
pub open spec fn opening_draws(expression: Expression) -> int {
    if expression.advantage != Advantage::Normal {
        2
    } else {
        1
    }
}

/// The values that a roll stores when none of its draws is thrown away or
/// explodes: the value kept of the opening draws if there are two, and
/// then one draw for each further die.
pub open spec fn plain_values(expression: Expression, draws: Seq<i32>) -> Seq<i32> {
    if expression.advantage != Advantage::Normal {
        seq![kept(expression.advantage, draws[0], draws[1])] + draws.subrange(
            2,
            expression.count + 1,
        )
    } else {
        draws.take(expression.count as int)
    }
}

/// Whether none of `draws` is thrown away or explodes.
pub open spec fn all_plain(expression: Expression, draws: Seq<i32>) -> bool {
    forall|i: int|
        0 <= i < draws.len() ==> !expression.rerolls(#[trigger] draws[i]) && !expression.explodes(
            draws[i],
        )
}

/// How far a roll of plain draws has come: after the opening, each draw
/// finishes one die.
proof fn lemma_plain_run(expression: Expression, draws: Seq<i32>)
    requires
        expression.count >= 1,
        all_plain(expression, draws),
        draws.len() <= expression.count + opening_draws(expression) - 1,
    ensures
        ({
            let progress = run(expression, draws);
            let extra = opening_draws(expression) - 1;
            &&& progress.drawn == draws.len()
            &&& if draws.len() <= extra {
                &&& progress.stored.len() == 0
                &&& progress.remaining == expression.count
                &&& progress.opening == (extra == 1)
                &&& progress.held == if draws.len() == 1 {
                    Some(draws[0])
                } else {
                    None
                }
            } else {
                &&& progress.stored == plain_values(
                    Expression { count: (draws.len() - extra) as i32, ..expression },
                    draws,
                )
                &&& progress.remaining == expression.count - (draws.len() - extra)
                &&& !progress.opening
                &&& progress.held is None
            }
        }),
    decreases draws.len(),
{
    let extra = opening_draws(expression) - 1;
    if draws.len() > 0 {
        let before = draws.drop_last();
        lemma_plain_run(expression, before);
        assert(!expression.rerolls(draws[draws.len() - 1]));
        if draws.len() > extra {
            let value = if extra == 1 && draws.len() == 2 {
                let first = draws[0];
                let second = draws[1];
                assert(before[0] == first);
                assert(!expression.rerolls(first) && !expression.explodes(first));
                kept(expression.advantage, first, second)
            } else {
                draws.last()
            };
            let shorter = Expression { count: (before.len() - extra) as i32, ..expression };
            let longer = Expression { count: (draws.len() - extra) as i32, ..expression };
            if before.len() > extra {
                assert(plain_values(longer, draws) =~= plain_values(shorter, before).push(value));
            } else {
                assert(plain_values(longer, draws) =~= Seq::<i32>::empty().push(value));
            }
        }
    }
}

/// A roll comes to an end on draws that are neither thrown away nor
/// explode: it takes one draw for each die, and one more where the first
/// value is chosen from two, and stores what `plain_values` says.
///
/// Whether such draws exist is a matter of the thresholds: if the reroll
/// threshold is below the number of sides and the explode threshold above
/// it, the largest value of the die is one.
pub proof fn law_finishes_on_plain_draws(expression: Expression, draws: Seq<i32>)
    requires
        expression.count >= 1,
        draws.len() == expression.count + opening_draws(expression) - 1,
        all_plain(expression, draws),
    ensures
        run(expression, draws).done(),
        run(expression, draws).drawn == draws.len(),
        run(expression, draws).stored == plain_values(expression, draws),
{
    lemma_plain_run(expression, draws);
    let extra = opening_draws(expression) - 1;
    assert((Expression { count: (draws.len() - extra) as i32, ..expression }) == expression);
}

/// A roll whose reroll threshold is below the number of sides, and in which
/// the largest value of the die does not explode, comes to an end when
/// every die shows that value.
pub proof fn law_finishes_on_largest_values(expression: Expression)
    requires
        expression.is_valid(),
        expression.reroll matches Some(threshold) ==> threshold.0 < expression.max,
        expression.explode matches Some(threshold) ==> threshold.0 > expression.max,
    ensures
        run(
            expression,
            Seq::new(
                (expression.count + opening_draws(expression) - 1) as nat,
                |i: int| expression.max,
            ),
        ).done(),
{
    let draws = Seq::new(
        (expression.count + opening_draws(expression) - 1) as nat,
        |i: int| expression.max,
    );
    law_finishes_on_plain_draws(expression, draws);
}

/// Whether `value` is neither thrown away nor explodes, so that it
/// finishes the die that shows it.
pub open spec fn is_plain(expression: Expression, value: i32) -> bool {
    !expression.rerolls(value) && !expression.explodes(value)
}

/// The number of `draws` that are neither thrown away nor explode.
pub open spec fn plain_count(expression: Expression, draws: Seq<i32>) -> nat
    decreases draws.len(),
{
    if draws.len() == 0 {
        0
    } else {
        plain_count(expression, draws.drop_last()) + if is_plain(expression, draws.last()) {
            1nat
        } else {
            0nat
        }
    }
}

/// How the dice that are not finished go down with the plain draws: each
/// plain draw finishes a die, but for one that may be lost where the first
/// value is chosen from two.
proof fn lemma_plain_draws_finish(expression: Expression, draws: Seq<i32>)
    ensures
        ({
            let progress = run(expression, draws);
            let plain = plain_count(expression, draws);
            progress.done() || if progress.opening {
                &&& expression.advantage != Advantage::Normal
                &&& progress.remaining == expression.count
                &&& plain == match progress.held {
                    Some(first) => if is_plain(expression, first) {
                        1nat
                    } else {
                        0nat
                    },
                    None => 0nat,
                }
            } else {
                progress.remaining <= expression.count - plain + opening_draws(expression) - 1
            }
        }),
    decreases draws.len(),
{
    if draws.len() > 0 {
        lemma_plain_draws_finish(expression, draws.drop_last());
    }
}

/// A roll comes to an end as soon as enough of its draws are neither
/// thrown away nor explode: one for each die, and one more where the first
/// value is chosen from two. What else is drawn in between does not
/// matter. So a source that keeps handing out such a value, whatever comes
/// in between, finishes every roll.
pub proof fn law_finishes_on_enough_plain_draws(expression: Expression, draws: Seq<i32>)
    requires
        plain_count(expression, draws) >= expression.count + opening_draws(expression) - 1,
    ensures
        run(expression, draws).done(),
{
    lemma_plain_draws_finish(expression, draws);
}

/// A die has a value that is neither thrown away nor explodes if the
/// reroll threshold is below the number of sides and the explode threshold
/// is above one and more than one above the reroll threshold: the value
/// just above the reroll threshold, or a one, is such a value.
pub proof fn law_die_has_plain_value(expression: Expression) -> (value: i32)
    requires
        expression.max >= 1,
        expression.reroll matches Some(reroll) ==> reroll.0 < expression.max,
        expression.explode matches Some(explode) ==> explode.0 > 1 && (expression.reroll matches Some(
            reroll,
        ) ==> explode.0 > reroll.0 + 1),
    ensures
        1 <= value <= expression.max,
        is_plain(expression, value),
{
    match expression.reroll {
        Some(reroll) => if reroll.0 >= 1 {
            (reroll.0 + 1) as i32
        } else {
            1
        },
        None => 1,
    }
}

/// A roll of at least one die never comes to an end on draws that are all
/// thrown away: nothing is stored and no die is finished, however many
/// draws are taken. That is the case of a reroll threshold at or above the
/// number of sides, with draws that no die of that many sides exceeds.
pub proof fn law_rerolls_never_finish(expression: Expression, draws: Seq<i32>)
    requires
        expression.count >= 1,
        forall|i: int| 0 <= i < draws.len() ==> expression.rerolls(#[trigger] draws[i]),
    ensures
        !run(expression, draws).done(),
        run(expression, draws).stored.len() == 0,
        run(expression, draws).remaining == expression.count,
        run(expression, draws).held matches Some(first) ==> expression.rerolls(first),
    decreases draws.len(),
{
    if draws.len() > 0 {
        law_rerolls_never_finish(expression, draws.drop_last());
        assert(expression.rerolls(draws[draws.len() - 1]));
    }
}

/// A roll of at least one die never comes to an end on draws of which each
/// is thrown away or explodes: no die is finished, however many draws are
/// taken. That is the case of every draw whatever where the explode
/// threshold is no more than one above the reroll threshold.
pub proof fn law_never_finishes_without_plain_draw(expression: Expression, draws: Seq<i32>)
    requires
        expression.count >= 1,
        forall|i: int|
            0 <= i < draws.len() ==> expression.rerolls(#[trigger] draws[i]) || expression.explodes(
                draws[i],
            ),
    ensures
        !run(expression, draws).done(),
        run(expression, draws).remaining == expression.count,
        run(expression, draws).held matches Some(first) ==> expression.rerolls(first)
            || expression.explodes(first),
    decreases draws.len(),
{
    if draws.len() > 0 {
        law_never_finishes_without_plain_draw(expression, draws.drop_last());
        let last = draws[draws.len() - 1];
        assert(expression.rerolls(last) || expression.explodes(last));
    }
}

/// Where the explode threshold is no more than one above the reroll
/// threshold, every value is thrown away or explodes.
pub proof fn law_thresholds_that_meet(expression: Expression, value: i32)
    requires
        expression.reroll matches Some(reroll) && (expression.explode matches Some(explode)
            && explode.0 <= reroll.0 + 1),
    ensures
        expression.rerolls(value) || expression.explodes(value),
{
}

} // verus!
