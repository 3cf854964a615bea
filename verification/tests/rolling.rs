use roll::rolls::MAX_ROLLS;
use roll::{
    Advantage, Explode, Expression, ExpressionParser, Highlight, LogWrapper, Realization, Realizer,
    Reroll, RngSource, RollLog, ScriptedRealizer,
};

fn parse(text: &str) -> Expression {
    ExpressionParser::new().parse(text).unwrap()
}

fn rolled(text: &str, draws: Vec<i32>) -> Vec<i32> {
    let mut source = ScriptedRealizer::new(draws);
    source.realize(&parse(text)).results().into_iter().map(|(_, value)| value).collect()
}

#[test]
fn scripted_rolls() {
    assert_eq!(rolled("2d6", vec![2, 3]), vec![2, 3]);
    assert_eq!(rolled("a20", vec![2, 20]), vec![20]);
    assert_eq!(rolled("a20", vec![20, 2]), vec![20]);
    assert_eq!(rolled("s20", vec![20, 2]), vec![2]);
    assert_eq!(rolled("s20", vec![2, 20]), vec![2]);
    assert_eq!(rolled("2d6r2", vec![2, 3, 5]), vec![3, 5]);
    assert_eq!(rolled("2d6!5", vec![3, 5, 2]), vec![3, 5, 2]);
    assert_eq!(rolled("2d6r2!5", vec![1, 2, 5, 6, 3, 4]), vec![5, 6, 3, 4]);
    // the value kept of the first two draws is thrown away: two more plain draws finish the roll
    assert_eq!(rolled("s2d6r2", vec![3, 1, 4, 5]), vec![4, 5]);
    assert_eq!(rolled("a2d6r2", vec![3, 1, 2, 6]), vec![3, 6]);
}

#[test]
fn scripted_sums() {
    let sum = |text: &str, draws: Vec<i32>| ScriptedRealizer::new(draws).realize(&parse(text)).sum();
    assert_eq!(sum("2d6", vec![2, 3]), 5);
    assert_eq!(sum("a20", vec![2, 20]), 20);
    assert_eq!(sum("2d6r2", vec![2, 3, 5]), 8);
    assert_eq!(sum("2d6!5", vec![3, 5, 2]), 10);
    assert_eq!(sum("2d6+3", vec![1, 1]), 5);
    assert_eq!(sum("2d6-3", vec![1, 1]), -1);
}

#[test]
fn advantage_is_for_the_first_die_only() {
    // two draws for the first die, one for each of the others
    assert_eq!(rolled("a3d6", vec![1, 4, 2, 3]), vec![4, 2, 3]);
    assert_eq!(rolled("s3d6", vec![1, 4, 2, 3]), vec![1, 2, 3]);
    let mut source = ScriptedRealizer::new(vec![1, 4, 2, 3, 6]);
    source.realize(&parse("a3d6"));
    assert_eq!(source.remaining(), 1);
}

#[test]
fn advantage_is_not_taken_again_after_a_reroll() {
    // the kept value of the first two draws is rerolled by a single draw
    assert_eq!(rolled("a2d6r2", vec![1, 2, 5, 6]), vec![5, 6]);
    assert_eq!(rolled("s2d6r2", vec![1, 6, 5, 4]), vec![5, 4]);
}

#[test]
fn an_exploded_value_may_be_rerolled_and_explode_again() {
    assert_eq!(rolled("1d6r1!6", vec![6, 1, 6, 1, 1, 3]), vec![6, 6, 3]);
}

#[test]
fn only_the_draws_that_are_needed_are_taken() {
    let mut source = ScriptedRealizer::new(vec![3, 5, 2, 6, 6, 6]);
    assert_eq!(source.remaining(), 6);
    let first = source.realize(&parse("2d6!5"));
    assert_eq!(first.sum(), 10);
    assert_eq!(source.remaining(), 3);
    assert_eq!(source.next(6), 6);
    assert_eq!(source.remaining(), 2);
}

#[test]
fn no_dice_no_draws() {
    for count in [0, -1, i32::MIN] {
        let expression = Expression { count, max: 6, modifier: 4, advantage: Advantage::Advantage, ..Default::default() };
        let mut source = ScriptedRealizer::new(vec![1, 2, 3]);
        let realized = source.realize(&expression);
        assert_eq!(realized.results(), vec![]);
        assert_eq!(realized.sum(), 4);
        assert_eq!(source.remaining(), 3);
        assert!(Realization::new(&expression).is_done());
    }
}

#[test]
fn highlights() {
    let realized = ScriptedRealizer::new(vec![1, 6, 3]).realize(&parse("3d6"));
    assert_eq!(
        realized.results(),
        vec![(Highlight::Low, 1), (Highlight::High, 6), (Highlight::Normal, 3)]
    );
    // a one is low even on a die of one side
    let realized = ScriptedRealizer::new(vec![1]).realize(&parse("1d1"));
    assert_eq!(realized.results(), vec![(Highlight::Low, 1)]);
    // values are shown as they come, whatever the die
    let realized = ScriptedRealizer::new(vec![7, -2]).realize(&parse("2d6"));
    assert_eq!(realized.results(), vec![(Highlight::Normal, 7), (Highlight::Normal, -2)]);
}

#[test]
fn critical_rolls() {
    let critical = |text: &str, draws: Vec<i32>| ScriptedRealizer::new(draws).realize(&parse(text)).is_critical();
    assert!(critical("d20", vec![20]));
    assert!(critical("d20+5", vec![20]));
    assert!(critical("a20", vec![3, 20]));
    assert!(!critical("d20", vec![19]));
    assert!(!critical("2d20", vec![20, 20]));
    assert!(!critical("d20!", vec![20, 3]));
    assert!(!critical("0d20", vec![]));
    // the sum of several values may come to the largest value without being critical
    assert!(!critical("2d6", vec![3, 3]));
}

#[test]
fn modifier_of_a_roll() {
    assert_eq!(ScriptedRealizer::new(vec![2]).realize(&parse("d6+3")).modifier(), 3);
    assert_eq!(ScriptedRealizer::new(vec![2]).realize(&parse("d6-3")).modifier(), -3);
    assert_eq!(ScriptedRealizer::new(vec![2]).realize(&parse("d6")).modifier(), 0);
}

#[test]
fn sums_that_do_not_fit() {
    let expression = Expression { count: 2, max: i32::MAX, ..Default::default() };
    let realized = ScriptedRealizer::new(vec![i32::MAX, 1]).realize(&expression);
    assert_eq!(realized.checked_sum(), None);
    let expression = Expression { count: 3, max: i32::MAX, ..Default::default() };
    let realized = ScriptedRealizer::new(vec![i32::MAX, 1, -5]).realize(&expression);
    assert_eq!(realized.checked_sum(), Some(i32::MAX - 4));
    assert_eq!(realized.sum(), i32::MAX - 4);
    let expression = Expression { count: 1, max: 6, modifier: i32::MIN, ..Default::default() };
    let realized = ScriptedRealizer::new(vec![-1]).realize(&expression);
    assert_eq!(realized.checked_sum(), None);
}

#[test]
fn a_copy_of_a_roll_holds_the_same() {
    let realized = ScriptedRealizer::new(vec![1, 6, 3]).realize(&parse("3d6+2"));
    let copy = realized.clone();
    assert_eq!(copy.results(), realized.results());
    assert_eq!(copy.sum(), 12);
    assert_eq!(copy.modifier(), 2);
}

#[test]
fn more_values_than_fit_in_place() {
    let draws: Vec<i32> = (1..=40).collect();
    assert_eq!(rolled("40d100", draws.clone()), draws);
}

#[test]
fn a_roll_fed_draw_by_draw() {
    let expression = parse("a2d6r1!6");
    let mut roll = Realization::new(&expression);
    assert_eq!(roll.sides(), 6);
    let mut fed = 0;
    for draw in [1, 1, 6, 1, 2, 4] {
        assert!(!roll.is_done());
        roll.feed(draw);
        fed += 1;
    }
    assert!(roll.is_done());
    assert_eq!(fed, 6);
    let realized = roll.finish();
    // 1,1 keeps 1, rerolled to 6, which explodes; 1 is rerolled to 2; then 4
    assert_eq!(realized.results(), vec![(Highlight::High, 6), (Highlight::Normal, 2), (Highlight::Normal, 4)]);
    assert_eq!(realized.sum(), 12);
}

#[test]
fn a_roll_ends_on_the_largest_values() {
    for text in ["3d6", "a3d6", "s3d6r5", "3d6r", "a1d1"] {
        let expression = parse(text);
        let opening = if expression.advantage == Advantage::Normal { 0 } else { 1 };
        let draws = vec![expression.max; (expression.count + opening) as usize];
        let mut source = ScriptedRealizer::new(draws);
        let realized = source.realize(&expression);
        assert_eq!(source.remaining(), 0, "{}", text);
        assert_eq!(realized.results().len(), expression.count as usize, "{}", text);
        assert_eq!(realized.sum(), expression.count * expression.max, "{}", text);
    }
}

#[test]
fn a_roll_never_ends_on_values_that_are_all_rerolled() {
    // a reroll threshold at the number of sides: whatever the die shows is thrown away
    let expression = Expression { count: 1, max: 6, reroll: Some(Reroll(6)), explode: Some(Explode(1)), ..Default::default() };
    let mut roll = Realization::new(&expression);
    for draw in (1..=6).cycle().take(10_000) {
        assert!(!roll.is_done());
        roll.feed(draw);
    }
    assert!(!roll.is_done());
}

#[test]
fn a_roll_never_ends_without_a_value_that_is_kept_and_does_not_explode() {
    // twos and below are thrown away, threes and above explode
    let expression = Expression { count: 1, max: 6, reroll: Some(Reroll(2)), explode: Some(Explode(3)), ..Default::default() };
    let mut roll = Realization::new(&expression);
    for draw in (1..=6).cycle().take(10_000) {
        assert!(!roll.is_done());
        roll.feed(draw);
    }
    assert!(!roll.is_done());
}

#[test]
fn stored_values_stay_under_the_limit_of_a_list() {
    assert_eq!(MAX_ROLLS, 1 << 28);
    assert_eq!(roll::log::MAX_LOGGED, 1 << 28);
    assert_eq!(roll::log::MAX_SIZES, 1 << 24);
}

struct Counter(i32);

impl Realizer for Counter {
    fn next(&mut self, max: i32) -> i32 {
        self.0 += 1;
        (self.0 - 1) % max + 1
    }
}

#[test]
fn any_source_of_draws_will_do() {
    let mut source = Counter(0);
    let realized = source.realize(&parse("4d3!3"));
    // 1, 2, 3 explodes into 1, then 2
    assert_eq!(realized.sum(), 9);
    assert_eq!(realized.results().len(), 5);
}

#[test]
fn real_dice_show_values_of_the_die() {
    let mut source = RngSource::new(2024);
    assert_eq!(source.len(), 0);
    assert!(!source.knows(6));
    let mut seen = [false; 6];
    for _ in 0..2_000 {
        let value = source.next(6);
        assert!((1..=6).contains(&value));
        seen[(value - 1) as usize] = true;
    }
    assert!(seen.iter().all(|&one| one));
    assert!(source.knows(6));
    assert_eq!(source.len(), 1);
    for _ in 0..100 {
        assert_eq!(source.next(1), 1);
    }
    assert_eq!(source.len(), 2);
    assert!(source.knows(1));
    assert!(!source.knows(2));
}

#[test]
fn real_dice_driven_draw_by_draw() {
    let expression = parse("a4d6r1!6+2");
    let mut source = RngSource::new(11);
    let mut log = RollLog::new();
    let mut roll = Realization::new(&expression);
    let mut drawn = Vec::new();
    while !roll.is_done() {
        let value = source.advance(&mut roll, &mut log);
        assert!((1..=6).contains(&value));
        drawn.push(value);
    }
    let realized = roll.finish();
    assert_eq!(log.len(), drawn.len());
    assert_eq!(log.into_entries(), vec![(6, drawn.clone())]);
    // the same draws give the same roll again
    let again = ScriptedRealizer::new(drawn).realize(&expression);
    assert_eq!(again.results(), realized.results());
    assert!(realized.results().iter().all(|&(_, value)| value > 1));
}

#[test]
fn a_log_keeps_the_draws_by_size() {
    let mut log = RollLog::new();
    assert_eq!(log.len(), 0);
    log.record(6, 3);
    log.record(20, 17);
    log.record(6, 1);
    log.record(6, 6);
    assert_eq!(log.len(), 4);
    assert_eq!(log.sizes(), 2);
    assert!(log.knows(6) && log.knows(20) && !log.knows(3));
    let mut entries = log.into_entries();
    entries.sort();
    assert_eq!(entries, vec![(6, vec![3, 1, 6]), (20, vec![17])]);
    assert_eq!(RollLog::new().into_entries(), vec![]);
}

#[test]
fn a_logged_source_hands_out_the_same_draws() {
    let mut source = ScriptedRealizer::new(vec![2, 20, 3, 5, 2, 9]);
    let mut logged = LogWrapper::new(&mut source);
    assert_eq!(logged.realize(&parse("a20")).sum(), 20);
    assert_eq!(logged.realize(&parse("2d6!5")).sum(), 10);
    let mut entries = logged.finalize().into_entries();
    entries.sort();
    assert_eq!(entries, vec![(6, vec![3, 5, 2]), (20, vec![2, 20])]);
    assert_eq!(source.remaining(), 1);
}

#[test]
fn real_dice_roll_whole_expressions() {
    let mut source = RngSource::new(5);
    let mut log = RollLog::new();
    let first = parse("a4d6r1!6+2");
    let second = parse("3d20");
    let one = source.roll(&mut log, &first).unwrap();
    let two = source.roll(&mut log, &second).unwrap();
    assert_eq!(two.results().len(), 3);
    assert!(one.results().len() >= 4);
    assert!(one.results().iter().all(|&(_, value)| (2..=6).contains(&value)));
    assert!(two.results().iter().all(|&(_, value)| (1..=20).contains(&value)));
    assert_eq!(source.len(), 2);
    let mut entries = log.into_entries();
    entries.sort();
    assert_eq!(entries.len(), 2);
    assert_eq!(entries[0].0, 6);
    assert_eq!(entries[1].0, 20);
    // the draws that the log holds give the same rolls again
    let again = ScriptedRealizer::new(entries[0].1.clone()).realize(&first);
    assert_eq!(again.results(), one.results());
    let again = ScriptedRealizer::new(entries[1].1.clone()).realize(&second);
    assert_eq!(again.results(), two.results());
}

#[test]
fn a_roll_of_no_dice_takes_no_draw() {
    let mut source = RngSource::new(5);
    let mut log = RollLog::new();
    let none = Expression { count: 0, max: 0, modifier: 3, ..Default::default() };
    let realized = source.roll(&mut log, &none).unwrap();
    assert_eq!(realized.results(), vec![]);
    assert_eq!(realized.sum(), 3);
    assert_eq!(log.len(), 0);
    assert_eq!(source.len(), 0);
}

#[test]
fn the_same_seed_gives_the_same_dice() {
    let throws = |seed: u64| {
        let mut source = RngSource::new(seed);
        (0..200).map(|_| source.next(20)).collect::<Vec<i32>>()
    };
    assert_eq!(throws(7), throws(7));
    assert_ne!(throws(7), throws(8));
    // one generator serves every size of die
    let mut mixed = RngSource::new(7);
    let mut alone = RngSource::new(7);
    let first = mixed.next(20);
    mixed.next(6);
    assert_eq!(first, alone.next(20));
    assert_eq!(mixed.len(), 2);
    assert_eq!(alone.len(), 1);
}
