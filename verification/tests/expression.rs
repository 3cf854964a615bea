use roll::{Explode, Expression, ExpressionParser, Realizer, Reroll, StrategyModifier};

#[test]
fn expression_bounded_expression() {
    let expression = parse("2d6");
    assert_eq!(count_max(2, 6), expression);
}

#[test]
fn expression_leading_bounded_expression() {
    let a = parse("20");
    let b = parse("d20");
    let expected = count_max(1, 20);
    assert_eq!(a, expected);
    assert_eq!(b, expected);
}

#[test]
fn expression_bounded_expression_with_reroll() {
    let actual = parse("2d6r");
    let expected = Expression {
        count: 2,
        max: 6,
        reroll: Some(Reroll(1)),
        ..Default::default()
    };

    assert_eq!(actual, expected);
}

#[test]
fn expression_bounded_expression_with_reroll_2() {
    let actual = parse("2d6r2");
    let expected = Expression {
        count: 2,
        max: 6,
        reroll: Some(Reroll(2)),
        ..Default::default()
    };

    assert_eq!(actual, expected);
}

#[test]
fn expression_bounded_expression_with_explode() {
    let actual = parse("2d6!");
    let expected = Expression {
        count: 2,
        max: 6,
        explode: Some(Explode(6)),
        ..Default::default()
    };

    assert_eq!(actual, expected);
}

#[test]
fn expression_bounded_expression_with_explode_5() {
    let actual = parse("2d6!5");
    let expected = Expression {
        count: 2,
        max: 6,
        explode: Some(Explode(5)),
        ..Default::default()
    };

    assert_eq!(actual, expected);
}

#[test]
fn expression_bounded_expression_with_reroll_and_explode() {
    let actual = parse("2d6r!");
    let expected = Expression {
        count: 2,
        max: 6,
        reroll: Some(Reroll(1)),
        explode: Some(Explode(6)),
        ..Default::default()
    };

    assert_eq!(actual, expected);
}

#[test]
fn expression_bounded_expression_with_reroll_and_explode_non_default_thresholds() {
    let a = parse("2d6r2!5");
    let b = parse("2d6!5r2");
    let expected = Expression {
        count: 2,
        max: 6,
        reroll: Some(Reroll(2)),
        explode: Some(Explode(5)),
        ..Default::default()
    };

    assert_eq!(a, expected);
    assert_eq!(b, expected);
}

#[test]
fn expression_bounded_expression_with_advantage() {
    let a = parse("a20");
    let b = parse("a1d20");
    let c = parse("ad20");

    let expected = Expression {
        count: 1,
        max: 20,
        advantage: StrategyModifier::Advantage,
        ..Default::default()
    };

    assert_eq!(a, expected);
    assert_eq!(b, expected);
    assert_eq!(c, expected);
}

#[test]
fn expression_bounded_expression_with_disadvantage() {
    let a = parse("s20");
    let b = parse("s1d20");

    let expected = Expression {
        count: 1,
        max: 20,
        advantage: StrategyModifier::Disadvantage,
        ..Default::default()
    };

    assert_eq!(a, expected);
    assert_eq!(b, expected);
}

#[test]
fn expression_realize_bounded_expression() {
    let mut realizer = MockRealizer::new(vec![2, 3]);
    let expression = parse("2d6");
    assert_eq!(5, realizer.realize(&expression).sum());
}

#[test]
fn expression_realize_advantage() {
    let mut realizer = MockRealizer::new(vec![2, 20]);
    let expression = parse("a20");
    assert_eq!(20, realizer.realize(&expression).sum());
}

#[test]
fn expression_realize_disadvantage() {
    let mut realizer = MockRealizer::new(vec![20, 2]);
    let expression = parse("s20");
    assert_eq!(2, realizer.realize(&expression).sum());
}

#[test]
fn expression_realize_reroll() {
    let mut realizer = MockRealizer::new(vec![2, 3, 5]);
    let expression = parse("2d6r2");
    assert_eq!(8, realizer.realize(&expression).sum());
}

#[test]
fn expression_realize_explode() {
    let mut realizer = MockRealizer::new(vec![3, 5, 2]);
    let expression = parse("2d6!5");
    assert_eq!(10, realizer.realize(&expression).sum());
}

#[test]
fn expression_realize_reroll_and_explode() {
    let mut realizer = MockRealizer::new(vec![1, 2, 5, 6, 3, 4]);
    let expression = parse("2d6r2!5");
    assert_eq!(18, realizer.realize(&expression).sum());
}

// I honestly don't know what the desired result for these two tests is.
// Let these serve to exemplify the behavior of the library rather than to
// define correct behavior.
// - realize_advantage_reroll_and_explode
// - realize_disadvantage_reroll_and_explode

#[test]
fn expression_realize_advantage_reroll_and_explode() {
    let mut realizer = MockRealizer::new(vec![1, 5, 3, 2]);
    let expression = parse("a2d6r!5");
    assert_eq!(10, realizer.realize(&expression).sum());
}

#[test]
fn expression_realize_disadvantage_reroll_and_explode() {
    let mut realizer = MockRealizer::new(vec![1, 5, 3, 2]);
    let expression = parse("s2d6re5");
    assert_eq!(5, realizer.realize(&expression).sum());
}

fn parse(s: &str) -> Expression {
    ExpressionParser::new().parse(s).unwrap()
}

fn count_max(count: i32, max: i32) -> Expression {
    Expression {
        count,
        max,
        ..Default::default()
    }
}

struct MockRealizer<T> {
    source: T,
}

impl<T> MockRealizer<T> {
    fn new(source: impl IntoIterator<IntoIter = T>) -> Self {
        Self {
            source: source.into_iter(),
        }
    }
}

impl<T: Iterator<Item = i32>> Realizer for MockRealizer<T> {
    fn next(&mut self, _max: i32) -> i32 {
        self.source.next().unwrap()
    }
}
