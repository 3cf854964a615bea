use roll::integer::{parse_i32, parse_usize};
use roll::{
    parse_threshold_token, Advantage, Error, Explode, ExplodeTokenExtractor, Expression,
    ExpressionParser, IntegerError, Reroll, RerollTokenExtractor, Token, TokenExtractor,
};

fn parse(text: &str) -> Result<Expression, Error> {
    ExpressionParser::new().parse(text)
}

fn plain(count: i32, max: i32) -> Expression {
    Expression { count, max, ..Default::default() }
}

#[test]
fn default_expression_is_empty() {
    let expression = Expression::default();
    assert_eq!(expression.count, 0);
    assert_eq!(expression.max, 0);
    assert_eq!(expression.modifier, 0);
    assert_eq!(expression.advantage, Advantage::Normal);
    assert_eq!(expression.reroll, None);
    assert_eq!(expression.explode, None);
    assert_eq!(Advantage::default(), Advantage::Normal);
}

#[test]
fn two_six_sided_dice() {
    let expression = parse("2d6").unwrap();
    assert_eq!(expression.count, 2);
    assert_eq!(expression.max, 6);
    assert_eq!(expression.modifier, 0);
    assert_eq!(expression.advantage, Advantage::Normal);
    assert_eq!(expression.reroll, None);
    assert_eq!(expression.explode, None);
}

#[test]
fn count_defaults_to_one() {
    assert_eq!(parse("20").unwrap(), plain(1, 20));
    assert_eq!(parse("d20").unwrap(), plain(1, 20));
    assert_eq!(parse("D20").unwrap(), plain(1, 20));
}

#[test]
fn upper_case_markers() {
    let expected = Expression { advantage: Advantage::Advantage, ..plain(3, 8) };
    assert_eq!(parse("A3D8").unwrap(), expected);
    let expected = Expression { advantage: Advantage::Disadvantage, ..plain(3, 8) };
    assert_eq!(parse("S3D8").unwrap(), expected);
}

#[test]
fn digits_without_sides_are_the_sides() {
    // the count needs sides behind its marker; without them the digits
    // in front are the sides themselves
    assert_eq!(parse("2d").unwrap(), plain(1, 2));
    assert_eq!(parse("2ddd6").unwrap(), plain(1, 2));
    assert_eq!(parse("12x").unwrap(), plain(1, 12));
}

#[test]
fn a_second_die_marker_is_skipped() {
    assert_eq!(parse("2dd6").unwrap(), plain(2, 6));
    assert_eq!(parse("a2Dd6").unwrap(), Expression { advantage: Advantage::Advantage, ..plain(2, 6) });
}

#[test]
fn text_without_dice_term_is_refused() {
    for text in ["", "d", "dd20", "x", "a", "ad", "+3", "r", " 2d6", "aa20"] {
        assert_eq!(parse(text), Err(Error::BadExpression(text.to_string())), "{}", text);
    }
}

#[test]
fn numbers_that_do_not_fit_are_refused() {
    assert_eq!(
        parse("2147483648d6"),
        Err(Error::BadInteger("2147483648".to_string(), IntegerError::PosOverflow))
    );
    assert_eq!(
        parse("2d99999999999"),
        Err(Error::BadInteger("99999999999".to_string(), IntegerError::PosOverflow))
    );
    assert_eq!(
        parse("2d6+2147483648"),
        Err(Error::BadInteger("+2147483648".to_string(), IntegerError::PosOverflow))
    );
    assert_eq!(
        parse("2d6-2147483649"),
        Err(Error::BadInteger("-2147483649".to_string(), IntegerError::NegOverflow))
    );
    assert_eq!(
        parse("2d6r3000000000"),
        Err(Error::BadInteger("3000000000".to_string(), IntegerError::PosOverflow))
    );
    assert_eq!(
        parse("2d6!3000000000"),
        Err(Error::BadInteger("3000000000".to_string(), IntegerError::PosOverflow))
    );
}

#[test]
fn the_first_failure_is_reported() {
    // count before sides, sides before modifier, modifier before thresholds
    assert_eq!(
        parse("3000000000d4000000000"),
        Err(Error::BadInteger("3000000000".to_string(), IntegerError::PosOverflow))
    );
    assert_eq!(
        parse("2d4000000000+5000000000"),
        Err(Error::BadInteger("4000000000".to_string(), IntegerError::PosOverflow))
    );
    assert_eq!(
        parse("2d6r6000000000+5000000000"),
        Err(Error::BadInteger("+5000000000".to_string(), IntegerError::PosOverflow))
    );
    assert_eq!(
        parse("2d6!7000000000r6000000000"),
        Err(Error::BadInteger("6000000000".to_string(), IntegerError::PosOverflow))
    );
}

#[test]
fn largest_numbers_that_fit() {
    let expression = parse("2147483647d2147483647-2147483648").unwrap();
    assert_eq!(expression.count, i32::MAX);
    assert_eq!(expression.max, i32::MAX);
    assert_eq!(expression.modifier, i32::MIN);
    assert_eq!(parse("0002d0006").unwrap(), plain(2, 6));
    assert_eq!(parse("0d0").unwrap(), plain(0, 0));
}

#[test]
fn modifier_is_the_first_signed_number() {
    assert_eq!(parse("2d6+3").unwrap().modifier, 3);
    assert_eq!(parse("2d6-3").unwrap().modifier, -3);
    assert_eq!(parse("2d6+3-1").unwrap().modifier, 3);
    assert_eq!(parse("2d6+-3").unwrap().modifier, -3);
    assert_eq!(parse("2d6+").unwrap().modifier, 0);
    assert_eq!(parse("2d6r2+4!5").unwrap().modifier, 4);
}

#[test]
fn reroll_threshold() {
    assert_eq!(parse("2d6r").unwrap().reroll, Some(Reroll(1)));
    assert_eq!(parse("2d6r2").unwrap().reroll, Some(Reroll(2)));
    assert_eq!(parse("2d6r0").unwrap().reroll, Some(Reroll(0)));
    assert_eq!(parse("2d6rr3").unwrap().reroll, Some(Reroll(1)));
    assert_eq!(parse("2d6R2").unwrap().reroll, None);
}

#[test]
fn explode_threshold() {
    assert_eq!(parse("2d6!").unwrap().explode, Some(Explode(6)));
    assert_eq!(parse("2d6!5").unwrap().explode, Some(Explode(5)));
    assert_eq!(parse("2d6e").unwrap().explode, Some(Explode(6)));
    assert_eq!(parse("2d6e4").unwrap().explode, Some(Explode(4)));
    assert_eq!(parse("2d6e!3").unwrap().explode, Some(Explode(6)));
    assert_eq!(parse("d20!").unwrap().explode, Some(Explode(20)));
}

#[test]
fn tokens_in_any_order() {
    let expected = Expression {
        modifier: -2,
        advantage: Advantage::Disadvantage,
        reroll: Some(Reroll(2)),
        explode: Some(Explode(5)),
        ..plain(2, 6)
    };
    for text in ["s2d6r2!5-2", "s2d6!5r2-2", "s2d6-2r2!5", "s2d6-2!5r2", "s2d6!5-2r2", "s2d6r2-2!5"] {
        assert_eq!(parse(text).unwrap(), expected, "{}", text);
    }
}

#[test]
fn equal_texts_parse_alike_however_often() {
    let parser = ExpressionParser::default();
    assert_eq!(parser.parse("a2d6r!5+1"), parser.parse("a2d6r!5+1"));
    assert_eq!(parser.parse("zz"), parser.parse("zz"));
}

#[test]
fn thresholds_decide_single_values() {
    let expression = parse("2d6r2!5").unwrap();
    assert!(expression.reroll(1));
    assert!(expression.reroll(2));
    assert!(!expression.reroll(3));
    assert!(!expression.explode(4));
    assert!(expression.explode(5));
    assert!(expression.explode(6));
    let bare = parse("2d6").unwrap();
    assert!(!bare.reroll(i32::MIN));
    assert!(!bare.explode(i32::MAX));
    assert!(Reroll(3).should_reroll(3));
    assert!(!Reroll(3).should_reroll(4));
    assert!(Explode(3).should_explode(3));
    assert!(!Explode(3).should_explode(2));
}

#[test]
fn average_of_two_dice_plus_three() {
    let expression = parse("2d6+3").unwrap();
    assert_eq!(expression.twice_average_result(), 20);
    assert_eq!(expression.twice_average_result() as f64 / 2.0, 10.0);
    assert_eq!(parse("d20").unwrap().twice_average_result(), 21);
    assert_eq!(parse("3d6r!-4").unwrap().twice_average_result(), 13);
}

#[test]
fn average_does_not_overflow() {
    let expression = Expression { count: i32::MAX, max: i32::MAX, modifier: i32::MAX, ..Default::default() };
    assert_eq!(
        expression.twice_average_result(),
        (1 + i32::MAX as i64) * i32::MAX as i64 + 2 * i32::MAX as i64
    );
    let expression = Expression { count: i32::MIN, max: i32::MIN, modifier: i32::MIN, ..Default::default() };
    assert_eq!(
        expression.twice_average_result(),
        (1 + i32::MIN as i64) * i32::MIN as i64 + 2 * i32::MIN as i64
    );
}

#[test]
fn signed_integers() {
    assert_eq!(parse_i32("0"), Ok(0));
    assert_eq!(parse_i32("17"), Ok(17));
    assert_eq!(parse_i32("+17"), Ok(17));
    assert_eq!(parse_i32("-17"), Ok(-17));
    assert_eq!(parse_i32("0000000000000000000017"), Ok(17));
    assert_eq!(parse_i32("2147483647"), Ok(i32::MAX));
    assert_eq!(parse_i32("-2147483648"), Ok(i32::MIN));
    assert_eq!(parse_i32("2147483648"), Err(IntegerError::PosOverflow));
    assert_eq!(parse_i32("-2147483649"), Err(IntegerError::NegOverflow));
    assert_eq!(parse_i32(""), Err(IntegerError::Empty));
    assert_eq!(parse_i32("+"), Err(IntegerError::InvalidDigit));
    assert_eq!(parse_i32("-"), Err(IntegerError::InvalidDigit));
    assert_eq!(parse_i32("12a"), Err(IntegerError::InvalidDigit));
    assert_eq!(parse_i32("1 2"), Err(IntegerError::InvalidDigit));
    assert_eq!(parse_i32("++1"), Err(IntegerError::InvalidDigit));
    assert_eq!(parse_i32("١٢"), Err(IntegerError::InvalidDigit));
    // what goes wrong first is what is reported
    assert_eq!(parse_i32("99999999999x"), Err(IntegerError::PosOverflow));
    assert_eq!(parse_i32("-99999999999x"), Err(IntegerError::NegOverflow));
    assert_eq!(parse_i32("9x9999999999"), Err(IntegerError::InvalidDigit));
}

#[test]
fn signed_integers_as_std_reads_them() {
    for text in [
        "0", "7", "+7", "-7", "", "+", "-", "2147483647", "2147483648", "-2147483648",
        "-2147483649", "12a", "a12", "99999999999x", "-99999999999x", "9x9999999999", "0x10",
        " 1", "1 ", "--1", "+-1", "00000000000000000000000001", "4294967296",
    ] {
        let expected = text.parse::<i32>().map_err(|error| match error.kind() {
            std::num::IntErrorKind::Empty => IntegerError::Empty,
            std::num::IntErrorKind::InvalidDigit => IntegerError::InvalidDigit,
            std::num::IntErrorKind::PosOverflow => IntegerError::PosOverflow,
            std::num::IntErrorKind::NegOverflow => IntegerError::NegOverflow,
            _ => unreachable!(),
        });
        assert_eq!(parse_i32(text), expected, "{:?}", text);
    }
}

#[test]
fn unsigned_integers() {
    assert_eq!(parse_usize("0"), Ok(0));
    assert_eq!(parse_usize("+12"), Ok(12));
    assert_eq!(parse_usize("-12"), Err(IntegerError::InvalidDigit));
    assert_eq!(parse_usize(""), Err(IntegerError::Empty));
    assert_eq!(parse_usize(&usize::MAX.to_string()), Ok(usize::MAX));
    assert_eq!(parse_usize("340282366920938463463374607431768211456"), Err(IntegerError::PosOverflow));
    for text in ["", "+", "-", "5", "+5", "-5", "18446744073709551615", "18446744073709551616", "1e3"] {
        assert_eq!(parse_usize(text).ok(), text.parse::<usize>().ok(), "{:?}", text);
    }
}

#[test]
fn integer_errors_in_words() {
    assert_eq!(IntegerError::Empty.describe(), "cannot parse integer from empty string");
    assert_eq!(IntegerError::InvalidDigit.describe(), "invalid digit found in string");
    assert_eq!(IntegerError::PosOverflow.describe(), "number too large to fit in target type");
    assert_eq!(IntegerError::NegOverflow.describe(), "number too small to fit in target type");
}

#[test]
fn error_messages() {
    assert_eq!(parse("x").unwrap_err().message(), "Unable to parse expression: x");
    assert_eq!(
        parse("2d99999999999").unwrap_err().message(),
        "Bad integer: 99999999999; number too large to fit in target type"
    );
    assert_eq!(
        parse("2d6-99999999999").unwrap_err().message(),
        "Bad integer: -99999999999; number too small to fit in target type"
    );
}

#[test]
fn token_extractors() {
    let reroll = RerollTokenExtractor::default();
    assert_eq!(reroll.extract("2d6"), (false, None));
    assert_eq!(reroll.extract("2d6r"), (true, None));
    assert_eq!(reroll.extract("2d6r12!5"), (true, Some("12")));
    assert_eq!(reroll.extract("r3r4"), (true, Some("3")));
    let explode = ExplodeTokenExtractor::default();
    assert_eq!(explode.extract("2d6"), (false, None));
    assert_eq!(explode.extract("2d6!"), (true, None));
    assert_eq!(explode.extract("2d6e"), (true, None));
    assert_eq!(explode.extract("2d6r2!55+1"), (true, Some("55")));
    assert_eq!(explode.extract("é!7"), (true, Some("7")));
}

#[test]
fn tokens_are_found_where_they_first_stand() {
    let chars: Vec<char> = "2d6+-3r!e".chars().collect();
    assert_eq!(Token::Modifier.find(&chars), 4);
    assert_eq!(Token::Reroll.find(&chars), 6);
    assert_eq!(Token::Explode.find(&chars), 7);
    let chars: Vec<char> = "2d6".chars().collect();
    assert_eq!(Token::Modifier.find(&chars), 3);
    assert_eq!(Token::Reroll.find(&chars), 3);
    assert_eq!(Token::Explode.find(&chars), 3);
}

struct Fixed(&'static str);

impl TokenExtractor for Fixed {
    fn extract<'a>(&self, _text: &'a str) -> (bool, Option<&'a str>) {
        (true, Some(self.0))
    }
}

#[test]
fn threshold_tokens() {
    let reroll = RerollTokenExtractor::default();
    assert_eq!(parse_threshold_token(&reroll, "2d6", 1), Ok(None));
    assert_eq!(parse_threshold_token(&reroll, "2d6r", 7), Ok(Some(7)));
    assert_eq!(parse_threshold_token(&reroll, "2d6r3", 7), Ok(Some(3)));
    assert_eq!(
        parse_threshold_token(&reroll, "2d6r99999999999", 7),
        Err(Error::BadInteger("99999999999".to_string(), IntegerError::PosOverflow))
    );
    assert_eq!(parse_threshold_token(&Fixed("-4"), "whatever", 7), Ok(Some(-4)));
    assert_eq!(
        parse_threshold_token(&Fixed("four"), "whatever", 7),
        Err(Error::BadInteger("four".to_string(), IntegerError::InvalidDigit))
    );
    assert_eq!(
        parse_threshold_token(&Fixed(""), "whatever", 7),
        Err(Error::BadInteger("".to_string(), IntegerError::Empty))
    );
}

#[test]
fn only_ascii_digits_are_digits() {
    // a digit of another script is a character like any other
    let expression = parse("2d\u{663}").unwrap();
    assert_eq!((expression.count, expression.max), (1, 2));
    assert_eq!(parse("d\u{663}"), Err(Error::BadExpression("d\u{663}".to_string())));
    assert_eq!(parse("\u{663}d6"), Err(Error::BadExpression("\u{663}d6".to_string())));
    let expression = parse("2d6r\u{663}!\u{ff15}").unwrap();
    assert_eq!(expression.reroll, Some(Reroll(1)));
    assert_eq!(expression.explode, Some(Explode(6)));
    let expression = parse("2d6+\u{663}").unwrap();
    assert_eq!(expression.modifier, 0);
    assert_eq!(parse_i32("\u{663}"), Err(IntegerError::InvalidDigit));
    assert_eq!(parse_usize("1\u{663}"), Err(IntegerError::InvalidDigit));
}
