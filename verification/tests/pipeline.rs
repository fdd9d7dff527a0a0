use roxy::interpreter::{Interpreter, RuntimeError, RuntimeValue};
use roxy::parser::Parser;
use roxy::scanner::scan;

const UNIT: u64 = 1_000_000_000;

fn eval_source(src: &str) -> Result<RuntimeValue, RuntimeError> {
    let (tokens, diags) = scan(src);
    assert!(diags.is_empty(), "unexpected diagnostics: {:?}", diags);
    let mut parser = Parser::new(tokens);
    let expr = parser.parse().expect("expected a parse tree");
    let mut interpreter = Interpreter::new();
    interpreter.interpret(expr)
}

fn expect_number(src: &str, neg: bool, mag: u64) {
    match eval_source(src) {
        Ok(RuntimeValue::Number(d)) => {
            assert_eq!(d.neg, neg, "sign of {:?}", src);
            assert_eq!(d.mag, mag, "magnitude of {:?}", src);
        }
        other => panic!("{:?}: expected a number, got {:?}", src, other),
    }
}

fn expect_boolean(src: &str, expected: bool) {
    match eval_source(src) {
        Ok(RuntimeValue::Boolean(b)) => assert_eq!(b, expected, "value of {:?}", src),
        other => panic!("{:?}: expected a boolean, got {:?}", src, other),
    }
}

fn expect_error(src: &str, expected: RuntimeError) {
    match eval_source(src) {
        Err(e) => assert_eq!(e, expected, "error of {:?}", src),
        other => panic!("{:?}: expected {:?}, got {:?}", src, expected, other),
    }
}

#[test]
fn grouping_is_transparent() {
    expect_number("(5)", false, 5 * UNIT);
    expect_number("5", false, 5 * UNIT);
    expect_number("(1 + 2)", false, 3 * UNIT);
    expect_number("1 + 2", false, 3 * UNIT);
    expect_number("((4 * 2))", false, 8 * UNIT);
}

#[test]
fn grouping_overrides_precedence() {
    expect_number("(1 + 2) * 3", false, 9 * UNIT);
}

#[test]
fn multiplication_binds_tighter_than_addition() {
    expect_number("1 + 2 * 3", false, 7 * UNIT);
}

#[test]
fn subtraction_is_left_associative() {
    expect_number("8 - 3 - 2", false, 3 * UNIT);
}

#[test]
fn double_bang_yields_truthiness() {
    expect_boolean("!!true", true);
    expect_boolean("!!nil", false);
}

#[test]
fn double_minus_negates_twice() {
    expect_number("--5", false, 5 * UNIT);
    expect_number("-5", true, 5 * UNIT);
    expect_number("---5", true, 5 * UNIT);
}

#[test]
fn plus_concatenates_strings() {
    match eval_source("\"foo\" + \"bar\"") {
        Ok(RuntimeValue::Str(s)) => assert_eq!(s, "foobar"),
        other => panic!("expected a string, got {:?}", other),
    }
}

#[test]
fn plus_rejects_mixed_operands() {
    expect_error("\"foo\" + 1", RuntimeError::UnsupportedPlusOperands);
    expect_error("1 + \"foo\"", RuntimeError::UnsupportedPlusOperands);
    expect_error("nil + nil", RuntimeError::UnsupportedPlusOperands);
}

#[test]
fn cross_type_equality_never_errors() {
    expect_boolean("1 == \"1\"", false);
    expect_boolean("nil == nil", true);
    expect_boolean("true == 1", false);
    expect_boolean("\"a\" == \"a\"", true);
    expect_boolean("\"a\" != \"b\"", true);
    expect_boolean("1 != 2", true);
    expect_boolean("2 == 2", true);
}

#[test]
fn zero_and_empty_string_are_truthy() {
    expect_boolean("!0", false);
    expect_boolean("!nil", true);
    expect_boolean("!\"\"", false);
    expect_boolean("!false", true);
}

#[test]
fn unterminated_group_is_a_parse_error() {
    let (tokens, diags) = scan("(1 + 2");
    assert!(diags.is_empty());
    let mut parser = Parser::new(tokens);
    assert!(parser.parse().is_none());
}

#[test]
fn missing_primary_is_a_parse_error() {
    let (tokens, diags) = scan("1 +");
    assert!(diags.is_empty());
    let mut parser = Parser::new(tokens);
    assert!(parser.parse().is_none());
}

#[test]
fn division_and_multiplication_are_not_swapped() {
    expect_number("6 / 2", false, 3 * UNIT);
    expect_number("6 * 2", false, 12 * UNIT);
}

#[test]
fn decimal_addition_is_exact() {
    expect_number("0.1 + 0.2", false, 300_000_000);
}

#[test]
fn fractional_arithmetic() {
    expect_number("7 / 2", false, 3_500_000_000);
    expect_number("2 * 3.5", false, 7 * UNIT);
    expect_number("1 / 3", false, 333_333_333);
}

#[test]
fn comparisons_order_numbers() {
    expect_boolean("2 > 1", true);
    expect_boolean("1 > 2", false);
    expect_boolean("1 >= 1", true);
    expect_boolean("1 < 2", true);
    expect_boolean("2 <= 1", false);
    expect_boolean("-3 < 1", true);
    expect_boolean("-1 <= -1", true);
}

#[test]
fn ordering_requires_numbers() {
    expect_error("\"a\" < \"b\"", RuntimeError::OperandsMustBeNumbers);
    expect_error("nil > 1", RuntimeError::OperandsMustBeNumbers);
}

#[test]
fn unary_minus_requires_a_number() {
    expect_error("-true", RuntimeError::OperandMustBeANumber);
    expect_error("-\"x\"", RuntimeError::OperandMustBeANumber);
}

#[test]
fn arithmetic_requires_numbers() {
    expect_error("1 - nil", RuntimeError::OperandsMustBeNumbers);
    expect_error("true * 2", RuntimeError::OperandsMustBeNumbers);
}

#[test]
fn division_by_zero_is_an_error() {
    expect_error("1 / 0", RuntimeError::DivisionByZero);
}

#[test]
fn overflowing_arithmetic_is_an_error() {
    expect_error("999999999 * 999999999", RuntimeError::NumberOverflow);
    expect_error("999999999 + 999999999 + 999999999", RuntimeError::NumberOverflow);
}

#[test]
fn error_messages_name_the_failure() {
    let err = eval_source("1 + nil").unwrap_err();
    assert_eq!(err.message(), "Unsupported type for plus operator");
    let err = eval_source("-nil").unwrap_err();
    assert_eq!(err.message(), "Operand must be a number");
    let err = eval_source("nil - nil").unwrap_err();
    assert_eq!(err.message(), "Operands must be numbers");
}

#[test]
fn negative_zero_equals_zero() {
    expect_boolean("-0 == 0", true);
    expect_boolean("0 < -0", false);
}

#[test]
fn equality_binds_loosest() {
    expect_boolean("1 + 2 == 3", true);
    expect_boolean("1 < 2 == true", true);
    expect_boolean("!true == false", true);
}

#[test]
fn source_may_hold_comments_and_newlines() {
    expect_number("1 + // one more\n2", false, 3 * UNIT);
}

#[test]
fn stray_tokens_do_not_make_an_expression() {
    let (tokens, diags) = scan("= 1");
    assert!(diags.is_empty());
    let mut parser = Parser::new(tokens);
    assert!(parser.parse().is_none());

    let (tokens, diags) = scan("froth");
    assert!(diags.is_empty());
    let mut parser = Parser::new(tokens);
    assert!(parser.parse().is_none());
}
