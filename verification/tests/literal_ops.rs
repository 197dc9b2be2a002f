use miniexpr::literal_type::{ArithOp, CmpOp, EvalError, LiteralType};
use miniexpr::numtext::{bool_str, int_to_string, parse_int};

fn lit_int(i: i64) -> LiteralType {
    LiteralType::Int(i)
}

fn boolean(b: bool) -> LiteralType {
    LiteralType::Bool(b)
}

fn text(s: &str) -> LiteralType {
    LiteralType::Text(String::from(s))
}

#[test]
fn integer_addition() {
    assert_eq!(lit_int(2).add(&lit_int(3)), Ok(lit_int(5)));
    assert_eq!(lit_int(-2).add(&lit_int(3)), Ok(lit_int(1)));
    assert_eq!(lit_int(0).add(&lit_int(0)), Ok(lit_int(0)));
}

#[test]
fn integer_subtraction_multiplication_division() {
    assert_eq!(lit_int(7).sub(&lit_int(9)), Ok(lit_int(-2)));
    assert_eq!(lit_int(6).mul(&lit_int(7)), Ok(lit_int(42)));
    assert_eq!(lit_int(7).div(&lit_int(2)), Ok(lit_int(3)));
    assert_eq!(lit_int(-7).div(&lit_int(2)), Ok(lit_int(-3)));
    assert_eq!(lit_int(7).div(&lit_int(-2)), Ok(lit_int(-3)));
    assert_eq!(lit_int(-7).div(&lit_int(-2)), Ok(lit_int(3)));
}

#[test]
fn boolean_coerces_to_integer() {
    assert_eq!(boolean(true).add(&lit_int(4)), Ok(lit_int(5)));
    assert_eq!(lit_int(4).add(&boolean(false)), Ok(lit_int(4)));
    assert_eq!(boolean(true).add(&boolean(true)), Ok(lit_int(2)));
    assert_eq!(boolean(true).sub(&lit_int(3)), Ok(lit_int(-2)));
    assert_eq!(lit_int(6).mul(&boolean(true)), Ok(lit_int(6)));
    assert_eq!(lit_int(6).div(&boolean(true)), Ok(lit_int(6)));
}

#[test]
fn text_addition_concatenates_in_operand_order() {
    assert_eq!(text("x").add(&lit_int(5)), Ok(text("x5")));
    assert_eq!(lit_int(5).add(&text("x")), Ok(text("5x")));
    assert_eq!(text("x").add(&boolean(true)), Ok(text("xtrue")));
    assert_eq!(boolean(false).add(&text("x")), Ok(text("falsex")));
    assert_eq!(text("Hello").add(&text(" World!")), Ok(text("Hello World!")));
    assert_eq!(lit_int(-12).add(&text("!")), Ok(text("-12!")));
}

#[test]
fn text_rejected_by_other_operators() {
    assert_eq!(lit_int(1).sub(&text("x")), Err(EvalError::TextOperand(ArithOp::Sub)));
    assert_eq!(text("x").sub(&lit_int(1)), Err(EvalError::TextOperand(ArithOp::Sub)));
    assert_eq!(lit_int(1).mul(&text("x")), Err(EvalError::TextOperand(ArithOp::Mul)));
    assert_eq!(text("x").mul(&text("y")), Err(EvalError::TextOperand(ArithOp::Mul)));
    assert_eq!(lit_int(1).div(&text("x")), Err(EvalError::TextOperand(ArithOp::Div)));
    assert_eq!(text("x").div(&lit_int(1)), Err(EvalError::TextOperand(ArithOp::Div)));
    assert_eq!(text("x").neg(), Err(EvalError::TextNegation));
}

#[test]
fn negation() {
    assert_eq!(lit_int(5).neg(), Ok(lit_int(-5)));
    assert_eq!(lit_int(-5).neg(), Ok(lit_int(5)));
    assert_eq!(boolean(true).neg(), Ok(lit_int(-1)));
    assert_eq!(boolean(false).neg(), Ok(lit_int(0)));
}

#[test]
fn division_by_zero_is_an_error() {
    assert_eq!(lit_int(1).div(&lit_int(0)), Err(EvalError::DivisionByZero));
    assert_eq!(lit_int(1).div(&boolean(false)), Err(EvalError::DivisionByZero));
}

#[test]
fn overflow_is_an_error() {
    assert_eq!(lit_int(i64::MAX).add(&lit_int(1)), Err(EvalError::Overflow));
    assert_eq!(lit_int(i64::MIN).sub(&lit_int(1)), Err(EvalError::Overflow));
    assert_eq!(lit_int(i64::MAX).mul(&lit_int(2)), Err(EvalError::Overflow));
    assert_eq!(lit_int(i64::MIN).div(&lit_int(-1)), Err(EvalError::Overflow));
    assert_eq!(lit_int(i64::MIN).neg(), Err(EvalError::Overflow));
}

#[test]
fn combine_dispatches() {
    assert_eq!(lit_int(2).combine(ArithOp::Add, &lit_int(3)), Ok(lit_int(5)));
    assert_eq!(lit_int(2).combine(ArithOp::Sub, &lit_int(3)), Ok(lit_int(-1)));
    assert_eq!(lit_int(2).combine(ArithOp::Mul, &lit_int(3)), Ok(lit_int(6)));
    assert_eq!(lit_int(6).combine(ArithOp::Div, &lit_int(3)), Ok(lit_int(2)));
}

#[test]
fn truthiness() {
    assert_eq!(lit_int(0).to_bool(), false);
    assert_eq!(lit_int(7).to_bool(), true);
    assert_eq!(text("").to_bool(), false);
    assert_eq!(text("a").to_bool(), true);
    assert_eq!(boolean(true).to_bool(), true);
    assert_eq!(boolean(false).to_bool(), false);
}

#[test]
fn numeric_conversion() {
    assert_eq!(lit_int(9).to_int(), Ok(9));
    assert_eq!(boolean(true).to_int(), Ok(1));
    assert_eq!(boolean(false).to_int(), Ok(0));
    assert_eq!(text("42").to_int(), Ok(42));
    assert_eq!(text("-17").to_int(), Ok(-17));
    assert_eq!(text("abc").to_int(), Err(EvalError::NumberFormat));
    assert_eq!(text("").to_int(), Err(EvalError::NumberFormat));
    assert_eq!(text("99999999999999999999").to_int(), Err(EvalError::NumberFormat));
}

#[test]
fn comparisons() {
    assert_eq!(lit_int(2).compare(CmpOp::Lt, &lit_int(3)), Ok(boolean(true)));
    assert_eq!(lit_int(3).compare(CmpOp::Lt, &lit_int(3)), Ok(boolean(false)));
    assert_eq!(lit_int(3).compare(CmpOp::Le, &lit_int(3)), Ok(boolean(true)));
    assert_eq!(lit_int(4).compare(CmpOp::Gt, &lit_int(3)), Ok(boolean(true)));
    assert_eq!(lit_int(4).compare(CmpOp::Ge, &lit_int(5)), Ok(boolean(false)));
    assert_eq!(boolean(true).compare(CmpOp::Gt, &lit_int(0)), Ok(boolean(true)));
    assert_eq!(text("a").compare(CmpOp::Eq, &text("a")), Ok(boolean(true)));
    assert_eq!(text("a").compare(CmpOp::Ne, &text("b")), Ok(boolean(true)));
    assert_eq!(lit_int(5).compare(CmpOp::Eq, &text("5")), Ok(boolean(false)));
    assert_eq!(
        lit_int(1).compare(CmpOp::Lt, &text("2")),
        Err(EvalError::TextComparison(CmpOp::Lt))
    );
}

#[test]
fn stringify_matches_rust_rendering() {
    assert_eq!(lit_int(0).stringify(), "0");
    assert_eq!(lit_int(-5).stringify(), "-5");
    assert_eq!(lit_int(1234567).stringify(), "1234567");
    assert_eq!(boolean(true).stringify(), "true");
    assert_eq!(boolean(false).stringify(), "false");
    assert_eq!(text("hi").stringify(), "hi");
    assert_eq!(int_to_string(i64::MIN), i64::MIN.to_string());
    assert_eq!(int_to_string(i64::MAX), i64::MAX.to_string());
    assert_eq!(bool_str(true), "true");
}

#[test]
fn parse_int_accepts_what_str_parse_accepts() {
    assert_eq!(parse_int("0"), Some(0));
    assert_eq!(parse_int("007"), Some(7));
    assert_eq!(parse_int("+7"), Some(7));
    assert_eq!(parse_int("-9223372036854775808"), Some(i64::MIN));
    assert_eq!(parse_int("9223372036854775807"), Some(i64::MAX));
    assert_eq!(parse_int("9223372036854775808"), None);
    assert_eq!(parse_int("-9223372036854775809"), None);
    assert_eq!(parse_int(""), None);
    assert_eq!(parse_int("-"), None);
    assert_eq!(parse_int("+"), None);
    assert_eq!(parse_int("1 2"), None);
    assert_eq!(parse_int("12a"), None);
}
