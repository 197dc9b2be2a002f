use miniexpr::expr::{Evaluator, LiteralOrVar};
use miniexpr::literal_type::LiteralType;
use miniexpr::token::{parse_tokens, tokenize, ParseError, Token};

fn words(ws: &[&str]) -> Vec<String> {
    ws.iter().map(|w| String::from(*w)).collect()
}

fn eval_root(ev: &mut Evaluator, root: usize) -> Option<LiteralType> {
    match ev.evaluate(root) {
        Ok(LiteralOrVar::Literal(l)) => l,
        other => panic!("expected a literal result, got {:?}", other),
    }
}

#[test]
fn tokenize_recognizes_integers_and_plus() {
    let ts = tokenize(&words(&["12", "+", "-3"])).unwrap();
    assert_eq!(ts, vec![Token::Int(12), Token::PLUS, Token::Int(-3)]);
}

#[test]
fn tokenize_rejects_unknown_words() {
    assert_eq!(tokenize(&words(&["1", "+", "x"])).unwrap_err(), ParseError::UnknownWord);
    assert_eq!(tokenize(&words(&["++"])).unwrap_err(), ParseError::UnknownWord);
}

#[test]
fn from_word_classifies() {
    assert_eq!(Token::from_word("41"), Some(Token::Int(41)));
    assert_eq!(Token::from_word("+"), Some(Token::PLUS));
    assert_eq!(Token::from_word("+1"), Some(Token::Int(1)));
    assert_eq!(Token::from_word("plus"), None);
    assert_eq!(Token::from_word(""), None);
}

#[test]
fn parse_and_evaluate_a_sum() {
    let mut ev = Evaluator::new();
    let ts = tokenize(&words(&["1", "+", "2"])).unwrap();
    let root = parse_tokens(&mut ev, &ts).unwrap();
    assert_eq!(eval_root(&mut ev, root), Some(LiteralType::Int(3)));
}

#[test]
fn the_last_group_wins() {
    let mut ev = Evaluator::new();
    let ts = tokenize(&words(&["1", "+", "2", "10", "+", "20"])).unwrap();
    let root = parse_tokens(&mut ev, &ts).unwrap();
    assert_eq!(eval_root(&mut ev, root), Some(LiteralType::Int(30)));
}

#[test]
fn empty_input_evaluates_the_seed_literal() {
    let mut ev = Evaluator::new();
    let ts: Vec<Token> = Vec::new();
    let root = parse_tokens(&mut ev, &ts).unwrap();
    assert_eq!(eval_root(&mut ev, root), Some(LiteralType::Int(5)));
}

#[test]
fn malformed_token_sequences_are_rejected() {
    let cases: Vec<Vec<Token>> = vec![
        vec![Token::Int(1)],
        vec![Token::PLUS],
        vec![Token::Int(1), Token::Int(2), Token::Int(3)],
        vec![Token::Int(1), Token::PLUS],
        vec![Token::Int(1), Token::PLUS, Token::PLUS],
        vec![Token::Int(1), Token::PLUS, Token::Int(2), Token::Int(3)],
    ];
    for ts in cases {
        let mut ev = Evaluator::new();
        assert_eq!(parse_tokens(&mut ev, &ts).unwrap_err(), ParseError::MalformedExpression);
    }
}
