//! The two-token toy grammar: whitespace-separated decimal integers and a
//! plus sign, read as a sequence of `int + int` groups. Each group builds
//! a small addition tree; the last group's tree is the one handed to the
//! evaluator, and an empty input falls back to the seed literal the tree
//! is initialized with.

use vstd::prelude::*;

use crate::expr::Evaluator;
use crate::expr::ExprV;
use crate::literal_type::ArithOp;
use crate::literal_type::LitView;
use crate::literal_type::LiteralType;
use crate::numtext::parse_int;
use crate::numtext::str_int;
use crate::numtext::valid_int_chars;

verus! {

/// A token of the toy grammar.
#[derive(Clone, Copy, Debug, PartialEq, Eq, Structural)]
pub enum Token {
    Int(i64),
    PLUS,
}

/// What went wrong while reading source text.
#[derive(Clone, Copy, Debug, PartialEq, Eq, Structural)]
pub enum ParseError {
    /// A word that is neither an integer nor a plus sign.
    UnknownWord,
    /// A token sequence that is not a run of `int + int` groups.
    MalformedExpression,
}

/// The token a single word stands for, if any.
pub open spec fn word_token(s: Seq<char>) -> Option<Token> {
    if valid_int_chars(s) && crate::literal_type::in_i64(str_int(s)) {
        Some(Token::Int(str_int(s) as i64))
    } else if s == seq!['+'] {
        Some(Token::PLUS)
    } else {
        None
    }
}

impl Token {
    /// Classify one whitespace-separated word.
    pub fn from_word(s: &str) -> (r: Option<Token>)
        ensures
            r == word_token(s@),
    {
        match parse_int(s) {
            Some(v) => Some(Token::Int(v)),
            None => {
                if s.unicode_len() == 1 && s.get_char(0) == '+' {
                    proof {
                        assert(s@ =~= seq!['+']);
                    }
                    Some(Token::PLUS)
                } else {
                    proof {
                        if s@ == seq!['+'] {
                            assert(s@.len() == 1 && s@[0] == '+');
                        }
                    }
                    None
                }
            },
        }
    }
}

/// Turn a sequence of words into tokens; an unclassifiable word is a
/// reported error.
pub fn tokenize(words: &Vec<String>) -> (r: Result<Vec<Token>, ParseError>)
    ensures
        match r {
            Ok(ts) => ts@.len() == words@.len() && forall|i: int|
                0 <= i < words@.len() ==> word_token(words@[i]@) == Some(#[trigger] ts@[i]),
            Err(e) => e == ParseError::UnknownWord && exists|i: int|
                0 <= i < words@.len() && word_token(#[trigger] words@[i]@) is None,
        },
{
    let mut out: Vec<Token> = Vec::new();
    let mut i: usize = 0;
    while i < words.len()
        invariant
            i <= words@.len(),
            out@.len() == i,
            forall|j: int| 0 <= j < i ==> word_token(words@[j]@) == Some(#[trigger] out@[j]),
        decreases words@.len() - i,
    {
        match Token::from_word(words[i].as_str()) {
            Some(t) => out.push(t),
            None => {
                return Err(ParseError::UnknownWord);
            },
        }
        i = i + 1;
    }
    Ok(out)
}

/// A token sequence the grammar accepts: a run of `int + int` groups.
pub open spec fn tokens_wellformed(ts: Seq<Token>) -> bool {
    &&& ts.len() % 3 == 0
    &&& forall|i: int|
        0 <= i < ts.len() ==> (if i % 3 == 1 {
            (#[trigger] ts[i]) == Token::PLUS
        } else {
            ts[i] is Int
        })
}

/// The integer a token carries.
pub open spec fn token_int(t: Token) -> i64 {
    match t {
        Token::Int(v) => v,
        Token::PLUS => 0,
    }
}

/// Build the expression the token sequence stands for: each `int + int`
/// group becomes a fresh addition tree, the last one wins, and an empty
/// sequence leaves the seed literal `5` in place.
pub fn parse_tokens(ev: &mut Evaluator, tokens: &Vec<Token>) -> (r: Result<usize, ParseError>)
    requires
        old(ev).wf(),
    ensures
        final(ev).wf(),
        final(ev)@.env == old(ev)@.env,
        old(ev)@.nodes.len() <= final(ev)@.nodes.len(),
        forall|j: int| 0 <= j < old(ev)@.nodes.len() ==> #[trigger] final(ev)@.nodes[j] == old(
            ev,
        )@.nodes[j],
        match r {
            Ok(root) => {
                &&& tokens_wellformed(tokens@)
                &&& (root as int) < final(ev)@.nodes.len()
                &&& (if tokens@.len() == 0 {
                    final(ev)@.nodes[root as int] == ExprV::Literal(Some(LitView::Int(5)))
                } else {
                    let n = tokens@.len();
                    &&& root >= 2
                    &&& final(ev)@.nodes[root as int] == ExprV::ArithmeticExpr(
                        root as int - 2,
                        ArithOp::Add,
                        root as int - 1,
                    )
                    &&& final(ev)@.nodes[root as int - 2] == ExprV::Literal(
                        Some(LitView::Int(token_int(tokens@[n - 3]) as int)),
                    )
                    &&& final(ev)@.nodes[root as int - 1] == ExprV::Literal(
                        Some(LitView::Int(token_int(tokens@[n - 1]) as int)),
                    )
                })
            },
            Err(e) => e == ParseError::MalformedExpression && !tokens_wellformed(tokens@),
        },
{
    let mut root = ev.lit(Some(LiteralType::Int(5)));
    let mut i: usize = 0;
    while i < tokens.len()
        invariant
            ev.wf(),
            ev@.env == old(ev)@.env,
            old(ev)@.nodes.len() <= ev@.nodes.len(),
            forall|j: int| 0 <= j < old(ev)@.nodes.len() ==> #[trigger] ev@.nodes[j] == old(
                ev,
            )@.nodes[j],
            i % 3 == 0,
            i <= tokens@.len(),
            (root as int) < ev@.nodes.len(),
            forall|j: int|
                0 <= j < i ==> (if j % 3 == 1 {
                    (#[trigger] tokens@[j]) == Token::PLUS
                } else {
                    tokens@[j] is Int
                }),
            (if i == 0 {
                ev@.nodes[root as int] == ExprV::Literal(Some(LitView::Int(5)))
            } else {
                &&& root >= 2
                &&& ev@.nodes[root as int] == ExprV::ArithmeticExpr(
                    root as int - 2,
                    ArithOp::Add,
                    root as int - 1,
                )
                &&& ev@.nodes[root as int - 2] == ExprV::Literal(
                    Some(LitView::Int(token_int(tokens@[i - 3]) as int)),
                )
                &&& ev@.nodes[root as int - 1] == ExprV::Literal(
                    Some(LitView::Int(token_int(tokens@[i - 1]) as int)),
                )
            }),
        decreases tokens@.len() - i,
    {
        let a = match tokens[i] {
            Token::Int(v) => v,
            Token::PLUS => {
                return Err(ParseError::MalformedExpression);
            },
        };
        if i + 1 >= tokens.len() {
            return Err(ParseError::MalformedExpression);
        }
        match tokens[i + 1] {
            Token::PLUS => {},
            Token::Int(_) => {
                return Err(ParseError::MalformedExpression);
            },
        }
        if i + 2 >= tokens.len() {
            return Err(ParseError::MalformedExpression);
        }
        let b = match tokens[i + 2] {
            Token::Int(v) => v,
            Token::PLUS => {
                return Err(ParseError::MalformedExpression);
            },
        };
        let la = ev.lit(Some(LiteralType::Int(a)));
        let lb = ev.lit(Some(LiteralType::Int(b)));
        root = ev.arithmetic(la, ArithOp::Add, lb);
        i = i + 3;
    }
    Ok(root)
}

} // verus!
