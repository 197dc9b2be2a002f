//! The tagged literal value type and its coercion-aware arithmetic.
//!
//! Every operation is defined per ordered pair of variants. Addition turns
//! into text concatenation as soon as either operand is text (the non-text
//! side is stringified, operand order preserved); subtraction,
//! multiplication and division accept integers and booleans (a boolean is
//! coerced to 0 or 1) and reject text; division by zero and results outside
//! the machine integer range are reported errors, never silent defaults.
//!
//! The meaning of each operation is given by the `math_*` spec functions
//! over unbounded integers; the executable methods are proved to agree with
//! them, up to the explicit overflow error.

use vstd::prelude::*;

use crate::numtext::bool_chars;
use crate::numtext::bool_str;
use crate::numtext::int_chars;
use crate::numtext::int_to_string;
use crate::numtext::parse_int;
use crate::numtext::str_int;
use crate::numtext::valid_int_chars;

verus! {

/// The mathematical value of a literal: an integer, a truth value, or text.
pub ghost enum LitView {
    Int(int),
    Bool(bool),
    Text(Seq<char>),
}

/// A literal value of the expression language.
#[derive(Debug, PartialEq)]
pub enum LiteralType {
    Int(i64),
    Bool(bool),
    Text(String),
}

impl View for LiteralType {
    type V = LitView;

    open spec fn view(&self) -> LitView {
        match self {
            LiteralType::Int(i) => LitView::Int(*i as int),
            LiteralType::Bool(b) => LitView::Bool(*b),
            LiteralType::Text(s) => LitView::Text(s@),
        }
    }
}

pub open spec fn opt_lit_view(v: Option<LiteralType>) -> Option<LitView> {
    match v {
        Some(x) => Some(x@),
        None => None,
    }
}

/// The arithmetic operators of the language.
#[derive(Clone, Copy, Debug, PartialEq, Eq, Structural)]
pub enum ArithOp {
    Add,
    Sub,
    Mul,
    Div,
}

/// The relational operators of the language.
#[derive(Clone, Copy, Debug, PartialEq, Eq, Structural)]
pub enum CmpOp {
    Eq,
    Ne,
    Lt,
    Le,
    Gt,
    Ge,
}

/// Everything that can go wrong while combining literals or evaluating an
/// expression tree.
#[derive(Clone, Copy, Debug, PartialEq, Eq, Structural)]
pub enum EvalError {
    /// Subtraction, multiplication or division applied to a text operand.
    TextOperand(ArithOp),
    /// Negation applied to a text operand.
    TextNegation,
    /// An ordering comparison applied to a text operand.
    TextComparison(CmpOp),
    DivisionByZero,
    /// An arithmetic result outside the machine integer range.
    Overflow,
    /// An operand evaluated to an absent value where a value was required.
    AbsentOperand,
    /// A text literal that does not parse as a decimal integer.
    NumberFormat,
    /// A variable reference to a name that was never declared.
    UndeclaredVariable,
    /// A node handle that does not point into the arena.
    InvalidNode,
}

/// Numeric coercion of a non-text literal: booleans count as 0 or 1.
pub open spec fn num_view(v: LitView) -> int
    recommends
        !(v is Text),
{
    match v {
        LitView::Int(i) => i,
        LitView::Bool(b) => if b {
            1
        } else {
            0
        },
        LitView::Text(_) => 0,
    }
}

/// The characters a literal turns into when it meets text.
pub open spec fn lit_chars(v: LitView) -> Seq<char> {
    match v {
        LitView::Int(i) => int_chars(i),
        LitView::Bool(b) => bool_chars(b),
        LitView::Text(s) => s,
    }
}

/// Truncating division, as the machine performs it.
pub open spec fn trunc_div(a: int, b: int) -> int
    recommends
        b != 0,
{
    if a == 0 {
        0
    } else if a > 0 && b > 0 {
        a / b
    } else if a < 0 && b < 0 {
        (a * -1) / (b * -1)
    } else if a < 0 {
        ((a * -1) / b) * -1
    } else {
        (a / (b * -1)) * -1
    }
}

/// The coercion matrix of the language, over unbounded integers.
pub open spec fn math_combine(a: LitView, op: ArithOp, b: LitView) -> Result<LitView, EvalError> {
    match op {
        ArithOp::Add => if a is Text || b is Text {
            Ok(LitView::Text(lit_chars(a) + lit_chars(b)))
        } else {
            Ok(LitView::Int(num_view(a) + num_view(b)))
        },
        ArithOp::Sub => if a is Text || b is Text {
            Err(EvalError::TextOperand(ArithOp::Sub))
        } else {
            Ok(LitView::Int(num_view(a) - num_view(b)))
        },
        ArithOp::Mul => if a is Text || b is Text {
            Err(EvalError::TextOperand(ArithOp::Mul))
        } else {
            Ok(LitView::Int(num_view(a) * num_view(b)))
        },
        ArithOp::Div => if a is Text || b is Text {
            Err(EvalError::TextOperand(ArithOp::Div))
        } else if num_view(b) == 0 {
            Err(EvalError::DivisionByZero)
        } else {
            Ok(LitView::Int(trunc_div(num_view(a), num_view(b))))
        },
    }
}

/// Negation over unbounded integers.
pub open spec fn math_neg(a: LitView) -> Result<LitView, EvalError> {
    match a {
        LitView::Text(_) => Err(EvalError::TextNegation),
        _ => Ok(LitView::Int(-num_view(a))),
    }
}

pub open spec fn in_i64(i: int) -> bool {
    i64::MIN <= i <= i64::MAX
}

/// Restrict a mathematical result to the machine integer range; a result
/// outside it becomes an overflow error.
pub open spec fn checked(m: Result<LitView, EvalError>) -> Result<LitView, EvalError> {
    match m {
        Ok(LitView::Int(i)) => if in_i64(i) {
            Ok(LitView::Int(i))
        } else {
            Err(EvalError::Overflow)
        },
        r => r,
    }
}

/// Truthiness: zero and empty text are false, booleans pass through.
pub open spec fn truthy_spec(v: LitView) -> bool {
    match v {
        LitView::Int(i) => i != 0,
        LitView::Bool(b) => b,
        LitView::Text(s) => s.len() != 0,
    }
}

/// The relational operators: equality is structural and total, ordering
/// compares numeric coercions and rejects text.
pub open spec fn math_compare(a: LitView, op: CmpOp, b: LitView) -> Result<LitView, EvalError> {
    match op {
        CmpOp::Eq => Ok(LitView::Bool(a == b)),
        CmpOp::Ne => Ok(LitView::Bool(a != b)),
        _ => if a is Text || b is Text {
            Err(EvalError::TextComparison(op))
        } else {
            Ok(
                LitView::Bool(
                    match op {
                        CmpOp::Lt => num_view(a) < num_view(b),
                        CmpOp::Le => num_view(a) <= num_view(b),
                        CmpOp::Gt => num_view(a) > num_view(b),
                        _ => num_view(a) >= num_view(b),
                    },
                ),
            )
        },
    }
}

/// Numeric conversion: integers pass through, booleans become 0 or 1, text
/// is parsed as a decimal integer.
pub open spec fn num_of(v: LitView) -> Result<int, EvalError> {
    match v {
        LitView::Int(i) => Ok(i),
        LitView::Bool(b) => Ok(if b {
            1int
        } else {
            0int
        }),
        LitView::Text(s) => if valid_int_chars(s) && in_i64(str_int(s)) {
            Ok(str_int(s))
        } else {
            Err(EvalError::NumberFormat)
        },
    }
}

/// How an executable result relates to a mathematical one.
pub open spec fn res_matches(r: Result<LiteralType, EvalError>, m: Result<LitView, EvalError>) -> bool {
    match (r, m) {
        (Ok(v), Ok(w)) => v@ == w,
        (Err(e), Err(f)) => e == f,
        _ => false,
    }
}

impl LiteralType {
    /// A copy with the same value.
    pub fn dup(&self) -> (r: Self)
        ensures
            r@ == self@,
    {
        match self {
            LiteralType::Int(i) => LiteralType::Int(*i),
            LiteralType::Bool(b) => LiteralType::Bool(*b),
            LiteralType::Text(s) => LiteralType::Text(s.clone()),
        }
    }

    /// The text this literal turns into when concatenated.
    pub fn stringify(&self) -> (r: String)
        ensures
            r@ == lit_chars(self@),
    {
        match self {
            LiteralType::Int(i) => int_to_string(*i),
            LiteralType::Bool(b) => String::from_str(bool_str(*b)),
            LiteralType::Text(s) => s.clone(),
        }
    }

    /// The numeric coercion of a non-text literal.
    fn to_num(&self) -> (n: i64)
        requires
            !(self@ is Text),
        ensures
            n as int == num_view(self@),
    {
        match self {
            LiteralType::Int(i) => *i,
            LiteralType::Bool(b) => if *b {
                1
            } else {
                0
            },
            LiteralType::Text(_) => 0,
        }
    }

    fn is_text(&self) -> (b: bool)
        ensures
            b == (self@ is Text),
    {
        match self {
            LiteralType::Text(_) => true,
            _ => false,
        }
    }

    /// Addition, with coercion into text concatenation.
    pub fn add(&self, other: &LiteralType) -> (r: Result<LiteralType, EvalError>)
        ensures
            res_matches(r, checked(math_combine(self@, ArithOp::Add, other@))),
    {
        if self.is_text() || other.is_text() {
            let ls = self.stringify();
            let rs = other.stringify();
            Ok(LiteralType::Text(ls.concat(rs.as_str())))
        } else {
            let x = self.to_num();
            let y = other.to_num();
            match x.checked_add(y) {
                Some(v) => Ok(LiteralType::Int(v)),
                None => Err(EvalError::Overflow),
            }
        }
    }

    /// Subtraction; text cannot be subtracted.
    pub fn sub(&self, other: &LiteralType) -> (r: Result<LiteralType, EvalError>)
        ensures
            res_matches(r, checked(math_combine(self@, ArithOp::Sub, other@))),
    {
        if self.is_text() || other.is_text() {
            Err(EvalError::TextOperand(ArithOp::Sub))
        } else {
            let x = self.to_num();
            let y = other.to_num();
            match x.checked_sub(y) {
                Some(v) => Ok(LiteralType::Int(v)),
                None => Err(EvalError::Overflow),
            }
        }
    }

    /// Multiplication; text cannot be multiplied.
    pub fn mul(&self, other: &LiteralType) -> (r: Result<LiteralType, EvalError>)
        ensures
            res_matches(r, checked(math_combine(self@, ArithOp::Mul, other@))),
    {
        if self.is_text() || other.is_text() {
            Err(EvalError::TextOperand(ArithOp::Mul))
        } else {
            let x = self.to_num();
            let y = other.to_num();
            match x.checked_mul(y) {
                Some(v) => Ok(LiteralType::Int(v)),
                None => Err(EvalError::Overflow),
            }
        }
    }

    /// Truncating division; text cannot be divided, nor anything by zero.
    pub fn div(&self, other: &LiteralType) -> (r: Result<LiteralType, EvalError>)
        ensures
            res_matches(r, checked(math_combine(self@, ArithOp::Div, other@))),
    {
        if self.is_text() || other.is_text() {
            Err(EvalError::TextOperand(ArithOp::Div))
        } else {
            let x = self.to_num();
            let y = other.to_num();
            if y == 0 {
                Err(EvalError::DivisionByZero)
            } else {
                match x.checked_div(y) {
                    Some(v) => Ok(LiteralType::Int(v)),
                    None => Err(EvalError::Overflow),
                }
            }
        }
    }

    /// Dispatch over the arithmetic operators.
    pub fn combine(&self, op: ArithOp, other: &LiteralType) -> (r: Result<LiteralType, EvalError>)
        ensures
            res_matches(r, checked(math_combine(self@, op, other@))),
    {
        match op {
            ArithOp::Add => self.add(other),
            ArithOp::Sub => self.sub(other),
            ArithOp::Mul => self.mul(other),
            ArithOp::Div => self.div(other),
        }
    }

    /// Negation; text cannot be negated.
    pub fn neg(&self) -> (r: Result<LiteralType, EvalError>)
        ensures
            res_matches(r, checked(math_neg(self@))),
    {
        match self {
            LiteralType::Text(_) => Err(EvalError::TextNegation),
            _ => {
                let n = self.to_num();
                if n == i64::MIN {
                    Err(EvalError::Overflow)
                } else {
                    Ok(LiteralType::Int(-n))
                }
            },
        }
    }

    /// Structural equality of literal values.
    pub fn eq_value(&self, other: &LiteralType) -> (b: bool)
        ensures
            b == (self@ == other@),
    {
        match (self, other) {
            (LiteralType::Int(i), LiteralType::Int(j)) => *i == *j,
            (LiteralType::Bool(p), LiteralType::Bool(q)) => *p == *q,
            (LiteralType::Text(s), LiteralType::Text(t)) => *s == *t,
            _ => false,
        }
    }

    /// Dispatch over the relational operators.
    pub fn compare(&self, op: CmpOp, other: &LiteralType) -> (r: Result<LiteralType, EvalError>)
        ensures
            res_matches(r, math_compare(self@, op, other@)),
    {
        match op {
            CmpOp::Eq => Ok(LiteralType::Bool(self.eq_value(other))),
            CmpOp::Ne => Ok(LiteralType::Bool(!self.eq_value(other))),
            _ => {
                if self.is_text() || other.is_text() {
                    Err(EvalError::TextComparison(op))
                } else {
                    let x = self.to_num();
                    let y = other.to_num();
                    let b = match op {
                        CmpOp::Lt => x < y,
                        CmpOp::Le => x <= y,
                        CmpOp::Gt => x > y,
                        _ => x >= y,
                    };
                    Ok(LiteralType::Bool(b))
                }
            },
        }
    }

    /// Truthiness conversion.
    pub fn to_bool(&self) -> (b: bool)
        ensures
            b == truthy_spec(self@),
    {
        match self {
            LiteralType::Int(i) => *i != 0,
            LiteralType::Bool(b) => *b,
            LiteralType::Text(s) => s.as_str().unicode_len() != 0,
        }
    }

    /// Numeric conversion; text is parsed as a decimal integer.
    pub fn to_int(&self) -> (r: Result<i64, EvalError>)
        ensures
            match r {
                Ok(v) => num_of(self@) == Ok::<int, EvalError>(v as int),
                Err(e) => num_of(self@) == Err::<int, EvalError>(e),
            },
    {
        match self {
            LiteralType::Int(i) => Ok(*i),
            LiteralType::Bool(b) => Ok(
                if *b {
                    1
                } else {
                    0
                },
            ),
            LiteralType::Text(s) => match parse_int(s.as_str()) {
                Some(v) => Ok(v),
                None => Err(EvalError::NumberFormat),
            },
        }
    }
}

} // verus!
