//! The laws of the library, stated over the big-step semantics and the
//! mathematical coercion matrix, and proved once and for all.

use vstd::prelude::*;

use crate::expr::ExprV;
use crate::expr::LitOrVarV;
use crate::expr::StateV;
use crate::expr::expr_wf;
use crate::expr::state_wf;
use crate::literal_type::ArithOp;
use crate::literal_type::EvalError;
use crate::literal_type::LitView;
use crate::literal_type::lit_chars;
use crate::literal_type::math_combine;
use crate::literal_type::math_neg;
use crate::literal_type::trunc_div;
use crate::semantics::node_step;
use crate::semantics::step_args;
use crate::semantics::step_value;

verus! {

/// On integer operands the coercion matrix is plain integer arithmetic:
/// addition, subtraction and multiplication are exact, and division by a
/// nonzero divisor is truncating division, which agrees with mathematical
/// division on non-negative operands.
pub proof fn lemma_integer_arithmetic(a: int, b: int)
    ensures
        math_combine(LitView::Int(a), ArithOp::Add, LitView::Int(b)) == Ok::<LitView, EvalError>(
            LitView::Int(a + b),
        ),
        math_combine(LitView::Int(a), ArithOp::Sub, LitView::Int(b)) == Ok::<LitView, EvalError>(
            LitView::Int(a - b),
        ),
        math_combine(LitView::Int(a), ArithOp::Mul, LitView::Int(b)) == Ok::<LitView, EvalError>(
            LitView::Int(a * b),
        ),
        b != 0 ==> math_combine(LitView::Int(a), ArithOp::Div, LitView::Int(b)) == Ok::<
            LitView,
            EvalError,
        >(LitView::Int(trunc_div(a, b))),
        a >= 0 && b > 0 ==> trunc_div(a, b) == a / b,
{
}

/// Addition with a text operand is concatenation, and the operand order
/// is preserved: the text side stays on its side, the other side is
/// stringified in place. It is not commutative.
pub proof fn lemma_add_text(v: LitView, t: Seq<char>)
    ensures
        math_combine(LitView::Text(t), ArithOp::Add, v) == Ok::<LitView, EvalError>(
            LitView::Text(t + lit_chars(v)),
        ),
        math_combine(v, ArithOp::Add, LitView::Text(t)) == Ok::<LitView, EvalError>(
            LitView::Text(lit_chars(v) + t),
        ),
{
}

/// Subtraction, multiplication and division reject a text operand on
/// either side, and negation rejects text, always with a coercion error.
pub proof fn lemma_text_rejected(v: LitView, t: Seq<char>, op: ArithOp)
    requires
        op != ArithOp::Add,
    ensures
        math_combine(v, op, LitView::Text(t)) == Err::<LitView, EvalError>(
            EvalError::TextOperand(op),
        ),
        math_combine(LitView::Text(t), op, v) == Err::<LitView, EvalError>(
            EvalError::TextOperand(op),
        ),
        math_neg(LitView::Text(t)) == Err::<LitView, EvalError>(EvalError::TextNegation),
{
}

/// Evaluation only ever grows the state: nodes are appended or rewritten
/// in place, never removed, and the environment is append-only.
pub open spec fn state_extends(s1: StateV, s2: StateV) -> bool {
    &&& s1.nodes.len() <= s2.nodes.len()
    &&& s1.env.len() <= s2.env.len()
    &&& forall|j: int| 0 <= j < s1.env.len() ==> s2.env[j] == #[trigger] s1.env[j]
}

pub proof fn lemma_node_step_extends(s: StateV, id: int)
    ensures
        state_extends(s, node_step(s, id).0),
    decreases id, 3int, 0int,
{
    if 0 <= id < s.nodes.len() {
        match s.nodes[id] {
            ExprV::Literal(_) => {},
            ExprV::Var(_, t) => {
                if 0 <= t < id {
                    lemma_node_step_extends(s, t);
                }
            },
            ExprV::VarDecl(_, _) => {},
            ExprV::ArithmeticExpr(l, _, r) => {
                if 0 <= l < id && 0 <= r < id {
                    let (s1, lv) = step_value(s, l);
                    lemma_step_value_extends(s, l);
                    match lv {
                        Ok(Some(_)) => {
                            lemma_step_value_extends(s1, r);
                        },
                        _ => {},
                    }
                }
            },
            ExprV::BooleanExpr(l, _, r) => {
                if 0 <= l < id && 0 <= r < id {
                    let (s1, lv) = step_value(s, l);
                    lemma_step_value_extends(s, l);
                    match lv {
                        Ok(Some(_)) => {
                            lemma_step_value_extends(s1, r);
                        },
                        _ => {},
                    }
                }
            },
            ExprV::IfElseExpr(c, t, e) => {
                if 0 <= c < id && 0 <= t < id && (match e {
                    Some(x) => 0 <= x < id,
                    None => true,
                }) {
                    let (s1, cv) = step_value(s, c);
                    lemma_step_value_extends(s, c);
                    match cv {
                        Err(_) => {},
                        Ok(ov) => {
                            let cond = match ov {
                                None => false,
                                Some(v) => crate::literal_type::truthy_spec(v),
                            };
                            if cond {
                                lemma_node_step_extends(s1, t);
                            } else {
                                match e {
                                    Some(ei) => {
                                        lemma_node_step_extends(s1, ei);
                                    },
                                    None => {},
                                }
                            }
                        },
                    }
                }
            },
            ExprV::FunctionCall(_, args) => {
                if forall|k: int| 0 <= k < args.len() ==> 0 <= #[trigger] args[k] < id {
                    lemma_step_args_extends(s, args, id);
                }
            },
        }
    }
}

pub proof fn lemma_step_value_extends(s: StateV, id: int)
    ensures
        state_extends(s, step_value(s, id).0),
    decreases id, 4int, 0int,
{
    if 0 <= id {
        let (s1, r) = node_step(s, id);
        lemma_node_step_extends(s, id);
        match r {
            Ok(LitOrVarV::Var(_, n)) => {
                if 0 <= n < id {
                    lemma_step_value_extends(s1, n);
                }
            },
            _ => {},
        }
    }
}

pub proof fn lemma_step_args_extends(s: StateV, args: Seq<int>, bound: int)
    ensures
        state_extends(s, step_args(s, args, bound).0),
    decreases bound, 2int, args.len(),
{
    if args.len() == 0 {
    } else if 0 <= args[0] < bound {
        let (s1, v) = step_value(s, args[0]);
        lemma_step_value_extends(s, args[0]);
        match v {
            Ok(_) => {
                lemma_step_args_extends(s1, args.drop_first(), bound);
            },
            Err(_) => {},
        }
    }
}

/// After a node other than a variable reference or declaration evaluates
/// to a literal, the node itself has been rewritten to that literal.
pub proof fn lemma_step_collapses(s: StateV, id: int)
    requires
        state_wf(s),
        0 <= id < s.nodes.len(),
        !(s.nodes[id] is Var),
        !(s.nodes[id] is VarDecl),
    ensures
        (match node_step(s, id).1 {
            Ok(LitOrVarV::Literal(l)) => node_step(s, id).0.nodes[id] == ExprV::Literal(l),
            _ => true,
        }),
{
    lemma_node_step_extends(s, id);
    assert(expr_wf(s.nodes[id], id));
    match s.nodes[id] {
        ExprV::ArithmeticExpr(l, _, r) => {
            let (s1, lv) = step_value(s, l);
            match lv {
                Ok(Some(_)) => {
                    lemma_step_value_extends(s, l);
                    lemma_step_value_extends(s1, r);
                },
                _ => {},
            }
        },
        ExprV::BooleanExpr(l, _, r) => {
            let (s1, lv) = step_value(s, l);
            match lv {
                Ok(Some(_)) => {
                    lemma_step_value_extends(s, l);
                    lemma_step_value_extends(s1, r);
                },
                _ => {},
            }
        },
        ExprV::IfElseExpr(c, t, e) => {
            let (s1, cv) = step_value(s, c);
            match cv {
                Err(_) => {},
                Ok(ov) => {
                    lemma_step_value_extends(s, c);
                    let cond = match ov {
                        None => false,
                        Some(v) => crate::literal_type::truthy_spec(v),
                    };
                    if cond {
                        lemma_node_step_extends(s1, t);
                    } else {
                        match e {
                            Some(ei) => {
                                lemma_node_step_extends(s1, ei);
                            },
                            None => {},
                        }
                    }
                },
            }
        },
        ExprV::FunctionCall(_, args) => {
            if forall|k: int| 0 <= k < args.len() ==> 0 <= #[trigger] args[k] < id {
                lemma_step_args_extends(s, args, id);
            }
        },
        _ => {},
    }
}

/// Re-evaluating a node that already holds a literal returns that literal
/// and changes nothing.
pub proof fn lemma_collapsed_reread(s: StateV, id: int, l: Option<LitView>)
    requires
        0 <= id < s.nodes.len(),
        s.nodes[id] == ExprV::Literal(l),
    ensures
        node_step(s, id).0 == s,
        node_step(s, id).1 == Ok::<LitOrVarV, EvalError>(LitOrVarV::Literal(l)),
{
    assert(s.nodes.update(id, ExprV::Literal(l)) =~= s.nodes);
    assert(node_step(s, id).0 =~= s);
}

/// Memoized idempotence: once a node other than a variable reference or
/// declaration has evaluated to a literal, evaluating it again returns
/// the same value without touching the state — the node's operator is
/// never re-run.
pub proof fn lemma_evaluate_idempotent(s: StateV, id: int)
    requires
        state_wf(s),
        0 <= id < s.nodes.len(),
        !(s.nodes[id] is Var),
        !(s.nodes[id] is VarDecl),
    ensures
        (match node_step(s, id).1 {
            Ok(LitOrVarV::Literal(l)) => node_step(node_step(s, id).0, id) == (
                node_step(s, id).0,
                Ok::<LitOrVarV, EvalError>(LitOrVarV::Literal(l)),
            ),
            _ => true,
        }),
{
    lemma_step_collapses(s, id);
    lemma_node_step_extends(s, id);
    match node_step(s, id).1 {
        Ok(LitOrVarV::Literal(l)) => {
            lemma_collapsed_reread(node_step(s, id).0, id, l);
        },
        _ => {},
    }
}

/// Conditional short-circuit: a conditional whose condition is a false
/// literal and whose else branch is absent evaluates to an absent value,
/// rewrites only itself, declares nothing, and leaves the branch it did
/// not take untouched.
pub proof fn lemma_conditional_short_circuit(s: StateV, id: int, c: int, t: int)
    requires
        state_wf(s),
        0 <= id < s.nodes.len(),
        s.nodes[id] == ExprV::IfElseExpr(c, t, None::<int>),
        s.nodes[c] == ExprV::Literal(Some(LitView::Bool(false))),
    ensures
        node_step(s, id).1 == Ok::<LitOrVarV, EvalError>(LitOrVarV::Literal(None)),
        node_step(s, id).0.nodes == s.nodes.update(id, ExprV::Literal(None)),
        node_step(s, id).0.env == s.env,
        node_step(s, id).0.nodes[t] == s.nodes[t],
{
    assert(expr_wf(s.nodes[id], id));
    lemma_collapsed_reread(s, c, Some(LitView::Bool(false)));
    assert(step_value(s, c).1 == Ok::<Option<LitView>, EvalError>(Some(LitView::Bool(false))));
}

} // verus!
