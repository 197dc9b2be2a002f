//! The big-step semantics of evaluation, at the mathematical level.
//!
//! `node_step` maps a state and a node handle to the state after
//! evaluation and the node's result. It is the single meaning the
//! executable evaluator is proved to follow: eager, left-to-right, strict
//! in both operands of a binary node, short-circuiting only in the
//! conditional, and self-memoizing — a node other than a variable
//! reference or declaration that produced a literal is rewritten in place
//! to that literal.
//!
//! Recursive calls are guarded by the handle ordering (children come
//! strictly before parents); on a well-formed state every guard holds, so
//! the fallback error branches are never taken.

use vstd::prelude::*;

use crate::expr::Builtin;
use crate::expr::ExprV;
use crate::expr::LitOrVarV;
use crate::expr::BindingV;
use crate::expr::StateV;
use crate::literal_type::ArithOp;
use crate::literal_type::EvalError;
use crate::literal_type::LitView;
use crate::literal_type::checked;
use crate::literal_type::math_combine;
use crate::literal_type::math_compare;
use crate::literal_type::truthy_spec;

verus! {

/// Fold the argument values with coercing addition, starting from zero.
/// An absent argument is a reported error.
pub open spec fn sum_fold(vals: Seq<Option<LitView>>) -> Result<LitView, EvalError>
    decreases vals.len(),
{
    if vals.len() == 0 {
        Ok(LitView::Int(0))
    } else {
        match sum_fold(vals.drop_last()) {
            Err(e) => Err(e),
            Ok(acc) => match vals.last() {
                None => Err(EvalError::AbsentOperand),
                Some(v) => checked(math_combine(acc, ArithOp::Add, v)),
            },
        }
    }
}

/// Once a prefix of the fold fails, the whole fold fails the same way.
pub proof fn lemma_sum_fold_err(vals: Seq<Option<LitView>>, j: int)
    requires
        0 <= j <= vals.len(),
        sum_fold(vals.take(j)) is Err,
    ensures
        sum_fold(vals) == sum_fold(vals.take(j)),
    decreases vals.len() - j,
{
    if j == vals.len() {
        assert(vals.take(j) =~= vals);
    } else {
        assert(vals.take(j + 1).drop_last() =~= vals.take(j));
        assert(sum_fold(vals.take(j + 1)) == sum_fold(vals.take(j)));
        lemma_sum_fold_err(vals, j + 1);
    }
}

/// What a builtin makes of the evaluated argument values. The resulting
/// literal becomes a fresh node, which the call evaluates as its result.
pub open spec fn apply_builtin(f: Builtin, vals: Seq<Option<LitView>>) -> Result<
    LitView,
    EvalError,
> {
    match f {
        Builtin::Sum => sum_fold(vals),
    }
}

/// Rewrite a node in place when its evaluation produced a literal; leave
/// the state alone otherwise.
pub open spec fn collapse(s: StateV, id: int, r: Result<LitOrVarV, EvalError>) -> StateV {
    match r {
        Ok(LitOrVarV::Literal(l)) => StateV {
            nodes: s.nodes.update(id, ExprV::Literal(l)),
            env: s.env,
        },
        _ => s,
    }
}

/// Evaluate one node: the state after evaluation and the node's result.
pub open spec fn node_step(s: StateV, id: int) -> (StateV, Result<LitOrVarV, EvalError>)
    decreases id, 3int, 0int,
{
    if !(0 <= id < s.nodes.len()) {
        (s, Err(EvalError::InvalidNode))
    } else {
        match s.nodes[id] {
            ExprV::Literal(l) => (
                StateV { nodes: s.nodes.update(id, ExprV::Literal(l)), env: s.env },
                Ok(LitOrVarV::Literal(l)),
            ),
            ExprV::Var(_, t) => if 0 <= t < id {
                node_step(s, t)
            } else {
                (s, Err(EvalError::InvalidNode))
            },
            ExprV::VarDecl(name, v) => (
                StateV { nodes: s.nodes, env: s.env.push(BindingV { name, node: v }) },
                Ok(LitOrVarV::Var(name, v)),
            ),
            ExprV::ArithmeticExpr(l, op, r) => if 0 <= l < id && 0 <= r < id {
                let (s1, lv) = step_value(s, l);
                match lv {
                    Err(e) => (s1, Err(e)),
                    Ok(None) => (s1, Err(EvalError::AbsentOperand)),
                    Ok(Some(a)) => {
                        let (s2, rv) = step_value(s1, r);
                        match rv {
                            Err(e) => (s2, Err(e)),
                            Ok(None) => (s2, Err(EvalError::AbsentOperand)),
                            Ok(Some(b)) => match checked(math_combine(a, op, b)) {
                                Err(e) => (s2, Err(e)),
                                Ok(v) => (
                                    collapse(s2, id, Ok(LitOrVarV::Literal(Some(v)))),
                                    Ok(LitOrVarV::Literal(Some(v))),
                                ),
                            },
                        }
                    },
                }
            } else {
                (s, Err(EvalError::InvalidNode))
            },
            ExprV::BooleanExpr(l, op, r) => if 0 <= l < id && 0 <= r < id {
                let (s1, lv) = step_value(s, l);
                match lv {
                    Err(e) => (s1, Err(e)),
                    Ok(None) => (s1, Err(EvalError::AbsentOperand)),
                    Ok(Some(a)) => {
                        let (s2, rv) = step_value(s1, r);
                        match rv {
                            Err(e) => (s2, Err(e)),
                            Ok(None) => (s2, Err(EvalError::AbsentOperand)),
                            Ok(Some(b)) => match math_compare(a, op, b) {
                                Err(e) => (s2, Err(e)),
                                Ok(v) => (
                                    collapse(s2, id, Ok(LitOrVarV::Literal(Some(v)))),
                                    Ok(LitOrVarV::Literal(Some(v))),
                                ),
                            },
                        }
                    },
                }
            } else {
                (s, Err(EvalError::InvalidNode))
            },
            ExprV::IfElseExpr(c, t, e) => if 0 <= c < id && 0 <= t < id && (match e {
                Some(x) => 0 <= x < id,
                None => true,
            }) {
                let (s1, cv) = step_value(s, c);
                match cv {
                    Err(e2) => (s1, Err(e2)),
                    Ok(ov) => {
                        let cond = match ov {
                            None => false,
                            Some(v) => truthy_spec(v),
                        };
                        if cond {
                            let (s2, r2) = node_step(s1, t);
                            (collapse(s2, id, r2), r2)
                        } else {
                            match e {
                                Some(ei) => {
                                    let (s2, r2) = node_step(s1, ei);
                                    (collapse(s2, id, r2), r2)
                                },
                                None => (
                                    collapse(s1, id, Ok(LitOrVarV::Literal(None))),
                                    Ok(LitOrVarV::Literal(None)),
                                ),
                            }
                        }
                    },
                }
            } else {
                (s, Err(EvalError::InvalidNode))
            },
            ExprV::FunctionCall(f, args) => if forall|k: int|
                0 <= k < args.len() ==> 0 <= #[trigger] args[k] < id {
                let (s1, vs) = step_args(s, args, id);
                match vs {
                    Err(e) => (s1, Err(e)),
                    Ok(vals) => match apply_builtin(f, vals) {
                        Err(e) => (s1, Err(e)),
                        Ok(v) => (
                            StateV {
                                nodes: s1.nodes.push(ExprV::Literal(Some(v))).update(
                                    id,
                                    ExprV::Literal(Some(v)),
                                ),
                                env: s1.env,
                            },
                            Ok(LitOrVarV::Literal(Some(v))),
                        ),
                    },
                }
            } else {
                (s, Err(EvalError::InvalidNode))
            },
        }
    }
}

/// Evaluate a node and resolve the result down to a literal value,
/// following variable references through their targets.
pub open spec fn step_value(s: StateV, id: int) -> (StateV, Result<Option<LitView>, EvalError>)
    decreases id, 4int, 0int,
{
    if !(0 <= id) {
        (s, Err(EvalError::InvalidNode))
    } else {
        let (s1, r) = node_step(s, id);
        match r {
            Err(e) => (s1, Err(e)),
            Ok(LitOrVarV::Literal(l)) => (s1, Ok(l)),
            Ok(LitOrVarV::Var(_, n)) => if 0 <= n < id {
                step_value(s1, n)
            } else {
                (s1, Err(EvalError::InvalidNode))
            },
        }
    }
}

/// Resolve an already computed result down to a literal value.
pub open spec fn resolve_value(s: StateV, lov: LitOrVarV) -> (StateV, Result<
    Option<LitView>,
    EvalError,
>)
    decreases (match lov {
        LitOrVarV::Var(_, n) => n,
        _ => 0int,
    }), 5int, 0int,
{
    match lov {
        LitOrVarV::Literal(l) => (s, Ok(l)),
        LitOrVarV::Var(_, n) => if 0 <= n {
            step_value(s, n)
        } else {
            (s, Err(EvalError::InvalidNode))
        },
    }
}

/// Evaluate a list of argument nodes left to right, resolving each to a
/// literal value. Every handle must lie below the calling node.
pub open spec fn step_args(s: StateV, args: Seq<int>, bound: int) -> (StateV, Result<
    Seq<Option<LitView>>,
    EvalError,
>)
    decreases bound, 2int, args.len(),
{
    if args.len() == 0 {
        (s, Ok(Seq::empty()))
    } else if 0 <= args[0] < bound {
        let (s1, v) = step_value(s, args[0]);
        match v {
            Err(e) => (s1, Err(e)),
            Ok(ov) => {
                let (s2, rest) = step_args(s1, args.drop_first(), bound);
                match rest {
                    Err(e) => (s2, Err(e)),
                    Ok(vs) => (s2, Ok(seq![ov] + vs)),
                }
            },
        }
    } else {
        (s, Err(EvalError::InvalidNode))
    }
}

} // verus!
