//! The executable evaluator, proved to follow `semantics::node_step`.
//!
//! `Evaluator::evaluate` computes a node eagerly and recursively; children
//! are reached through their handles, which are strictly smaller than the
//! parent's, so the recursion terminates even though nodes are shared.
//! After a node other than a variable reference or declaration has
//! produced a literal, the node is rewritten in place to that literal, so
//! any later evaluation through any sharing parent is a constant read.
//! Variable nodes are never rewritten: they re-resolve through the
//! referenced node, and so observe its collapse.

use vstd::prelude::*;
use vstd::pervasive::VecAdditionalExecFns;

use crate::expr::Binding;
use crate::expr::Builtin;
use crate::expr::Evaluator;
use crate::expr::Expr;
use crate::expr::ExprV;
use crate::expr::LitOrVarV;
use crate::expr::LiteralOrVar;
use crate::expr::StateV;
use crate::expr::ids_view;
use crate::literal_type::EvalError;
use crate::literal_type::LitView;
use crate::literal_type::LiteralType;
use crate::literal_type::opt_lit_view;
use crate::semantics::apply_builtin;
use crate::semantics::node_step;
use crate::semantics::resolve_value;
use crate::semantics::step_args;
use crate::semantics::step_value;
use crate::semantics::sum_fold;

verus! {

/// How an executable evaluation result relates to the semantic one.
pub open spec fn lov_res_matches(
    r: Result<LiteralOrVar, EvalError>,
    m: Result<LitOrVarV, EvalError>,
) -> bool {
    match (r, m) {
        (Ok(v), Ok(w)) => v@ == w,
        (Err(e), Err(f)) => e == f,
        _ => false,
    }
}

pub open spec fn val_res_matches(
    r: Result<Option<LiteralType>, EvalError>,
    m: Result<Option<LitView>, EvalError>,
) -> bool {
    match (r, m) {
        (Ok(v), Ok(w)) => opt_lit_view(v) == w,
        (Err(e), Err(f)) => e == f,
        _ => false,
    }
}

pub open spec fn opt_vals_view(v: Seq<Option<LiteralType>>) -> Seq<Option<LitView>> {
    v.map_values(|o: Option<LiteralType>| opt_lit_view(o))
}

pub open spec fn vals_res_matches(
    r: Result<Vec<Option<LiteralType>>, EvalError>,
    m: Result<Seq<Option<LitView>>, EvalError>,
) -> bool {
    match (r, m) {
        (Ok(v), Ok(w)) => opt_vals_view(v@) == w,
        (Err(e), Err(f)) => e == f,
        _ => false,
    }
}

/// A copy of an optional literal with the same value.
pub fn opt_dup(l: &Option<LiteralType>) -> (r: Option<LiteralType>)
    ensures
        opt_lit_view(r) == opt_lit_view(*l),
{
    match l {
        Some(v) => Some(v.dup()),
        None => None,
    }
}

fn copy_ids(v: &Vec<usize>) -> (r: Vec<usize>)
    ensures
        r@ == v@,
{
    let mut out: Vec<usize> = Vec::new();
    let mut i: usize = 0;
    while i < v.len()
        invariant
            i <= v@.len(),
            out@ == v@.take(i as int),
        decreases v@.len() - i,
    {
        out.push(v[i]);
        proof {
            assert(out@ =~= v@.take(i + 1));
        }
        i = i + 1;
    }
    proof {
        assert(v@.take(v@.len() as int) =~= v@);
    }
    out
}

impl Expr {
    /// A copy of a node with the same shape.
    fn dup(&self) -> (r: Expr)
        ensures
            r@ == self@,
    {
        match self {
            Expr::Literal(l) => Expr::Literal(opt_dup(l)),
            Expr::Var(n, t) => Expr::Var(n.clone(), *t),
            Expr::VarDecl(n, v) => Expr::VarDecl(n.clone(), *v),
            Expr::ArithmeticExpr(l, op, r2) => Expr::ArithmeticExpr(*l, *op, *r2),
            Expr::BooleanExpr(l, op, r2) => Expr::BooleanExpr(*l, *op, *r2),
            Expr::IfElseExpr(c, t, e) => Expr::IfElseExpr(
                *c,
                *t,
                match e {
                    Some(x) => Some(*x),
                    None => None,
                },
            ),
            Expr::FunctionCall(f, args) => Expr::FunctionCall(*f, copy_ids(args)),
        }
    }
}

impl LiteralOrVar {
    /// Whether a result's variable reference, if any, points into the
    /// arena.
    pub open spec fn valid_in(&self, s: StateV) -> bool {
        match self {
            LiteralOrVar::Literal(_) => true,
            LiteralOrVar::Var(_, t) => (*t as int) < s.nodes.len(),
        }
    }

    /// Resolve to a literal value: a literal is read off, a variable
    /// reference evaluates its target, following further references.
    pub fn value(&self, ev: &mut Evaluator) -> (r: Result<Option<LiteralType>, EvalError>)
        requires
            old(ev).wf(),
            self.valid_in(old(ev)@),
        ensures
            final(ev).wf(),
            old(ev)@.nodes.len() <= final(ev)@.nodes.len(),
            final(ev)@ == resolve_value(old(ev)@, self@).0,
            val_res_matches(r, resolve_value(old(ev)@, self@).1),
        decreases (match self {
            LiteralOrVar::Var(_, n) => *n as int,
            _ => 0int,
        }), (match self {
            LiteralOrVar::Var(_, _) => 5int,
            _ => 0int,
        }), 0int,
    {
        match self {
            LiteralOrVar::Literal(l) => Ok(opt_dup(l)),
            LiteralOrVar::Var(_, n) => {
                let lr = match ev.evaluate(*n) {
                    Ok(v) => v,
                    Err(e) => {
                        return Err(e);
                    },
                };
                lr.value(ev)
            },
        }
    }
}

/// Fold the argument values with coercing addition, starting from zero.
fn sum_exec(vals: &Vec<Option<LiteralType>>) -> (r: Result<LiteralType, EvalError>)
    ensures
        match r {
            Ok(v) => sum_fold(opt_vals_view(vals@)) == Ok::<LitView, EvalError>(v@),
            Err(e) => sum_fold(opt_vals_view(vals@)) == Err::<LitView, EvalError>(e),
        },
{
    let ghost full = opt_vals_view(vals@);
    let mut acc = LiteralType::Int(0);
    let mut i: usize = 0;
    proof {
        assert(full.take(0) =~= Seq::<Option<LitView>>::empty());
    }
    while i < vals.len()
        invariant
            i <= vals@.len(),
            full == opt_vals_view(vals@),
            sum_fold(full.take(i as int)) == Ok::<LitView, EvalError>(acc@),
        decreases vals@.len() - i,
    {
        proof {
            assert(full.take(i + 1).drop_last() =~= full.take(i as int));
            assert(full.take(i + 1).last() == opt_lit_view(vals@[i as int]));
        }
        match &vals[i] {
            None => {
                proof {
                    crate::semantics::lemma_sum_fold_err(full, i + 1);
                }
                return Err(EvalError::AbsentOperand);
            },
            Some(v) => {
                match acc.add(v) {
                    Ok(v2) => {
                        acc = v2;
                    },
                    Err(e) => {
                        proof {
                            crate::semantics::lemma_sum_fold_err(full, i + 1);
                        }
                        return Err(e);
                    },
                };
            },
        }
        i = i + 1;
    }
    proof {
        assert(full.take(vals@.len() as int) =~= full);
    }
    Ok(acc)
}

/// Apply a builtin to the evaluated argument values.
fn apply_builtin_exec(f: Builtin, vals: &Vec<Option<LiteralType>>) -> (r: Result<
    LiteralType,
    EvalError,
>)
    ensures
        match r {
            Ok(v) => apply_builtin(f, opt_vals_view(vals@)) == Ok::<LitView, EvalError>(v@),
            Err(e) => apply_builtin(f, opt_vals_view(vals@)) == Err::<LitView, EvalError>(e),
        },
{
    match f {
        Builtin::Sum => sum_exec(vals),
    }
}

impl Evaluator {
    /// Rewrite a node in place to a resolved literal.
    fn collapse_write(&mut self, id: usize, l: Option<LiteralType>)
        requires
            old(self).wf(),
            (id as int) < old(self)@.nodes.len(),
        ensures
            final(self).wf(),
            final(self)@.nodes == old(self)@.nodes.update(
                id as int,
                ExprV::Literal(opt_lit_view(l)),
            ),
            final(self)@.env == old(self)@.env,
    {
        self.nodes.set(id, Expr::Literal(l));
        proof {
            assert(self@.nodes =~= old(self)@.nodes.update(
                id as int,
                ExprV::Literal(opt_lit_view(l)),
            ));
            assert(self@.env =~= old(self)@.env);
            assert forall|i: int| 0 <= i < self@.nodes.len() implies crate::expr::expr_wf(
                #[trigger] self@.nodes[i],
                i,
            ) by {
                if i != id {
                    assert(crate::expr::expr_wf(old(self)@.nodes[i], i));
                }
            }
        }
    }

    /// Evaluate a node and resolve the result to a literal value.
    fn eval_value(&mut self, id: usize) -> (r: Result<Option<LiteralType>, EvalError>)
        requires
            old(self).wf(),
            (id as int) < old(self)@.nodes.len(),
        ensures
            final(self).wf(),
            old(self)@.nodes.len() <= final(self)@.nodes.len(),
            final(self)@ == step_value(old(self)@, id as int).0,
            val_res_matches(r, step_value(old(self)@, id as int).1),
        decreases id as int, 4int, 0int,
    {
        let lr = match self.evaluate(id) {
            Ok(v) => v,
            Err(e) => {
                return Err(e);
            },
        };
        let ghost s1 = self@;
        let r = lr.value(self);
        proof {
            let (s1x, r1) = node_step(old(self)@, id as int);
            assert(s1x == s1);
            match r1 {
                Ok(LitOrVarV::Var(_, n)) => {
                    assert(step_value(old(self)@, id as int) == step_value(s1, n));
                    assert(resolve_value(s1, lr@) == step_value(s1, n));
                },
                _ => {},
            }
        }
        r
    }

    /// Evaluate the arguments of a call, left to right, from position `k`.
    fn eval_args(&mut self, args: &Vec<usize>, k: usize, bound: Ghost<int>) -> (r: Result<
        Vec<Option<LiteralType>>,
        EvalError,
    >)
        requires
            old(self).wf(),
            k <= args@.len(),
            0 <= bound@ <= old(self)@.nodes.len(),
            forall|j: int| k <= j < args@.len() ==> (#[trigger] args@[j] as int) < bound@,
        ensures
            final(self).wf(),
            old(self)@.nodes.len() <= final(self)@.nodes.len(),
            final(self)@ == step_args(old(self)@, ids_view(args@.skip(k as int)), bound@).0,
            vals_res_matches(r, step_args(old(self)@, ids_view(args@.skip(k as int)), bound@).1),
        decreases bound@, 2int, args@.len() - k as int,
    {
        let ghost aseq = ids_view(args@.skip(k as int));
        if k == args.len() {
            proof {
                assert(aseq =~= Seq::<int>::empty());
                assert(opt_vals_view(Seq::<Option<LiteralType>>::empty()) =~= Seq::<
                    Option<LitView>,
                >::empty());
            }
            Ok(Vec::new())
        } else {
            proof {
                assert(aseq[0] == args@[k as int] as int);
                assert(aseq.drop_first() =~= ids_view(args@.skip(k + 1)));
            }
            let a = args[k];
            let v0 = match self.eval_value(a) {
                Ok(v) => v,
                Err(e) => {
                    return Err(e);
                },
            };
            let rest = match self.eval_args(args, k + 1, bound) {
                Ok(t) => t,
                Err(e) => {
                    return Err(e);
                },
            };
            let ghost restv = rest@;
            let mut out: Vec<Option<LiteralType>> = Vec::new();
            out.push(v0);
            let mut rest2 = rest;
            out.append(&mut rest2);
            proof {
                assert(opt_vals_view(out@) =~= seq![opt_lit_view(v0)] + opt_vals_view(restv));
            }
            Ok(out)
        }
    }

    /// Evaluate a node: compute its literal eagerly, rewrite the node in
    /// place when it is neither a variable reference nor a declaration,
    /// and report the first error met.
    #[verifier::rlimit(100)]
    #[verifier::spinoff_prover]
    pub fn evaluate(&mut self, id: usize) -> (r: Result<LiteralOrVar, EvalError>)
        requires
            old(self).wf(),
            (id as int) < old(self)@.nodes.len(),
        ensures
            final(self).wf(),
            old(self)@.nodes.len() <= final(self)@.nodes.len(),
            final(self)@ == node_step(old(self)@, id as int).0,
            lov_res_matches(r, node_step(old(self)@, id as int).1),
            (match r {
                Ok(LiteralOrVar::Var(_, t)) => (t as int) < id as int,
                _ => true,
            }),
            (match r {
                Ok(v) => v.valid_in(final(self)@),
                _ => true,
            }),
        decreases id as int, 3int, 0int,
    {
        let ghost s0 = self@;
        let node = self.nodes[id].dup();
        proof {
            assert(node@ == s0.nodes[id as int]);
            assert(crate::expr::expr_wf(s0.nodes[id as int], id as int));
        }
        match node {
            Expr::Literal(l) => {
                let l2 = opt_dup(&l);
                self.collapse_write(id, l2);
                proof {
                    assert(self@ =~= node_step(s0, id as int).0);
                }
                Ok(LiteralOrVar::Literal(l))
            },
            Expr::Var(_, t) => self.evaluate(t),
            Expr::VarDecl(name, v) => {
                let name2 = name.clone();
                self.env.push(Binding { name: name2, node: v });
                proof {
                    assert(self@.env =~= s0.env.push(
                        crate::expr::BindingV { name: name@, node: v as int },
                    ));
                    assert(self@.nodes =~= s0.nodes);
                    assert(self@ =~= node_step(s0, id as int).0);
                }
                Ok(LiteralOrVar::Var(name, v))
            },
            Expr::ArithmeticExpr(l, op, r2) => {
                let lv = match self.eval_value(l) {
                    Ok(v) => v,
                    Err(e) => {
                        return Err(e);
                    },
                };
                let a = match lv {
                    Some(v) => v,
                    None => {
                        return Err(EvalError::AbsentOperand);
                    },
                };
                let rv = match self.eval_value(r2) {
                    Ok(v) => v,
                    Err(e) => {
                        return Err(e);
                    },
                };
                let b = match rv {
                    Some(v) => v,
                    None => {
                        return Err(EvalError::AbsentOperand);
                    },
                };
                let c = match a.combine(op, &b) {
                    Ok(v) => v,
                    Err(e) => {
                        return Err(e);
                    },
                };
                self.collapse_write(id, Some(c.dup()));
                proof {
                    assert(self@ =~= node_step(s0, id as int).0);
                }
                Ok(LiteralOrVar::Literal(Some(c)))
            },
            Expr::BooleanExpr(l, op, r2) => {
                let lv = match self.eval_value(l) {
                    Ok(v) => v,
                    Err(e) => {
                        return Err(e);
                    },
                };
                let a = match lv {
                    Some(v) => v,
                    None => {
                        return Err(EvalError::AbsentOperand);
                    },
                };
                let rv = match self.eval_value(r2) {
                    Ok(v) => v,
                    Err(e) => {
                        return Err(e);
                    },
                };
                let b = match rv {
                    Some(v) => v,
                    None => {
                        return Err(EvalError::AbsentOperand);
                    },
                };
                let c = match a.compare(op, &b) {
                    Ok(v) => v,
                    Err(e) => {
                        return Err(e);
                    },
                };
                self.collapse_write(id, Some(c.dup()));
                proof {
                    assert(self@ =~= node_step(s0, id as int).0);
                }
                Ok(LiteralOrVar::Literal(Some(c)))
            },
            Expr::IfElseExpr(c, t, e) => {
                let cv = match self.eval_value(c) {
                    Ok(v) => v,
                    Err(e2) => {
                        return Err(e2);
                    },
                };
                let cond = match &cv {
                    Some(v) => v.to_bool(),
                    None => false,
                };
                if cond {
                    let r2 = match self.evaluate(t) {
                        Ok(v) => v,
                        Err(e2) => {
                            return Err(e2);
                        },
                    };
                    match &r2 {
                        LiteralOrVar::Literal(l) => {
                            let l2 = opt_dup(l);
                            self.collapse_write(id, l2);
                        },
                        _ => {},
                    }
                    proof {
                        assert(self@ =~= node_step(s0, id as int).0);
                    }
                    Ok(r2)
                } else {
                    match e {
                        Some(ei) => {
                            let r2 = match self.evaluate(ei) {
                                Ok(v) => v,
                                Err(e2) => {
                                    return Err(e2);
                                },
                            };
                            match &r2 {
                                LiteralOrVar::Literal(l) => {
                                    let l2 = opt_dup(l);
                                    self.collapse_write(id, l2);
                                },
                                _ => {},
                            }
                            proof {
                                assert(self@ =~= node_step(s0, id as int).0);
                            }
                            Ok(r2)
                        },
                        None => {
                            self.collapse_write(id, None);
                            proof {
                                assert(self@ =~= node_step(s0, id as int).0);
                            }
                            Ok(LiteralOrVar::Literal(None))
                        },
                    }
                }
            },
            Expr::FunctionCall(f, args) => {
                proof {
                    assert forall|j: int| 0 <= j < args@.len() implies (#[trigger] args@[j] as int)
                        < id as int by {
                        assert(ids_view(args@)[j] == args@[j] as int);
                    }
                }
                let vals = match self.eval_args(&args, 0, Ghost(id as int)) {
                    Ok(v) => v,
                    Err(e) => {
                        proof {
                            assert(args@.skip(0) =~= args@);
                        }
                        return Err(e);
                    },
                };
                proof {
                    assert(args@.skip(0) =~= args@);
                }
                let total = match apply_builtin_exec(f, &vals) {
                    Ok(v) => v,
                    Err(e) => {
                        return Err(e);
                    },
                };
                // The builtin's result becomes a fresh node, which a
                // literal evaluates to itself; the call then collapses.
                let _fresh = self.lit(Some(total.dup()));
                self.collapse_write(id, Some(total.dup()));
                proof {
                    assert(self@ =~= node_step(s0, id as int).0);
                }
                Ok(LiteralOrVar::Literal(Some(total)))
            },
        }
    }
}

} // verus!
