//! The expression tree and its arena.
//!
//! A sub-expression may be shared by several parents (a variable's bound
//! expression and every reference to it), and evaluation rewrites nodes in
//! place, so the tree lives in an arena: nodes are addressed by stable
//! handles, and a node always refers to nodes created before it. That
//! ordering is the well-formedness invariant every builder maintains and
//! the evaluator's termination rests on.
//!
//! The environment is a run-scoped, append-only list of name-to-node
//! bindings; a declaration appends, and lookup returns the most recently
//! declared binding for a name.

use vstd::prelude::*;

use crate::literal_type::ArithOp;
use crate::literal_type::CmpOp;
use crate::literal_type::EvalError;
use crate::literal_type::LitView;
use crate::literal_type::LiteralType;
use crate::literal_type::opt_lit_view;

verus! {

/// The builtin functions a call node can invoke. A builtin takes the
/// evaluated argument values and yields a fresh literal node, which the
/// call then evaluates as its own result.
#[derive(Clone, Copy, Debug, PartialEq, Eq, Structural)]
pub enum Builtin {
    /// Fold the arguments with coercing addition, starting from zero.
    Sum,
}

/// The mathematical shape of a node: handles become plain integers, names
/// become character sequences.
pub ghost enum ExprV {
    Literal(Option<LitView>),
    Var(Seq<char>, int),
    VarDecl(Seq<char>, int),
    ArithmeticExpr(int, ArithOp, int),
    BooleanExpr(int, CmpOp, int),
    IfElseExpr(int, int, Option<int>),
    FunctionCall(Builtin, Seq<int>),
}

/// One node of the expression tree. Child nodes are referred to by arena
/// handle; every child handle is strictly smaller than the node's own.
#[derive(Debug)]
pub enum Expr {
    /// A resolved or absent constant.
    Literal(Option<LiteralType>),
    /// A reference to a declaration's bound expression, resolved at
    /// construction time.
    Var(String, usize),
    /// A declaration: evaluating it binds the name to the value node.
    VarDecl(String, usize),
    ArithmeticExpr(usize, ArithOp, usize),
    BooleanExpr(usize, CmpOp, usize),
    IfElseExpr(usize, usize, Option<usize>),
    FunctionCall(Builtin, Vec<usize>),
}

pub open spec fn ids_view(args: Seq<usize>) -> Seq<int> {
    args.map_values(|x: usize| x as int)
}

impl View for Expr {
    type V = ExprV;

    open spec fn view(&self) -> ExprV {
        match self {
            Expr::Literal(l) => ExprV::Literal(opt_lit_view(*l)),
            Expr::Var(n, t) => ExprV::Var(n@, *t as int),
            Expr::VarDecl(n, v) => ExprV::VarDecl(n@, *v as int),
            Expr::ArithmeticExpr(l, op, r) => ExprV::ArithmeticExpr(*l as int, *op, *r as int),
            Expr::BooleanExpr(l, op, r) => ExprV::BooleanExpr(*l as int, *op, *r as int),
            Expr::IfElseExpr(c, t, e) => ExprV::IfElseExpr(
                *c as int,
                *t as int,
                match e {
                    Some(x) => Some(*x as int),
                    None => None,
                },
            ),
            Expr::FunctionCall(f, args) => ExprV::FunctionCall(*f, ids_view(args@)),
        }
    }
}

/// What evaluating a node yields: a literal (possibly absent), or a live
/// reference to a declaration's bound node, which re-resolves on each read.
pub ghost enum LitOrVarV {
    Literal(Option<LitView>),
    Var(Seq<char>, int),
}

#[derive(Debug)]
pub enum LiteralOrVar {
    Literal(Option<LiteralType>),
    Var(String, usize),
}

impl View for LiteralOrVar {
    type V = LitOrVarV;

    open spec fn view(&self) -> LitOrVarV {
        match self {
            LiteralOrVar::Literal(l) => LitOrVarV::Literal(opt_lit_view(*l)),
            LiteralOrVar::Var(n, t) => LitOrVarV::Var(n@, *t as int),
        }
    }
}

pub ghost struct BindingV {
    pub name: Seq<char>,
    pub node: int,
}

/// One environment entry: a declared name and the node it is bound to.
#[derive(Debug)]
pub struct Binding {
    pub name: String,
    pub node: usize,
}

impl View for Binding {
    type V = BindingV;

    open spec fn view(&self) -> BindingV {
        BindingV { name: self.name@, node: self.node as int }
    }
}

/// The whole evaluator state at the mathematical level.
#[verifier::ext_equal]
pub ghost struct StateV {
    pub nodes: Seq<ExprV>,
    pub env: Seq<BindingV>,
}

/// A node is well formed at position `i` when all its children come
/// strictly before it.
pub open spec fn expr_wf(e: ExprV, i: int) -> bool {
    match e {
        ExprV::Literal(_) => true,
        ExprV::Var(_, t) => 0 <= t < i,
        ExprV::VarDecl(_, v) => 0 <= v < i,
        ExprV::ArithmeticExpr(l, _, r) => 0 <= l < i && 0 <= r < i,
        ExprV::BooleanExpr(l, _, r) => 0 <= l < i && 0 <= r < i,
        ExprV::IfElseExpr(c, t, e) => 0 <= c < i && 0 <= t < i && match e {
            Some(x) => 0 <= x < i,
            None => true,
        },
        ExprV::FunctionCall(_, args) => forall|k: int|
            0 <= k < args.len() ==> 0 <= #[trigger] args[k] < i,
    }
}

pub open spec fn state_wf(s: StateV) -> bool {
    &&& forall|i: int| 0 <= i < s.nodes.len() ==> expr_wf(#[trigger] s.nodes[i], i)
    &&& forall|j: int| 0 <= j < s.env.len() ==> 0 <= (#[trigger] s.env[j]).node < s.nodes.len()
}

/// The most recently declared binding for a name, if any.
pub open spec fn env_find(env: Seq<BindingV>, name: Seq<char>) -> Option<BindingV>
    decreases env.len(),
{
    if env.len() == 0 {
        None
    } else if env.last().name == name {
        Some(env.last())
    } else {
        env_find(env.drop_last(), name)
    }
}

/// A found binding is an element of the environment.
pub proof fn lemma_env_find_in(env: Seq<BindingV>, name: Seq<char>)
    requires
        env_find(env, name) is Some,
    ensures
        exists|j: int| 0 <= j < env.len() && env[j] == env_find(env, name).unwrap(),
    decreases env.len(),
{
    if env.len() > 0 {
        if env.last().name == name {
            assert(env[env.len() - 1] == env.last());
        } else {
            lemma_env_find_in(env.drop_last(), name);
            let j = choose|j: int|
                0 <= j < env.drop_last().len() && env.drop_last()[j] == env_find(
                    env.drop_last(),
                    name,
                ).unwrap();
            assert(env[j] == env.drop_last()[j]);
        }
    }
}

/// The arena of expression nodes together with the variable environment.
pub struct Evaluator {
    pub nodes: Vec<Expr>,
    pub env: Vec<Binding>,
}

impl View for Evaluator {
    type V = StateV;

    open spec fn view(&self) -> StateV {
        StateV {
            nodes: self.nodes@.map_values(|e: Expr| e@),
            env: self.env@.map_values(|b: Binding| b@),
        }
    }
}

impl Evaluator {
    pub open spec fn wf(&self) -> bool {
        state_wf(self@)
    }

    /// An empty arena with an empty environment.
    pub fn new() -> (ev: Evaluator)
        ensures
            ev.wf(),
            ev@.nodes.len() == 0,
            ev@.env.len() == 0,
    {
        Evaluator { nodes: Vec::new(), env: Vec::new() }
    }

    /// How many nodes the arena holds.
    pub fn node_count(&self) -> (n: usize)
        ensures
            n == self@.nodes.len(),
    {
        self.nodes.len()
    }

    /// How many bindings the environment holds.
    pub fn env_count(&self) -> (n: usize)
        ensures
            n == self@.env.len(),
    {
        self.env.len()
    }

    /// Whether a node currently holds a resolved (or absent) literal —
    /// that is, whether evaluation has collapsed it.
    pub fn node_is_literal(&self, id: usize) -> (b: bool)
        requires
            (id as int) < self@.nodes.len(),
        ensures
            b == (self@.nodes[id as int] is Literal),
    {
        match &self.nodes[id] {
            Expr::Literal(_) => true,
            _ => false,
        }
    }

    /// Append a node whose children all already exist.
    fn add_node(&mut self, e: Expr) -> (id: usize)
        requires
            old(self).wf(),
            expr_wf(e@, old(self)@.nodes.len() as int),
        ensures
            final(self).wf(),
            id as int == old(self)@.nodes.len(),
            final(self)@.nodes == old(self)@.nodes.push(e@),
            final(self)@.env == old(self)@.env,
    {
        let id = self.nodes.len();
        self.nodes.push(e);
        proof {
            assert(self@.nodes =~= old(self)@.nodes.push(e@));
            assert(self@.env =~= old(self)@.env);
            assert forall|i: int| 0 <= i < self@.nodes.len() implies expr_wf(
                #[trigger] self@.nodes[i],
                i,
            ) by {
                if i < old(self)@.nodes.len() {
                    assert(expr_wf(old(self)@.nodes[i], i));
                }
            }
        }
        id
    }

    /// A literal node.
    pub fn lit(&mut self, value: Option<LiteralType>) -> (id: usize)
        requires
            old(self).wf(),
        ensures
            final(self).wf(),
            id as int == old(self)@.nodes.len(),
            final(self)@.nodes == old(self)@.nodes.push(ExprV::Literal(opt_lit_view(value))),
            final(self)@.env == old(self)@.env,
    {
        self.add_node(Expr::Literal(value))
    }

    /// An arithmetic node over two existing children.
    pub fn arithmetic(&mut self, left: usize, op: ArithOp, right: usize) -> (id: usize)
        requires
            old(self).wf(),
            (left as int) < old(self)@.nodes.len(),
            (right as int) < old(self)@.nodes.len(),
        ensures
            final(self).wf(),
            id as int == old(self)@.nodes.len(),
            final(self)@.nodes == old(self)@.nodes.push(
                ExprV::ArithmeticExpr(left as int, op, right as int),
            ),
            final(self)@.env == old(self)@.env,
    {
        self.add_node(Expr::ArithmeticExpr(left, op, right))
    }

    /// A relational node over two existing children.
    pub fn boolean(&mut self, left: usize, op: CmpOp, right: usize) -> (id: usize)
        requires
            old(self).wf(),
            (left as int) < old(self)@.nodes.len(),
            (right as int) < old(self)@.nodes.len(),
        ensures
            final(self).wf(),
            id as int == old(self)@.nodes.len(),
            final(self)@.nodes == old(self)@.nodes.push(
                ExprV::BooleanExpr(left as int, op, right as int),
            ),
            final(self)@.env == old(self)@.env,
    {
        self.add_node(Expr::BooleanExpr(left, op, right))
    }

    /// A conditional node; the else branch may be absent.
    pub fn if_else(&mut self, cond: usize, if_true: usize, if_false: Option<usize>) -> (id: usize)
        requires
            old(self).wf(),
            (cond as int) < old(self)@.nodes.len(),
            (if_true as int) < old(self)@.nodes.len(),
            (match if_false {
                Some(x) => (x as int) < old(self)@.nodes.len(),
                None => true,
            }),
        ensures
            final(self).wf(),
            id as int == old(self)@.nodes.len(),
            final(self)@.nodes == old(self)@.nodes.push(
                ExprV::IfElseExpr(
                    cond as int,
                    if_true as int,
                    match if_false {
                        Some(x) => Some(x as int),
                        None => None,
                    },
                ),
            ),
            final(self)@.env == old(self)@.env,
    {
        self.add_node(Expr::IfElseExpr(cond, if_true, if_false))
    }

    /// A call node applying a builtin to existing argument nodes.
    pub fn call(&mut self, f: Builtin, args: Vec<usize>) -> (id: usize)
        requires
            old(self).wf(),
            forall|k: int| 0 <= k < args@.len() ==> (#[trigger] args@[k] as int) < old(
                self,
            )@.nodes.len(),
        ensures
            final(self).wf(),
            id as int == old(self)@.nodes.len(),
            final(self)@.nodes == old(self)@.nodes.push(ExprV::FunctionCall(f, ids_view(args@))),
            final(self)@.env == old(self)@.env,
    {
        proof {
            assert(forall|k: int|
                0 <= k < ids_view(args@).len() ==> 0 <= #[trigger] ids_view(args@)[k] < old(
                    self,
                )@.nodes.len());
        }
        self.add_node(Expr::FunctionCall(f, args))
    }

    /// A declaration node binding a name to an existing value node. The
    /// binding is made when the node is evaluated, not when it is built.
    pub fn var_decl(&mut self, name: &str, value: usize) -> (id: usize)
        requires
            old(self).wf(),
            (value as int) < old(self)@.nodes.len(),
        ensures
            final(self).wf(),
            id as int == old(self)@.nodes.len(),
            final(self)@.nodes == old(self)@.nodes.push(ExprV::VarDecl(name@, value as int)),
            final(self)@.env == old(self)@.env,
    {
        self.add_node(Expr::VarDecl(String::from_str(name), value))
    }

    /// A reference node pointing straight at an existing target node.
    pub fn var_node(&mut self, name: &str, target: usize) -> (id: usize)
        requires
            old(self).wf(),
            (target as int) < old(self)@.nodes.len(),
        ensures
            final(self).wf(),
            id as int == old(self)@.nodes.len(),
            final(self)@.nodes == old(self)@.nodes.push(ExprV::Var(name@, target as int)),
            final(self)@.env == old(self)@.env,
    {
        self.add_node(Expr::Var(String::from_str(name), target))
    }

    /// Look a name up in the environment: the most recently declared
    /// binding wins; an unknown name is a reported error.
    pub fn lookup(&self, name: &str) -> (r: Result<LiteralOrVar, EvalError>)
        requires
            self.wf(),
        ensures
            match r {
                Ok(v) => match env_find(self@.env, name@) {
                    Some(b) => v@ == LitOrVarV::Var(b.name, b.node) && b.name == name@,
                    None => false,
                },
                Err(e) => e == EvalError::UndeclaredVariable && env_find(self@.env, name@)
                    is None,
            },
    {
        let key = String::from_str(name);
        let mut i: usize = self.env.len();
        proof {
            assert(self@.env.take(i as int) =~= self@.env);
        }
        while i > 0
            invariant
                i <= self.env.len(),
                key@ == name@,
                env_find(self@.env, name@) == env_find(self@.env.take(i as int), name@),
            decreases i,
        {
            i = i - 1;
            proof {
                assert(self@.env.take(i + 1).drop_last() =~= self@.env.take(i as int));
                assert(self@.env.take(i + 1).last() == self@.env[i as int]);
            }
            if self.env[i].name == key {
                let b = &self.env[i];
                return Ok(LiteralOrVar::Var(b.name.clone(), b.node));
            }
        }
        proof {
            assert(self@.env.take(0) =~= Seq::<BindingV>::empty());
        }
        Err(EvalError::UndeclaredVariable)
    }

    /// A reference node for a declared name: the link is resolved here,
    /// once, to the declaration's bound node.
    pub fn var_ref(&mut self, name: &str) -> (r: Result<usize, EvalError>)
        requires
            old(self).wf(),
        ensures
            final(self).wf(),
            final(self)@.env == old(self)@.env,
            match r {
                Ok(id) => match env_find(old(self)@.env, name@) {
                    Some(b) => id as int == old(self)@.nodes.len() && final(self)@.nodes == old(
                        self,
                    )@.nodes.push(ExprV::Var(b.name, b.node)),
                    None => false,
                },
                Err(e) => e == EvalError::UndeclaredVariable && env_find(old(self)@.env, name@)
                    is None && final(self)@.nodes == old(self)@.nodes,
            },
    {
        match self.lookup(name) {
            Ok(LiteralOrVar::Var(n, t)) => {
                proof {
                    lemma_env_find_in(self@.env, name@);
                    let b = env_find(self@.env, name@).unwrap();
                    assert(0 <= b.node < self@.nodes.len());
                }
                Ok(self.add_node(Expr::Var(n, t)))
            },
            Ok(LiteralOrVar::Literal(_)) => {
                proof {
                    assert(false);
                }
                Err(EvalError::UndeclaredVariable)
            },
            Err(e) => Err(e),
        }
    }
}

/// Anything that can be turned into a node of the arena: plain values
/// become literal nodes, an existing handle stands for its own node, and
/// an environment entry becomes a reference node.
pub trait ToExpr {
    /// Whether this value can be built in the given state.
    spec fn buildable(&self, s: StateV) -> bool;

    /// The node the built handle designates.
    spec fn built_view(&self, s: StateV) -> ExprV;

    /// Build (or reuse) a node and return its handle.
    fn to_expr(&self, ev: &mut Evaluator) -> (id: usize)
        requires
            old(ev).wf(),
            self.buildable(old(ev)@),
        ensures
            final(ev).wf(),
            (id as int) < final(ev)@.nodes.len(),
            old(ev)@.nodes.is_prefix_of(final(ev)@.nodes),
            final(ev)@.nodes.len() <= old(ev)@.nodes.len() + 1,
            final(ev)@.env == old(ev)@.env,
            final(ev)@.nodes[id as int] == self.built_view(old(ev)@),
    ;
}

impl ToExpr for i64 {
    open spec fn buildable(&self, s: StateV) -> bool {
        true
    }

    open spec fn built_view(&self, s: StateV) -> ExprV {
        ExprV::Literal(Some(LitView::Int(*self as int)))
    }

    fn to_expr(&self, ev: &mut Evaluator) -> (id: usize) {
        ev.lit(Some(LiteralType::Int(*self)))
    }
}

impl ToExpr for bool {
    open spec fn buildable(&self, s: StateV) -> bool {
        true
    }

    open spec fn built_view(&self, s: StateV) -> ExprV {
        ExprV::Literal(Some(LitView::Bool(*self)))
    }

    fn to_expr(&self, ev: &mut Evaluator) -> (id: usize) {
        ev.lit(Some(LiteralType::Bool(*self)))
    }
}

impl ToExpr for LiteralType {
    open spec fn buildable(&self, s: StateV) -> bool {
        true
    }

    open spec fn built_view(&self, s: StateV) -> ExprV {
        ExprV::Literal(Some(self@))
    }

    fn to_expr(&self, ev: &mut Evaluator) -> (id: usize) {
        ev.lit(Some(self.dup()))
    }
}

impl ToExpr for Option<LiteralType> {
    open spec fn buildable(&self, s: StateV) -> bool {
        true
    }

    open spec fn built_view(&self, s: StateV) -> ExprV {
        ExprV::Literal(opt_lit_view(*self))
    }

    fn to_expr(&self, ev: &mut Evaluator) -> (id: usize) {
        match self {
            Some(v) => ev.lit(Some(v.dup())),
            None => ev.lit(None),
        }
    }
}

impl ToExpr for usize {
    open spec fn buildable(&self, s: StateV) -> bool {
        (*self as int) < s.nodes.len()
    }

    open spec fn built_view(&self, s: StateV) -> ExprV {
        s.nodes[*self as int]
    }

    fn to_expr(&self, ev: &mut Evaluator) -> (id: usize) {
        *self
    }
}

impl ToExpr for LiteralOrVar {
    open spec fn buildable(&self, s: StateV) -> bool {
        match self {
            LiteralOrVar::Literal(_) => true,
            LiteralOrVar::Var(_, t) => (*t as int) < s.nodes.len(),
        }
    }

    open spec fn built_view(&self, s: StateV) -> ExprV {
        match self {
            LiteralOrVar::Literal(l) => ExprV::Literal(opt_lit_view(*l)),
            LiteralOrVar::Var(n, t) => ExprV::Var(n@, *t as int),
        }
    }

    fn to_expr(&self, ev: &mut Evaluator) -> (id: usize) {
        match self {
            LiteralOrVar::Literal(Some(v)) => ev.lit(Some(v.dup())),
            LiteralOrVar::Literal(None) => ev.lit(None),
            LiteralOrVar::Var(n, t) => ev.var_node(n.as_str(), *t),
        }
    }
}

} // verus!
