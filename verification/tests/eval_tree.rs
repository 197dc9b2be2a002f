use miniexpr::expr::{Builtin, Evaluator, LiteralOrVar, ToExpr};
use miniexpr::literal_type::{ArithOp, CmpOp, EvalError, LiteralType};

fn lit_int(i: i64) -> LiteralType {
    LiteralType::Int(i)
}

fn text(s: &str) -> LiteralType {
    LiteralType::Text(String::from(s))
}

/// Evaluate a node and unwrap the literal it must produce.
fn eval_lit(ev: &mut Evaluator, id: usize) -> Option<LiteralType> {
    match ev.evaluate(id) {
        Ok(LiteralOrVar::Literal(l)) => l,
        other => panic!("expected a literal result, got {:?}", other),
    }
}

#[test]
fn arithmetic_tree_evaluates() {
    let mut ev = Evaluator::new();
    let l = ev.lit(Some(lit_int(5)));
    let r = ev.lit(Some(lit_int(3)));
    let root = ev.arithmetic(l, ArithOp::Add, r);
    assert_eq!(eval_lit(&mut ev, root), Some(lit_int(8)));
}

#[test]
fn conditional_takes_the_true_branch() {
    let mut ev = Evaluator::new();
    let c = ev.lit(Some(LiteralType::Bool(true)));
    let t = ev.lit(Some(lit_int(1)));
    let e = ev.lit(Some(lit_int(2)));
    let root = ev.if_else(c, t, Some(e));
    assert_eq!(eval_lit(&mut ev, root), Some(lit_int(1)));
}

#[test]
fn conditional_takes_the_else_branch() {
    let mut ev = Evaluator::new();
    let c = ev.lit(Some(lit_int(0)));
    let t = ev.lit(Some(lit_int(1)));
    let e = ev.lit(Some(lit_int(2)));
    let root = ev.if_else(c, t, Some(e));
    assert_eq!(eval_lit(&mut ev, root), Some(lit_int(2)));
}

#[test]
fn text_concatenation_tree() {
    let mut ev = Evaluator::new();
    let l = ev.lit(Some(text("Hello")));
    let r = ev.lit(Some(text(" World!")));
    let root = ev.arithmetic(l, ArithOp::Add, r);
    assert_eq!(eval_lit(&mut ev, root), Some(text("Hello World!")));
}

#[test]
fn variable_declaration_and_reference() {
    let mut ev = Evaluator::new();
    let ten = ev.lit(Some(lit_int(10)));
    let decl = ev.var_decl("a", ten);
    // Evaluating the declaration registers the binding and yields the
    // bound node as a live reference.
    match ev.evaluate(decl) {
        Ok(LiteralOrVar::Var(name, node)) => {
            assert_eq!(name, "a");
            assert_eq!(node, ten);
        },
        other => panic!("expected a variable result, got {:?}", other),
    }
    let a_ref = ev.var_ref("a").unwrap();
    let five = ev.lit(Some(lit_int(5)));
    let root = ev.arithmetic(a_ref, ArithOp::Add, five);
    assert_eq!(eval_lit(&mut ev, root), Some(lit_int(15)));
}

#[test]
fn undeclared_variable_is_an_error() {
    let mut ev = Evaluator::new();
    match ev.var_ref("nope") {
        Err(EvalError::UndeclaredVariable) => {},
        other => panic!("expected an undeclared-variable error, got {:?}", other),
    }
    match ev.lookup("nope") {
        Err(EvalError::UndeclaredVariable) => {},
        other => panic!("expected an undeclared-variable error, got {:?}", other),
    }
}

#[test]
fn most_recent_declaration_wins() {
    let mut ev = Evaluator::new();
    let one = ev.lit(Some(lit_int(1)));
    let d1 = ev.var_decl("a", one);
    ev.evaluate(d1).unwrap();
    let two = ev.lit(Some(lit_int(2)));
    let d2 = ev.var_decl("a", two);
    ev.evaluate(d2).unwrap();
    let a_ref = ev.var_ref("a").unwrap();
    assert_eq!(eval_lit(&mut ev, a_ref), Some(lit_int(2)));
}

#[test]
fn shared_node_collapses_once() {
    let mut ev = Evaluator::new();
    // The shared node is a call, whose evaluation appends a fresh node:
    // re-running it would be visible in the node count.
    let a = ev.lit(Some(lit_int(2)));
    let b = ev.lit(Some(lit_int(3)));
    let shared = ev.call(Builtin::Sum, vec![a, b]);
    let p1 = ev.lit(Some(lit_int(0)));
    let left = ev.arithmetic(p1, ArithOp::Add, shared);
    let right = ev.arithmetic(shared, ArithOp::Add, shared);
    assert!(!ev.node_is_literal(shared));
    let before = ev.node_count();
    assert_eq!(eval_lit(&mut ev, left), Some(lit_int(5)));
    // The call ran exactly once and collapsed to a literal.
    assert_eq!(ev.node_count(), before + 1);
    assert!(ev.node_is_literal(shared));
    // A second evaluation through another parent reuses the literal: the
    // same value comes back and nothing new is appended.
    assert_eq!(eval_lit(&mut ev, right), Some(lit_int(10)));
    assert_eq!(ev.node_count(), before + 1);
}

#[test]
fn evaluating_twice_returns_the_same_value() {
    let mut ev = Evaluator::new();
    let l = ev.lit(Some(lit_int(20)));
    let r = ev.lit(Some(lit_int(22)));
    let root = ev.arithmetic(l, ArithOp::Add, r);
    assert_eq!(eval_lit(&mut ev, root), Some(lit_int(42)));
    assert!(ev.node_is_literal(root));
    assert_eq!(eval_lit(&mut ev, root), Some(lit_int(42)));
}

#[test]
fn false_condition_without_else_is_absent_and_fires_nothing() {
    let mut ev = Evaluator::new();
    let c = ev.lit(Some(LiteralType::Bool(false)));
    let arg = ev.lit(Some(lit_int(1)));
    // The branch bears a side effect: evaluating a call appends a node.
    let branch = ev.call(Builtin::Sum, vec![arg]);
    let root = ev.if_else(c, branch, None);
    let nodes_before = ev.node_count();
    let env_before = ev.env_count();
    assert_eq!(eval_lit(&mut ev, root), None);
    // The branch never fired: no node appended, nothing declared, and the
    // branch node itself is still an uncollapsed call.
    assert_eq!(ev.node_count(), nodes_before);
    assert_eq!(ev.env_count(), env_before);
    assert!(!ev.node_is_literal(branch));
    assert!(ev.node_is_literal(root));
}

#[test]
fn absent_operand_is_an_error() {
    let mut ev = Evaluator::new();
    let l = ev.lit(None);
    let r = ev.lit(Some(lit_int(1)));
    let root = ev.arithmetic(l, ArithOp::Add, r);
    assert_eq!(ev.evaluate(root).unwrap_err(), EvalError::AbsentOperand);
}

#[test]
fn comparison_tree() {
    let mut ev = Evaluator::new();
    let l = ev.lit(Some(lit_int(2)));
    let r = ev.lit(Some(lit_int(3)));
    let root = ev.boolean(l, CmpOp::Lt, r);
    assert_eq!(eval_lit(&mut ev, root), Some(LiteralType::Bool(true)));
}

#[test]
fn sum_builtin_folds_its_arguments() {
    let mut ev = Evaluator::new();
    let a = ev.lit(Some(lit_int(1)));
    let b = ev.lit(Some(lit_int(2)));
    let c = ev.lit(Some(lit_int(3)));
    let root = ev.call(Builtin::Sum, vec![a, b, c]);
    assert_eq!(eval_lit(&mut ev, root), Some(lit_int(6)));
    let empty = ev.call(Builtin::Sum, vec![]);
    assert_eq!(eval_lit(&mut ev, empty), Some(lit_int(0)));
}

#[test]
fn sum_builtin_rejects_an_absent_argument() {
    let mut ev = Evaluator::new();
    let a = ev.lit(Some(lit_int(1)));
    let b = ev.lit(None);
    let root = ev.call(Builtin::Sum, vec![a, b]);
    assert_eq!(ev.evaluate(root).unwrap_err(), EvalError::AbsentOperand);
}

#[test]
fn division_errors_propagate_from_the_tree() {
    let mut ev = Evaluator::new();
    let l = ev.lit(Some(lit_int(1)));
    let r = ev.lit(Some(lit_int(0)));
    let root = ev.arithmetic(l, ArithOp::Div, r);
    assert_eq!(ev.evaluate(root).unwrap_err(), EvalError::DivisionByZero);
}

#[test]
fn value_resolves_through_references() {
    let mut ev = Evaluator::new();
    let l = ev.lit(Some(lit_int(4)));
    let r = ev.lit(Some(lit_int(5)));
    let sum = ev.arithmetic(l, ArithOp::Add, r);
    let decl = ev.var_decl("s", sum);
    let lov = ev.evaluate(decl).unwrap();
    assert_eq!(lov.value(&mut ev).unwrap(), Some(lit_int(9)));
    // The bound expression collapsed on first use; the reference now
    // reads the literal.
    assert!(ev.node_is_literal(sum));
    assert_eq!(lov.value(&mut ev).unwrap(), Some(lit_int(9)));
}

#[test]
fn to_expr_builds_literal_nodes() {
    let mut ev = Evaluator::new();
    let a = 7i64.to_expr(&mut ev);
    let b = true.to_expr(&mut ev);
    let c = lit_int(9).to_expr(&mut ev);
    let d = Some(lit_int(1)).to_expr(&mut ev);
    let e = a.to_expr(&mut ev);
    assert_eq!(a, e);
    assert_eq!(eval_lit(&mut ev, a), Some(lit_int(7)));
    assert_eq!(eval_lit(&mut ev, b), Some(LiteralType::Bool(true)));
    assert_eq!(eval_lit(&mut ev, c), Some(lit_int(9)));
    assert_eq!(eval_lit(&mut ev, d), Some(lit_int(1)));
    let looked = {
        let ten = ev.lit(Some(lit_int(10)));
        let decl = ev.var_decl("x", ten);
        ev.evaluate(decl).unwrap();
        ev.lookup("x").unwrap()
    };
    let x_node = looked.to_expr(&mut ev);
    assert_eq!(eval_lit(&mut ev, x_node), Some(lit_int(10)));
}
