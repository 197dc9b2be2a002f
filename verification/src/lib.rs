//! A minimal expression-language interpreter.
//!
//! The library has two layers. `literal_type` defines the tagged literal
//! values (integer, boolean, text) together with their coercion-aware
//! arithmetic. `expr`, `semantics` and `eval` define a tree of expression
//! nodes held in an arena, an append-only variable environment, and an
//! eager, self-memoizing evaluator: once a node other than a variable
//! reference or declaration has been evaluated, it is rewritten in place to
//! the literal it produced, so a shared node is computed at most once.
//!
//! The intended meaning of evaluation is written down as a ghost big-step
//! semantics (`semantics::node_step`), and the executable evaluator is
//! proved to follow it exactly. `laws` states and proves the coercion and
//! memoization laws on top of that semantics. `numtext` supplies verified
//! decimal rendering and parsing, and `token` reads the whitespace toy
//! grammar of `int + int` groups into trees for the evaluator.

pub mod eval;
pub mod expr;
pub mod laws;
pub mod literal_type;
pub mod numtext;
pub mod semantics;
pub mod token;
