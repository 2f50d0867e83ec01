//! A small untyped lambda-calculus term evaluator.
//!
//! Terms are a tagged union of variables, abstractions, applications, opaque
//! symbols, the three primitive combinators S, K and I, weighted "muse"
//! leaves, quine wrappers and inert byte payloads. The engine rewrites a term
//! one step at a time under a step budget and reports every intermediate
//! form. Every executable function is verified against a mathematical model
//! of terms ([`Term`]) and of the rewrite rules ([`step`]).

pub mod term;
pub mod expr;
pub mod equality;
pub mod rules;
pub mod engine;
pub mod evolve;
pub mod builder;
pub mod laws;

pub use builder::ExprBuilder;
pub use engine::{LambdaEngine, ReductionTrace};
pub use evolve::Draw;
pub use expr::Expr;
pub use term::Term;
