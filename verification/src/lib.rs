//! Evaluation engine for a small dynamically typed scripting language whose
//! programs are trees of tagged instruction nodes.
//!
//! The crate provides the runtime value model, the lexically scoped variable
//! environment, the shared mutable list store, and the recursive evaluator
//! with its arithmetic, comparison and control-flow rules.  The front end
//! that turns source markup into an instruction tree, and the host's real
//! input/output, live outside this crate: the evaluator reaches the host
//! only through the [`stl::Host`] trait.

pub mod arith;
pub mod context;
pub mod dbl;
pub mod error;
pub mod heap;
pub mod instruction;
pub mod program;
pub mod semantics;
pub mod stl;
pub mod text;
pub mod value;
