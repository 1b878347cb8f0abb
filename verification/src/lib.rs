//! The parts of a compiler for kernels of tiles that decide something: types are inferred, calls are
//! inlined, kernels are prepared and launched, and what the language of kernels computes is stated.
pub mod ask;
pub mod codegen;
pub mod cuda;
pub mod declaration_rules;
pub mod dsl;
pub mod env;
pub mod exprs;
pub mod forest;
pub mod generics;
pub mod infer;
pub mod joining;
pub mod list;
pub mod literals;
pub mod names;
pub mod receiver;
pub mod render;
pub mod resolvable;
pub mod resolved;
pub mod results;
pub mod scalar;
pub mod specialization;
pub mod substitute;
pub mod syntax;
pub mod syntax_eq;
pub mod type_rules;
pub mod types;
pub mod unify;
