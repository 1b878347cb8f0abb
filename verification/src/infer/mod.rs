//! Type inference for the body of a function.
pub mod sound;
pub mod state;
pub mod patterns;
pub mod lookups;
pub mod macros;
pub mod selection;
pub mod walk;
pub mod walker;
pub mod finish;
pub mod bindings;
pub mod callees;
pub mod compounds;
pub mod fallbacks;
pub mod forms;
pub mod laws;
pub mod methods;
pub mod outputs;
pub mod readings;
pub mod terms;
pub mod steady;
