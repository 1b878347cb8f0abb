//! Code generation for a kernel: what is decided in the library, and what is handed to the backend.
pub mod value;
pub mod dialogue;
pub mod entries;
pub mod inlining;
pub mod orders;
pub mod steady;
pub mod steps;
pub mod tape;
pub mod typing;
pub mod consts;
pub mod calls;
pub mod kernel;
pub mod messages;
