//! The language of kernels, as what its types and operations compute.
//!
//! A tile is its dimensions and its elements; a tensor is the memory that tiles are loaded from and
//! stored to. Dimensions are known when a kernel runs.
pub mod arithmetic;
pub mod atomic;
pub mod cmp_ordering;
pub mod dim_map;
pub mod element;
pub mod ftz;
pub mod integer;
pub mod lanes;
pub mod layout;
pub mod matrix;
pub mod memory;
pub mod nan;
pub mod number_rules;
pub mod operators;
pub mod ordering;
pub mod overflow;
pub mod padding;
pub mod partition;
pub mod pointer;
pub mod predicate;
pub mod reduction;
pub mod reverse;
pub mod rounding;
pub mod scope;
pub mod signedness;
pub mod tile;
pub mod tile_rules;
pub mod tma;
