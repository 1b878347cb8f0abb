//! The host side of a device: contexts, streams and launches, as the calls that they make of the
//! driver.
pub mod dialogue;
pub mod driver;
pub mod context;
pub mod launch;
pub mod api;
pub mod steady;
