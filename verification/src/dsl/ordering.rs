//! How an operation on memory is ordered. The traits say which orders each kind of operation can have.
use vstd::prelude::*;

verus! {

/// One of the markers of this module.
pub trait Mode {

}

/// The order of a load.
pub trait LoadMode: Mode {

}

/// The order of a store.
pub trait StoreMode: Mode {

}

/// The order of an atomic operation.
pub trait AtomicMode: Mode {

}

/// No order at all.
#[derive(Clone, Copy, Debug)]
pub struct Weak;

impl Mode for Weak {

}

impl LoadMode for Weak {

}

impl StoreMode for Weak {

}

/// Atomic, in no order.
#[derive(Clone, Copy, Debug)]
pub struct Relaxed;

impl Mode for Relaxed {

}

impl LoadMode for Relaxed {

}

impl StoreMode for Relaxed {

}

impl AtomicMode for Relaxed {

}

/// Later operations stay behind it.
#[derive(Clone, Copy, Debug)]
pub struct Acquire;

impl Mode for Acquire {

}

impl LoadMode for Acquire {

}

impl AtomicMode for Acquire {

}

/// Earlier operations stay before it.
#[derive(Clone, Copy, Debug)]
pub struct Release;

impl Mode for Release {

}

impl StoreMode for Release {

}

impl AtomicMode for Release {

}

/// Both.
#[derive(Clone, Copy, Debug)]
pub struct AcqRel;

impl Mode for AcqRel {

}

impl AtomicMode for AcqRel {

}

} // verus!
