//! Among which threads an operation on memory is ordered.
use vstd::prelude::*;

verus! {

/// One of the markers of this module.
pub trait Mode {

}

/// Those of one block.
#[derive(Clone, Copy, Debug)]
pub struct TileBlock;

impl Mode for TileBlock {

}

/// Those of one device.
#[derive(Clone, Copy, Debug)]
pub struct Device;

impl Mode for Device {

}

/// All of them.
#[derive(Clone, Copy, Debug)]
pub struct System;

impl Mode for System {

}

} // verus!
