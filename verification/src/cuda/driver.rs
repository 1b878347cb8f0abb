//! Calls of the driver, one after the other.
//!
//! An operation on a device reads the driver's replies so far from a tape; at its end the operation
//! stops and names the call that comes next. Whoever drives it makes the call, puts the reply at the
//! end of the tape and starts the operation again.
use crate::list::List;
use vstd::prelude::*;

verus! {

/// An error code of the driver.
#[derive(Clone, Copy, PartialEq, Eq, Structural, Debug)]
pub struct DriverError(pub u32);

/// The code for a value that is out of range.
pub const INVALID_VALUE: u32 = 1;

/// A number of threads or blocks in each of three dimensions.
#[derive(Clone, Copy, PartialEq, Eq, Structural, Debug)]
pub struct Dim3 {
    pub x: u32,
    pub y: u32,
    pub z: u32,
}

/// A launch of a kernel.
#[derive(Clone, Copy, PartialEq, Eq, Structural, Debug)]
pub struct Launch {
    pub function: u64,
    pub grid_dim: Dim3,
    pub block_dim: Dim3,
    pub shared_mem_bytes: u32,
    pub stream: u64,
}

/// A call of the driver.
pub enum Call {
    /// `cuInit`
    Init(u32),
    /// `cuDeviceGet`
    DeviceGet(i32),
    /// `cuDevicePrimaryCtxRetain`
    PrimaryCtxRetain(i32),
    /// `cuDevicePrimaryCtxRelease`
    PrimaryCtxRelease(i32),
    /// `cuDevicePrimaryCtxGetState`
    PrimaryCtxGetState(i32),
    /// `cuDevicePrimaryCtxSetFlags`
    PrimaryCtxSetFlags { device: i32, flags: u32 },
    /// `cuCtxGetCurrent`
    CtxGetCurrent,
    /// `cuCtxSetCurrent`
    CtxSetCurrent(u64),
    /// `cuCtxSynchronize`
    CtxSynchronize,
    /// `cuCtxGetLimit`
    CtxGetLimit(u32),
    /// `cuCtxSetLimit`
    CtxSetLimit { limit: u32, value: usize },
    /// `cuCtxGetStreamPriorityRange`
    StreamPriorityRange,
    /// `cuStreamCreate`
    StreamCreate { flags: u32 },
    /// `cuStreamCreateWithPriority`
    StreamCreateWithPriority { flags: u32, priority: i32 },
    /// `cuStreamDestroy`
    StreamDestroy(u64),
    /// `cuDeviceGetName`
    DeviceGetName(i32),
    /// `cuDeviceGetAttribute`
    DeviceGetAttribute { device: i32, attribute: u32 },
    /// `cuCtxGetApiVersion`
    CtxGetApiVersion(u64),
    /// `cuMemAllocAsync`
    MallocAsync { num_bytes: usize, stream: u64 },
    /// `cuMemAllocFromPoolAsync`
    MallocFromPoolAsync { num_bytes: usize, pool: u64, stream: u64 },
    /// `cuMemsetD8Async`
    MemsetD8Async { dptr: u64, value: u8, num_bytes: usize, stream: u64 },
    /// `cuMemFreeAsync`
    FreeAsync { dptr: u64, stream: u64 },
    /// `cuMemcpyHtoDAsync`
    MemcpyHtodAsync { dst: u64, src: u64, num_bytes: usize, stream: u64 },
    /// `cuMemcpyDtoHAsync`
    MemcpyDtohAsync { dst: u64, src: u64, num_bytes: usize, stream: u64 },
    /// `cuMemcpyDtoDAsync`
    MemcpyDtodAsync { dst: u64, src: u64, num_bytes: usize, stream: u64 },
    /// `cuLaunchKernel`
    LaunchKernel { launch: Launch, args: List<u64> },
    /// `cuLaunchKernelEx`, with the attributes of the launch as bytes.
    LaunchKernelEx { launch: Launch, attributes: List<Attribute>, args: List<u64> },
}

/// An attribute of a launch that holds a number.
#[derive(Clone, Copy, PartialEq, Eq, Structural, Debug)]
pub struct Attribute {
    pub id: u32,
    pub value: i32,
}

/// What a call writes.
pub enum Output {
    Nothing,
    Handle(u64),
    Number(i32),
    Flags(u32),
    Size(usize),
    Pair(i32, i32),
    Bytes(List<u8>),
}

/// The reply to a call: its code, which is zero where it succeeded, and what it wrote.
pub struct Reply {
    pub code: u32,
    pub output: Output,
}

/// Why an operation stopped before its end.
pub enum Halt {
    /// The driver is called.
    Perform(Call),
    Failed(DriverError),
    /// A reply does not answer its call.
    OutOfStep,
}

/// What is left of the replies after an operation, and what it gives; or why it stopped.
pub type Run<T> = Result<(List<Reply>, T), Halt>;

/// Whether what a function returned, and what it left of the replies, is what it should be.
pub open spec fn follows<T>(r: Result<T, Halt>, left: List<Reply>, expected: Run<T>) -> bool {
    match expected {
        Ok((rest, value)) => r == Ok::<T, Halt>(value) && left == rest,
        Err(halt) => r == Err::<T, Halt>(halt),
    }
}

/// What a call writes: the next reply, where it succeeded.
pub open spec fn called(tape: List<Reply>, call: Call) -> Run<Output> {
    match tape {
        List::Nil => Err(Halt::Perform(call)),
        List::Cons(reply, rest) => if reply.code != 0 {
            Err(Halt::Failed(DriverError(reply.code)))
        } else {
            Ok((*rest, reply.output))
        },
    }
}

/// The code of a call, whether it succeeded or not, and what it wrote.
pub open spec fn answered(tape: List<Reply>, call: Call) -> Run<(u32, Output)> {
    match tape {
        List::Nil => Err(Halt::Perform(call)),
        List::Cons(reply, rest) => Ok((*rest, (reply.code, reply.output))),
    }
}

/// The replies so far.
pub struct Driver {
    pub left: List<Reply>,
}

impl Output {
    pub fn dup(&self) -> (r: Output)
        ensures
            r == *self,
    {
        match self {
            Output::Nothing => Output::Nothing,
            Output::Handle(handle) => Output::Handle(*handle),
            Output::Number(number) => Output::Number(*number),
            Output::Flags(flags) => Output::Flags(*flags),
            Output::Size(size) => Output::Size(*size),
            Output::Pair(a, b) => Output::Pair(*a, *b),
            Output::Bytes(bytes) => Output::Bytes(bytes.dup()),
        }
    }
}

impl Driver {
    pub fn try_call(&mut self, call: Call) -> (r: Result<(u32, Output), Halt>)
        ensures
            follows(r, final(self).left, answered(old(self).left, call)),
    {
        let (code, output, rest) = match &self.left {
            List::Nil => return Err(Halt::Perform(call)),
            List::Cons(reply, rest) => (reply.code, reply.output.dup(), rest.dup()),
        };
        self.left = rest;
        Ok((code, output))
    }

    pub fn call(&mut self, call: Call) -> (r: Result<Output, Halt>)
        ensures
            follows(r, final(self).left, called(old(self).left, call)),
    {
        let (code, output, rest) = match &self.left {
            List::Nil => return Err(Halt::Perform(call)),
            List::Cons(reply, rest) => (reply.code, reply.output.dup(), rest.dup()),
        };
        if code != 0 {
            return Err(Halt::Failed(DriverError(code)));
        }
        self.left = rest;
        Ok(output)
    }
}

/// What a call gives that gives nothing.
pub open spec fn done(tape: List<Reply>, call: Call) -> Run<()> {
    match called(tape, call) {
        Err(halt) => Err(halt),
        Ok((tape, Output::Nothing)) => Ok((tape, ())),
        Ok(_) => Err(Halt::OutOfStep),
    }
}

/// What a call gives that gives a handle.
pub open spec fn handle(tape: List<Reply>, call: Call) -> Run<u64> {
    match called(tape, call) {
        Err(halt) => Err(halt),
        Ok((tape, Output::Handle(handle))) => Ok((tape, handle)),
        Ok(_) => Err(Halt::OutOfStep),
    }
}

/// What a call gives that gives a number.
pub open spec fn number(tape: List<Reply>, call: Call) -> Run<i32> {
    match called(tape, call) {
        Err(halt) => Err(halt),
        Ok((tape, Output::Number(number))) => Ok((tape, number)),
        Ok(_) => Err(Halt::OutOfStep),
    }
}

/// What a call gives that gives flags.
pub open spec fn flags(tape: List<Reply>, call: Call) -> Run<u32> {
    match called(tape, call) {
        Err(halt) => Err(halt),
        Ok((tape, Output::Flags(flags))) => Ok((tape, flags)),
        Ok(_) => Err(Halt::OutOfStep),
    }
}

/// What a call gives that gives a size.
pub open spec fn size(tape: List<Reply>, call: Call) -> Run<usize> {
    match called(tape, call) {
        Err(halt) => Err(halt),
        Ok((tape, Output::Size(size))) => Ok((tape, size)),
        Ok(_) => Err(Halt::OutOfStep),
    }
}

/// What a call gives that gives two numbers.
pub open spec fn pair(tape: List<Reply>, call: Call) -> Run<(i32, i32)> {
    match called(tape, call) {
        Err(halt) => Err(halt),
        Ok((tape, Output::Pair(a, b))) => Ok((tape, (a, b))),
        Ok(_) => Err(Halt::OutOfStep),
    }
}

/// What a call gives that gives bytes.
pub open spec fn bytes(tape: List<Reply>, call: Call) -> Run<List<u8>> {
    match called(tape, call) {
        Err(halt) => Err(halt),
        Ok((tape, Output::Bytes(bytes))) => Ok((tape, bytes)),
        Ok(_) => Err(Halt::OutOfStep),
    }
}

impl Driver {
    pub fn call_for_nothing(&mut self, call: Call) -> (r: Result<(), Halt>)
        ensures
            follows(r, final(self).left, done(old(self).left, call)),
    {
        match self.call(call)? {
            Output::Nothing => Ok(()),
            _ => Err(Halt::OutOfStep),
        }
    }

    pub fn call_for_handle(&mut self, call: Call) -> (r: Result<u64, Halt>)
        ensures
            follows(r, final(self).left, handle(old(self).left, call)),
    {
        match self.call(call)? {
            Output::Handle(handle) => Ok(handle),
            _ => Err(Halt::OutOfStep),
        }
    }

    pub fn call_for_number(&mut self, call: Call) -> (r: Result<i32, Halt>)
        ensures
            follows(r, final(self).left, number(old(self).left, call)),
    {
        match self.call(call)? {
            Output::Number(number) => Ok(number),
            _ => Err(Halt::OutOfStep),
        }
    }

    pub fn call_for_flags(&mut self, call: Call) -> (r: Result<u32, Halt>)
        ensures
            follows(r, final(self).left, flags(old(self).left, call)),
    {
        match self.call(call)? {
            Output::Flags(flags) => Ok(flags),
            _ => Err(Halt::OutOfStep),
        }
    }

    pub fn call_for_size(&mut self, call: Call) -> (r: Result<usize, Halt>)
        ensures
            follows(r, final(self).left, size(old(self).left, call)),
    {
        match self.call(call)? {
            Output::Size(size) => Ok(size),
            _ => Err(Halt::OutOfStep),
        }
    }

    pub fn call_for_pair(&mut self, call: Call) -> (r: Result<(i32, i32), Halt>)
        ensures
            follows(r, final(self).left, pair(old(self).left, call)),
    {
        match self.call(call)? {
            Output::Pair(a, b) => Ok((a, b)),
            _ => Err(Halt::OutOfStep),
        }
    }

    pub fn call_for_bytes(&mut self, call: Call) -> (r: Result<List<u8>, Halt>)
        ensures
            follows(r, final(self).left, bytes(old(self).left, call)),
    {
        match self.call(call)? {
            Output::Bytes(bytes) => Ok(bytes),
            _ => Err(Halt::OutOfStep),
        }
    }
}

} // verus!
