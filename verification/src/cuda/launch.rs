//! Launches of kernels.
use crate::cuda::api::{launch_kernel, launch_kernel_with_attributes};
use crate::cuda::driver::{self, Attribute, Call, Dim3, Driver, Halt, Launch, Reply};
use crate::list::List;
use std::rc::Rc;
use vstd::prelude::*;

verus! {

/// The attribute that lets a kernel start before the one ahead of it in the stream has ended.
pub const PROGRAMMATIC_STREAM_SERIALIZATION: u32 = 6;

/// What is asked of a launch beyond its dimensions.
#[derive(Clone, Copy, Debug, PartialEq, Eq, Structural)]
pub struct LaunchAttributes {
    pub programmatic_stream_serialization: bool,
}

/// The dimensions of a launch.
#[derive(Clone, Copy, Debug, PartialEq, Eq, Structural)]
pub struct LaunchConfig {
    pub grid_dim: Dim3,
    pub block_dim: Dim3,
    pub shared_mem_bytes: u32,
}

/// Why a launch is not made.
pub enum LaunchError {
    /// No dimensions were set.
    NotConfigured,
    /// The driver is called, or its call failed.
    Halted(Halt),
}

/// What is said where no dimensions were set.
pub fn not_configured_text() -> (r: &'static str)
    ensures
        r@ == "Await called before launching the kernel."@,
{
    "Await called before launching the kernel."
}

/// Attributes that ask for nothing.
pub open spec fn no_attributes() -> LaunchAttributes {
    LaunchAttributes { programmatic_stream_serialization: false }
}

/// The attributes of a launch as the driver takes them.
pub open spec fn encoded_attributes(attributes: LaunchAttributes) -> List<Attribute> {
    if attributes.programmatic_stream_serialization {
        List::Cons(
            Rc::new(Attribute { id: PROGRAMMATIC_STREAM_SERIALIZATION, value: 1 }),
            Rc::new(List::Nil),
        )
    } else {
        List::Nil
    }
}

/// A launch under construction.
pub struct AsyncKernelLaunch {
    pub func: u64,
    /// Where the arguments are.
    pub args: List<u64>,
    pub cfg: Option<LaunchConfig>,
    pub attributes: LaunchAttributes,
}

/// The launch of a kernel with these dimensions on a stream.
pub open spec fn launch_of(func: u64, cfg: LaunchConfig, stream: u64) -> Launch {
    Launch {
        function: func,
        grid_dim: cfg.grid_dim,
        block_dim: cfg.block_dim,
        shared_mem_bytes: cfg.shared_mem_bytes,
        stream,
    }
}

/// The call that a launch makes: the plain one where nothing is asked of it, else the extended one.
pub open spec fn launch_call(
    func: u64,
    args: List<u64>,
    cfg: LaunchConfig,
    attributes: LaunchAttributes,
    stream: u64,
) -> Call {
    if attributes == no_attributes() {
        Call::LaunchKernel { launch: launch_of(func, cfg, stream), args }
    } else {
        Call::LaunchKernelEx {
            launch: launch_of(func, cfg, stream),
            attributes: encoded_attributes(attributes),
            args,
        }
    }
}

impl AsyncKernelLaunch {
    /// A launch of a kernel without arguments and dimensions.
    pub fn new(func: u64) -> (r: AsyncKernelLaunch)
        ensures
            r == (AsyncKernelLaunch {
                func,
                args: List::Nil,
                cfg: None,
                attributes: no_attributes(),
            }),
    {
        AsyncKernelLaunch {
            func,
            args: List::Nil,
            cfg: None,
            attributes: LaunchAttributes { programmatic_stream_serialization: false },
        }
    }

    /// Puts an argument behind those that there are.
    pub fn push_arg(&mut self, arg: u64)
        ensures
            *final(self) == (AsyncKernelLaunch { args: old(self).args.pushed(arg), ..*old(self) }),
            final(self).args@ == old(self).args@.push(arg),
    {
        self.args = self.args.push(Rc::new(arg));
    }

    /// Sets the dimensions.
    pub fn set_launch_config(&mut self, cfg: LaunchConfig)
        ensures
            *final(self) == (AsyncKernelLaunch { cfg: Some(cfg), ..*old(self) }),
    {
        self.cfg = Some(cfg);
    }

    /// Replaces what is asked of the launch.
    pub fn set_launch_attributes(&mut self, attributes: LaunchAttributes)
        ensures
            *final(self) == (AsyncKernelLaunch { attributes, ..*old(self) }),
    {
        self.attributes = attributes;
    }

    /// Launches the kernel on a stream.
    pub fn launch(&self, driver: &mut Driver, stream: u64) -> (r: Result<(), LaunchError>)
        ensures
            launched(
                r,
                final(driver).left,
                old(driver).left,
                self.func,
                self.args,
                self.cfg,
                self.attributes,
                stream,
            ),
    {
        let cfg = match self.cfg {
            Some(cfg) => cfg,
            None => return Err(LaunchError::NotConfigured),
        };
        let launch = Launch {
            function: self.func,
            grid_dim: cfg.grid_dim,
            block_dim: cfg.block_dim,
            shared_mem_bytes: cfg.shared_mem_bytes,
            stream,
        };
        let result = if !self.attributes.programmatic_stream_serialization {
            launch_kernel(driver, launch, &self.args)
        } else {
            launch_kernel_with_attributes(driver, launch, self.attributes, &self.args)
        };
        match result {
            Ok(()) => Ok(()),
            Err(halt) => Err(LaunchError::Halted(halt)),
        }
    }
}

/// The outcome of a launch: without dimensions the driver is not called; else the launch is one
/// call.
pub open spec fn launched(
    r: Result<(), LaunchError>,
    left: List<Reply>,
    tape: List<Reply>,
    func: u64,
    args: List<u64>,
    cfg: Option<LaunchConfig>,
    attributes: LaunchAttributes,
    stream: u64,
) -> bool {
    match cfg {
        None => r == Err::<(), LaunchError>(LaunchError::NotConfigured) && left == tape,
        Some(cfg) => match driver::done(tape, launch_call(func, args, cfg, attributes, stream)) {
            Ok((rest, _)) => r == Ok::<(), LaunchError>(()) && left == rest,
            Err(halt) => r == Err::<(), LaunchError>(LaunchError::Halted(halt)),
        },
    }
}

pub fn encode_attributes(attributes: LaunchAttributes) -> (r: List<Attribute>)
    ensures
        r == encoded_attributes(attributes),
{
    if attributes.programmatic_stream_serialization {
        List::one(Rc::new(Attribute { id: PROGRAMMATIC_STREAM_SERIALIZATION, value: 1 }))
    } else {
        List::Nil
    }
}

/// The order of arguments is that in which they were pushed, and the dimensions are the last that
/// were set.
pub proof fn launch_takes_what_was_set(
    start: AsyncKernelLaunch,
    first: u64,
    second: u64,
    cfg: LaunchConfig,
    last: LaunchConfig,
)
    ensures
        start.args.pushed(first).pushed(second)@ == start.args@.push(first).push(second),
        (AsyncKernelLaunch {
            cfg: Some(last),
            ..AsyncKernelLaunch { cfg: Some(cfg), ..start }
        }) == (AsyncKernelLaunch { cfg: Some(last), ..start }),
{
    pushed_is_last(start.args, first);
    pushed_is_last(start.args.pushed(first), second);
}

proof fn pushed_is_last(list: List<u64>, item: u64)
    ensures
        list.pushed(item)@ == list@.push(item),
    decreases list,
{
    match list {
        List::Nil => {
            assert(seq![item] + Seq::<u64>::empty() =~= Seq::<u64>::empty().push(item));
        },
        List::Cons(head, tail) => {
            pushed_is_last(crate::list::held(&tail), item);
            assert(seq![crate::list::held(&head)] + tail.pushed(item)@ =~= list@.push(item));
        },
    }
}

/// The bytes of a number, the lowest first.
pub open spec fn byte_at(value: u32, at: int) -> u8 {
    if at == 0 {
        (value % 256) as u8
    } else if at == 1 {
        (value / 256 % 256) as u8
    } else if at == 2 {
        (value / 65536 % 256) as u8
    } else {
        (value / 16777216) as u8
    }
}

/// A number's bits.
pub open spec fn bits_of(value: i32) -> u32 {
    if value >= 0 {
        value as u32
    } else {
        (value + 0x1_0000_0000) as u32
    }
}

/// An attribute as the driver lays it out: its number at the start, its value at the eighth byte,
/// and zeros elsewhere.
pub open spec fn attribute_bytes(attribute: Attribute, size: nat) -> Seq<u8> {
    Seq::new(
        size,
        |i: int|
            if 0 <= i < 4 {
                byte_at(attribute.id, i)
            } else if 8 <= i < 12 {
                byte_at(bits_of(attribute.value), i - 8)
            } else {
                0
            },
    )
}

fn write_number(bytes: &mut Vec<u8>, at: usize, value: u32)
    requires
        at + 4 <= old(bytes)@.len(),
    ensures
        final(bytes)@ == old(bytes)@.update(at as int, byte_at(value, 0)).update(
            at + 1,
            byte_at(value, 1),
        ).update(at + 2, byte_at(value, 2)).update(at + 3, byte_at(value, 3)),
{
    let len: usize = bytes.len();
    assert(at + 4 <= len);
    bytes.set(at, (value % 256) as u8);
    bytes.set(at + 1, (value / 256 % 256) as u8);
    bytes.set(at + 2, (value / 65536 % 256) as u8);
    bytes.set(at + 3, (value / 16777216) as u8);
}

/// Lays an attribute out in as many bytes as the driver takes for one.
pub fn encode_i32_launch_attribute(attribute: Attribute, size: usize) -> (r: Vec<u8>)
    requires
        size >= 12,
    ensures
        r@ == attribute_bytes(attribute, size as nat),
{
    let mut bytes: Vec<u8> = Vec::new();
    while bytes.len() < size
        invariant
            bytes@.len() <= size,
            forall|i: int| 0 <= i < bytes@.len() ==> #[trigger] bytes@[i] == 0,
        decreases size - bytes@.len(),
    {
        bytes.push(0);
    }
    let value = attribute.value;
    let bits = value as u32;
    assert(bits == bits_of(value)) by {
        assert(value >= 0 ==> value as u32 == value) by (bit_vector);
        assert(value < 0 ==> value as u32 == value + 0x1_0000_0000) by (bit_vector);
    }
    write_number(&mut bytes, 0, attribute.id);
    write_number(&mut bytes, 8, bits);
    assert(bytes@ =~= attribute_bytes(attribute, size as nat));
    bytes
}

} // verus!
