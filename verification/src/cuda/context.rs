//! The primary context of a device.
use crate::cuda::driver::{
    self, Call, Driver, DriverError, Halt, Reply, Run, INVALID_VALUE,
};
use crate::list::List;
use crate::render::{self, write_signed};
use vstd::prelude::*;

verus! {

// Stream priorities.

/// The device's meaningful stream priorities. A lower number is a higher priority, so the range runs
/// from [`greatest`](Self::greatest) up to [`least`](Self::least).
#[derive(Clone, Copy, Debug, PartialEq, Eq, Structural)]
pub struct StreamPriorityRange {
    /// Numerically largest value, the lowest priority.
    least: i32,
    /// Numerically smallest value, the highest priority.
    greatest: i32,
}

impl StreamPriorityRange {
    /// The lowest priority.
    pub closed spec fn lowest(self) -> i32 {
        self.least
    }

    /// The highest priority.
    pub closed spec fn highest(self) -> i32 {
        self.greatest
    }

    /// A range whose ends are in order.
    pub open spec fn wf(self) -> bool {
        self.highest() <= self.lowest()
    }

    pub(crate) fn new(least: i32, greatest: i32) -> (r: StreamPriorityRange)
        ensures
            r.lowest() == least,
            r.highest() == greatest,
    {
        StreamPriorityRange { least, greatest }
    }

    /// The lowest priority, which is the numerically largest value.
    pub fn least(&self) -> (r: i32)
        ensures
            r == self.lowest(),
    {
        self.least
    }

    /// The highest priority, which is the numerically smallest value.
    pub fn greatest(&self) -> (r: i32)
        ensures
            r == self.highest(),
    {
        self.greatest
    }

    /// Whether this device implements stream priorities at all.
    pub fn is_supported(&self) -> (r: bool)
        ensures
            r == (self.lowest() != self.highest()),
    {
        self.least != self.greatest
    }

    /// Whether a priority lies inside the range, and so survives stream creation unchanged.
    pub fn contains(&self, priority: i32) -> (r: bool)
        ensures
            r == (self.highest() <= priority <= self.lowest()),
    {
        self.greatest <= priority && priority <= self.least
    }

    /// The value the driver will actually apply for a request of `priority`.
    pub fn clamp(&self, priority: i32) -> (r: i32)
        requires
            self.wf(),
        ensures
            r == applied_priority(*self, priority),
    {
        if priority < self.greatest {
            self.greatest
        } else if priority > self.least {
            self.least
        } else {
            priority
        }
    }
}

/// The priority in the range that is next to a number.
pub open spec fn applied_priority(range: StreamPriorityRange, priority: i32) -> i32 {
    if priority < range.highest() {
        range.highest()
    } else if priority > range.lowest() {
        range.lowest()
    } else {
        priority
    }
}

/// What is applied lies in the range; what lies in the range is applied as it is; and the order of
/// two requests is kept.
pub proof fn priorities_are_clamped(range: StreamPriorityRange, a: i32, b: i32)
    requires
        range.wf(),
    ensures
        range.highest() <= applied_priority(range, a) <= range.lowest(),
        range.highest() <= a <= range.lowest() ==> applied_priority(range, a) == a,
        applied_priority(range, applied_priority(range, a)) == applied_priority(range, a),
        a <= b ==> applied_priority(range, a) <= applied_priority(range, b),
{
}

// Limits.

/// A per-context device limit.
#[derive(Clone, Copy, Debug, PartialEq, Eq, Structural)]
pub enum ContextLimit {
    /// Stack size in bytes for each GPU thread.
    StackSize,
    /// Size in bytes of the FIFO backing the device `printf`.
    PrintfFifoSize,
    /// Size in bytes of the heap backing device `malloc` and `free`.
    MallocHeapSize,
    /// Maximum grid nesting depth at which a device-runtime thread may synchronize.
    DevRuntimeSyncDepth,
    /// Maximum number of outstanding device-runtime launches.
    DevRuntimePendingLaunchCount,
    /// L2 fetch granularity in bytes.
    MaxL2FetchGranularity,
    /// Bytes of L2 set aside for persisting lines.
    PersistingL2CacheSize,
}

/// The driver's number for a limit.
pub open spec fn limit_number(limit: ContextLimit) -> u32 {
    match limit {
        ContextLimit::StackSize => 0,
        ContextLimit::PrintfFifoSize => 1,
        ContextLimit::MallocHeapSize => 2,
        ContextLimit::DevRuntimeSyncDepth => 3,
        ContextLimit::DevRuntimePendingLaunchCount => 4,
        ContextLimit::MaxL2FetchGranularity => 5,
        ContextLimit::PersistingL2CacheSize => 6,
    }
}

impl ContextLimit {
    pub fn to_raw(self) -> (r: u32)
        ensures
            r == limit_number(self),
    {
        match self {
            ContextLimit::StackSize => 0,
            ContextLimit::PrintfFifoSize => 1,
            ContextLimit::MallocHeapSize => 2,
            ContextLimit::DevRuntimeSyncDepth => 3,
            ContextLimit::DevRuntimePendingLaunchCount => 4,
            ContextLimit::MaxL2FetchGranularity => 5,
            ContextLimit::PersistingL2CacheSize => 6,
        }
    }
}

/// No two limits have the same number.
pub proof fn limits_have_numbers_of_their_own(a: ContextLimit, b: ContextLimit)
    ensures
        limit_number(a) == limit_number(b) <==> a == b,
{
}

// Scheduling.

/// How the driver waits when the calling thread blocks on work of the device.
#[derive(Clone, Copy, Debug, PartialEq, Eq, Structural)]
pub enum SyncPolicy {
    /// The driver's own choice.
    Auto,
    /// Spin: lowest latency, highest use of the processor.
    Spin,
    /// Yield the thread's timeslice.
    Yield,
    /// Block the thread: lowest use of the processor, highest latency.
    BlockingSync,
}

/// The bits of a context's flags that hold the scheduling policy.
pub const SCHED_MASK: u32 = 7;

/// The bits of a policy.
pub open spec fn policy_bits(policy: SyncPolicy) -> u32 {
    match policy {
        SyncPolicy::Auto => 0,
        SyncPolicy::Spin => 1,
        SyncPolicy::Yield => 2,
        SyncPolicy::BlockingSync => 4,
    }
}

/// The policy that flags hold; none where they hold bits without a meaning.
pub open spec fn policy_of(flags: u32) -> Option<SyncPolicy> {
    let bits = flags & SCHED_MASK;
    if bits == 0 {
        Some(SyncPolicy::Auto)
    } else if bits == 1 {
        Some(SyncPolicy::Spin)
    } else if bits == 2 {
        Some(SyncPolicy::Yield)
    } else if bits == 4 {
        Some(SyncPolicy::BlockingSync)
    } else {
        None
    }
}

/// Flags with another policy.
pub open spec fn with_policy(flags: u32, policy: SyncPolicy) -> u32 {
    (flags & !SCHED_MASK) | policy_bits(policy)
}

impl SyncPolicy {
    pub fn to_raw(self) -> (r: u32)
        ensures
            r == policy_bits(self),
    {
        match self {
            SyncPolicy::Auto => 0,
            SyncPolicy::Spin => 1,
            SyncPolicy::Yield => 2,
            SyncPolicy::BlockingSync => 4,
        }
    }

    pub fn from_raw(raw: u32) -> (r: Option<SyncPolicy>)
        ensures
            r == policy_of(raw),
    {
        let bits = raw & SCHED_MASK;
        if bits == 0 {
            Some(SyncPolicy::Auto)
        } else if bits == 1 {
            Some(SyncPolicy::Spin)
        } else if bits == 2 {
            Some(SyncPolicy::Yield)
        } else if bits == 4 {
            Some(SyncPolicy::BlockingSync)
        } else {
            None
        }
    }
}

/// Setting a policy replaces the scheduling bits and no others: the policy reads back, and all other
/// flags stay.
pub proof fn policy_reads_back(flags: u32, policy: SyncPolicy)
    ensures
        policy_of(with_policy(flags, policy)) == Some(policy),
        with_policy(flags, policy) & !SCHED_MASK == flags & !SCHED_MASK,
{
    let bits = policy_bits(policy);
    assert(((flags & !7u32) | bits) & 7u32 == bits) by (bit_vector)
        requires
            bits == 0 || bits == 1 || bits == 2 || bits == 4,
    ;
    assert(((flags & !7u32) | bits) & !7u32 == flags & !7u32) by (bit_vector)
        requires
            bits == 0 || bits == 1 || bits == 2 || bits == 4,
    ;
}

// The context.

/// A device's primary context, and what is kept with it.
#[derive(Clone, Copy, Debug)]
pub struct CudaContext {
    pub cu_device: i32,
    pub cu_ctx: u64,
    pub ordinal: usize,
    /// How many streams of this context there are.
    pub num_streams: usize,
    /// Whether the context is synchronized before its first stream is made.
    pub event_tracking: bool,
    /// The code of an error that is still to be reported, or zero.
    pub error_state: u32,
}

/// Attributes of a device.
pub const MAX_THREADS_PER_BLOCK: u32 = 1;

pub const MAX_BLOCK_DIM_X: u32 = 2;

pub const MAX_BLOCK_DIM_Y: u32 = 3;

pub const MAX_BLOCK_DIM_Z: u32 = 4;

pub const MAX_GRID_DIM_X: u32 = 5;

pub const MAX_GRID_DIM_Y: u32 = 6;

pub const MAX_GRID_DIM_Z: u32 = 7;

pub const MAX_SHARED_MEMORY_PER_BLOCK: u32 = 8;

pub const CLOCK_RATE: u32 = 13;

pub const MULTIPROCESSOR_COUNT: u32 = 16;

pub const MAX_THREADS_PER_MULTIPROCESSOR: u32 = 39;

pub const COMPUTE_CAPABILITY_MAJOR: u32 = 75;

pub const COMPUTE_CAPABILITY_MINOR: u32 = 76;

pub const COOPERATIVE_LAUNCH: u32 = 95;

pub const MAX_SHARED_MEMORY_PER_BLOCK_OPTIN: u32 = 97;

pub const CLUSTER_LAUNCH: u32 = 120;

/// Flag of a stream that does not wait for the default stream.
pub const STREAM_NON_BLOCKING: u32 = 1;

/// What a device can launch at most.
#[derive(Clone, Copy, Debug, PartialEq, Eq, Structural)]
pub struct DeviceLaunchLimits {
    pub max_threads_per_block: u32,
    pub max_block_dim: driver::Dim3,
    pub max_grid_dim: driver::Dim3,
    pub max_shared_memory_per_block: u32,
}

/// The context with nothing left to report.
pub open spec fn reported(c: CudaContext) -> CudaContext {
    CudaContext { error_state: 0, ..c }
}

/// What an operation on a context leaves of it, whether it succeeds or not, and what it gives.
pub type Step<T> = (CudaContext, Run<T>);

/// Whether what a method returned and left behind is what it should be.
pub open spec fn agrees<T>(
    r: Result<T, Halt>,
    after: CudaContext,
    left: List<Reply>,
    expected: Step<T>,
) -> bool {
    after == expected.0 && driver::follows(r, left, expected.1)
}

/// The context made current: an error that is still to be reported comes first; the driver is asked
/// to change the current context only where it is another one.
pub open spec fn bound(tape: List<Reply>, c: CudaContext) -> Step<()> {
    (
        reported(c),
        if c.error_state != 0 {
            Err(Halt::Failed(DriverError(c.error_state)))
        } else {
            match driver::handle(tape, Call::CtxGetCurrent) {
                Err(halt) => Err(halt),
                Ok((tape, current)) => if current == 0 || current != c.cu_ctx {
                    driver::done(tape, Call::CtxSetCurrent(c.cu_ctx))
                } else {
                    Ok((tape, ()))
                },
            }
        },
    )
}

/// An attribute of the device; a negative one is out of range.
pub open spec fn attribute(tape: List<Reply>, c: CudaContext, attribute: u32) -> Step<u32> {
    let (c, current) = bound(tape, c);
    (
        c,
        match current {
            Err(halt) => Err(halt),
            Ok((tape, _)) => match driver::number(
                tape,
                Call::DeviceGetAttribute { device: c.cu_device, attribute },
            ) {
                Err(halt) => Err(halt),
                Ok((tape, value)) => if value < 0 {
                    Err(Halt::Failed(DriverError(INVALID_VALUE)))
                } else {
                    Ok((tape, value as u32))
                },
            },
        },
    )
}

/// All work of the context done.
pub open spec fn synchronized(tape: List<Reply>, c: CudaContext) -> Step<()> {
    let (c, current) = bound(tape, c);
    (
        c,
        match current {
            Err(halt) => Err(halt),
            Ok((tape, _)) => driver::done(tape, Call::CtxSynchronize),
        },
    )
}

/// A new stream: before the first one the context is synchronized, where its events are tracked. A
/// priority is handed on as it is. A stream counts once it is made.
pub open spec fn stream_made(
    tape: List<Reply>,
    c: CudaContext,
    priority: Option<i32>,
) -> Step<u64> {
    let (c, current) = bound(tape, c);
    match current {
        Err(halt) => (c, Err(halt)),
        Ok((tape, _)) => {
            let (c, ready) = if c.num_streams == 0 && c.event_tracking {
                synchronized(tape, c)
            } else {
                (c, Ok((tape, ())))
            };
            match ready {
                Err(halt) => (c, Err(halt)),
                Ok((tape, _)) => match driver::handle(
                    tape,
                    match priority {
                        Some(priority) => Call::StreamCreateWithPriority {
                            flags: STREAM_NON_BLOCKING,
                            priority,
                        },
                        None => Call::StreamCreate { flags: STREAM_NON_BLOCKING },
                    },
                ) {
                    Err(halt) => (c, Err(halt)),
                    Ok((tape, stream)) => (
                        CudaContext { num_streams: counted(c.num_streams), ..c },
                        Ok((tape, stream)),
                    ),
                },
            }
        },
    }
}

/// The number after a number, in the arithmetic of `usize`.
pub open spec fn counted(count: usize) -> usize {
    if count == usize::MAX {
        0
    } else {
        (count + 1) as usize
    }
}

/// The priorities that the device knows.
pub open spec fn priority_range(tape: List<Reply>, c: CudaContext) -> Step<(i32, i32)> {
    let (c, current) = bound(tape, c);
    (
        c,
        match current {
            Err(halt) => Err(halt),
            Ok((tape, _)) => driver::pair(tape, Call::StreamPriorityRange),
        },
    )
}

/// Bytes up to the first zero.
pub open spec fn until_zero(bytes: List<u8>) -> Seq<u8>
    decreases bytes,
{
    match bytes {
        List::Nil => Seq::empty(),
        List::Cons(byte, rest) => if *byte == 0 {
            Seq::empty()
        } else {
            seq![*byte] + until_zero(*rest)
        },
    }
}

fn take_until_zero(bytes: &List<u8>, out: &mut Vec<u8>)
    ensures
        final(out)@ == old(out)@ + until_zero(*bytes),
    decreases bytes,
{
    match bytes {
        List::Nil => {
            assert(out@ =~= out@ + Seq::<u8>::empty());
        },
        List::Cons(byte, rest) => {
            if **byte == 0 {
                assert(out@ =~= out@ + Seq::<u8>::empty());
                return ;
            }
            out.push(**byte);
            take_until_zero(rest, out);
            assert(out@ =~= old(out)@ + until_zero(*bytes));
        },
    }
}

/// The text that bytes read as in UTF-8, with a mark for each part that does not.
pub uninterp spec fn lossy_text(bytes: Seq<u8>) -> Seq<char>;

/// Calls `String::from_utf8_lossy` and takes the text over as a `String`. Which text that is, is
/// left to the name of the result.
#[verifier::external_body]
fn decode_lossy(bytes: &Vec<u8>) -> (r: String)
    ensures
        r@ == lossy_text(bytes@),
{
    String::from_utf8_lossy(bytes).into_owned()
}

/// The name that a device's name buffer holds.
pub fn decode_device_name(buffer: &List<u8>) -> (r: String)
    ensures
        r@ == lossy_text(until_zero(*buffer)),
{
    let mut bytes: Vec<u8> = Vec::new();
    take_until_zero(buffer, &mut bytes);
    assert(bytes@ =~= until_zero(*buffer));
    decode_lossy(&bytes)
}

/// The name of the device as the driver writes it.
pub open spec fn name_buffer(tape: List<Reply>, c: CudaContext) -> Step<List<u8>> {
    let (c, current) = bound(tape, c);
    (
        c,
        match current {
            Err(halt) => Err(halt),
            Ok((tape, _)) => driver::bytes(tape, Call::DeviceGetName(c.cu_device)),
        },
    )
}

/// The compute capability of the device.
pub open spec fn capability(tape: List<Reply>, c: CudaContext) -> Step<(i32, i32)> {
    let (c, current) = bound(tape, c);
    (
        c,
        match current {
            Err(halt) => Err(halt),
            Ok((tape, _)) => match driver::number(
                tape,
                Call::DeviceGetAttribute {
                    device: c.cu_device,
                    attribute: COMPUTE_CAPABILITY_MAJOR,
                },
            ) {
                Err(halt) => Err(halt),
                Ok((tape, major)) => match driver::number(
                    tape,
                    Call::DeviceGetAttribute {
                        device: c.cu_device,
                        attribute: COMPUTE_CAPABILITY_MINOR,
                    },
                ) {
                    Err(halt) => Err(halt),
                    Ok((tape, minor)) => Ok((tape, (major, minor))),
                },
            },
        },
    )
}

/// Three attributes in a row.
pub open spec fn dim_limit(
    tape: List<Reply>,
    c: CudaContext,
    x: u32,
    y: u32,
    z: u32,
) -> Step<driver::Dim3> {
    let (c, first) = attribute(tape, c, x);
    match first {
        Err(halt) => (c, Err(halt)),
        Ok((tape, x)) => {
            let (c, second) = attribute(tape, c, y);
            match second {
                Err(halt) => (c, Err(halt)),
                Ok((tape, y)) => {
                    let (c, third) = attribute(tape, c, z);
                    (
                        c,
                        match third {
                            Err(halt) => Err(halt),
                            Ok((tape, z)) => Ok((tape, driver::Dim3 { x, y, z })),
                        },
                    )
                },
            }
        },
    }
}

/// What the device can launch at most.
pub open spec fn launch_limits_of(tape: List<Reply>, c: CudaContext) -> Step<DeviceLaunchLimits> {
    let (c, threads) = attribute(tape, c, MAX_THREADS_PER_BLOCK);
    match threads {
        Err(halt) => (c, Err(halt)),
        Ok((tape, max_threads_per_block)) => {
            let (c, block) = dim_limit(
                tape,
                c,
                MAX_BLOCK_DIM_X,
                MAX_BLOCK_DIM_Y,
                MAX_BLOCK_DIM_Z,
            );
            match block {
                Err(halt) => (c, Err(halt)),
                Ok((tape, max_block_dim)) => {
                    let (c, grid) = dim_limit(
                        tape,
                        c,
                        MAX_GRID_DIM_X,
                        MAX_GRID_DIM_Y,
                        MAX_GRID_DIM_Z,
                    );
                    match grid {
                        Err(halt) => (c, Err(halt)),
                        Ok((tape, max_grid_dim)) => {
                            let (c, shared) = attribute(tape, c, MAX_SHARED_MEMORY_PER_BLOCK);
                            (
                                c,
                                match shared {
                                    Err(halt) => Err(halt),
                                    Ok((tape, max_shared_memory_per_block)) => Ok(
                                        (
                                            tape,
                                            DeviceLaunchLimits {
                                                max_threads_per_block,
                                                max_block_dim,
                                                max_grid_dim,
                                                max_shared_memory_per_block,
                                            },
                                        ),
                                    ),
                                },
                            )
                        },
                    }
                },
            }
        },
    }
}

/// Whether an attribute is set.
pub open spec fn attribute_set(tape: List<Reply>, c: CudaContext, number: u32) -> Step<bool> {
    let (c, value) = attribute(tape, c, number);
    (
        c,
        match value {
            Err(halt) => Err(halt),
            Ok((tape, value)) => Ok((tape, value != 0)),
        },
    )
}

/// A limit of the context.
pub open spec fn limit_read(tape: List<Reply>, c: CudaContext, limit: ContextLimit) -> Step<usize> {
    let (c, current) = bound(tape, c);
    (
        c,
        match current {
            Err(halt) => Err(halt),
            Ok((tape, _)) => driver::size(tape, Call::CtxGetLimit(limit_number(limit))),
        },
    )
}

/// A limit of the context set.
pub open spec fn limit_set(
    tape: List<Reply>,
    c: CudaContext,
    limit: ContextLimit,
    value: usize,
) -> Step<()> {
    let (c, current) = bound(tape, c);
    (
        c,
        match current {
            Err(halt) => Err(halt),
            Ok((tape, _)) => driver::done(
                tape,
                Call::CtxSetLimit { limit: limit_number(limit), value },
            ),
        },
    )
}

/// The flags of the context.
pub open spec fn flags_read(tape: List<Reply>, c: CudaContext) -> Step<u32> {
    let (c, current) = bound(tape, c);
    (
        c,
        match current {
            Err(halt) => Err(halt),
            Ok((tape, _)) => driver::flags(tape, Call::PrimaryCtxGetState(c.cu_device)),
        },
    )
}

/// The scheduling policy set: all other flags are written back as they were read.
pub open spec fn policy_set(tape: List<Reply>, c: CudaContext, policy: SyncPolicy) -> Step<()> {
    let (c, flags) = flags_read(tape, c);
    (
        c,
        match flags {
            Err(halt) => Err(halt),
            Ok((tape, flags)) => driver::done(
                tape,
                Call::PrimaryCtxSetFlags { device: c.cu_device, flags: with_policy(flags, policy) },
            ),
        },
    )
}

/// The scheduling policy, where it is one that has a name.
pub open spec fn policy_read(tape: List<Reply>, c: CudaContext) -> Step<Option<SyncPolicy>> {
    let (c, flags) = flags_read(tape, c);
    (
        c,
        match flags {
            Err(halt) => Err(halt),
            Ok((tape, flags)) => Ok((tape, policy_of(flags))),
        },
    )
}

/// The context with the error of a call kept, where the call failed.
pub open spec fn keeping(c: CudaContext, code: u32) -> CudaContext {
    if code == 0 {
        c
    } else {
        CudaContext { error_state: code, ..c }
    }
}

/// The context made current, with an error kept and not reported.
pub open spec fn bound_keeping(tape: List<Reply>, c: CudaContext) -> Step<()> {
    if c.error_state != 0 {
        (c, Ok((tape, ())))
    } else {
        match driver::answered(tape, Call::CtxGetCurrent) {
            Err(halt) => (c, Err(halt)),
            Ok((tape, (code, output))) => if code != 0 {
                (keeping(c, code), Ok((tape, ())))
            } else {
                match output {
                    driver::Output::Handle(current) => if current == 0 || current != c.cu_ctx {
                        match driver::answered(tape, Call::CtxSetCurrent(c.cu_ctx)) {
                            Err(halt) => (c, Err(halt)),
                            Ok((tape, (code, _))) => (keeping(c, code), Ok((tape, ()))),
                        }
                    } else {
                        (c, Ok((tape, ())))
                    },
                    _ => (c, Err(Halt::OutOfStep)),
                }
            },
        }
    }
}

/// A stream destroyed that counts no more; the default stream is none of those that count. Errors
/// are kept and not reported.
pub open spec fn stream_dropped(tape: List<Reply>, c: CudaContext, stream: u64) -> Step<()> {
    let (c, current) = bound_keeping(tape, c);
    match current {
        Err(halt) => (c, Err(halt)),
        Ok((tape, _)) => if stream == 0 {
            (c, Ok((tape, ())))
        } else {
            match driver::answered(tape, Call::StreamDestroy(stream)) {
                Err(halt) => (c, Err(halt)),
                Ok((tape, (code, _))) => (
                    keeping(CudaContext { num_streams: uncounted(c.num_streams), ..c }, code),
                    Ok((tape, ())),
                ),
            }
        },
    }
}

/// The number before a number; there are never fewer than none.
pub open spec fn uncounted(count: usize) -> usize {
    if count == 0 {
        0
    } else {
        (count - 1) as usize
    }
}

/// The number of streams is the number of those that were made and not dropped: it rises with a
/// stream that is made, stays where none can be made, and falls when the stream is dropped.
pub proof fn streams_are_counted(
    tape: List<Reply>,
    later: List<Reply>,
    c: CudaContext,
    priority: Option<i32>,
)
    requires
        c.num_streams < usize::MAX,
    ensures
        ({
            let (after, made) = stream_made(tape, c, priority);
            match made {
                Err(_) => after.num_streams == c.num_streams,
                Ok((_, stream)) => {
                    &&& after.num_streams == c.num_streams + 1
                    &&& stream != 0 && stream_dropped(later, after, stream).1 is Ok
                        ==> stream_dropped(later, after, stream).0.num_streams == c.num_streams
                },
            }
        }),
{
}

/// The context released, once.
pub open spec fn released(tape: List<Reply>, c: CudaContext) -> Step<()> {
    let (c, current) = bound_keeping(tape, c);
    match current {
        Err(halt) => (c, Err(halt)),
        Ok((tape, _)) => if c.cu_ctx == 0 {
            (c, Ok((tape, ())))
        } else {
            match driver::answered(tape, Call::PrimaryCtxRelease(c.cu_device)) {
                Err(halt) => (c, Err(halt)),
                Ok((tape, (code, _))) => (
                    keeping(CudaContext { cu_ctx: 0, ..c }, code),
                    Ok((tape, ())),
                ),
            }
        },
    }
}

/// A context that is released holds no handle any more, so a second release does not call the
/// driver to release it again.
pub proof fn release_happens_once(tape: List<Reply>, later: List<Reply>, c: CudaContext)
    requires
        released(tape, c).1 is Ok,
    ensures
        released(tape, c).0.cu_ctx == 0,
        released(later, released(tape, c).0) == bound_keeping(later, released(tape, c).0),
{
}

/// A new context for a device. Where it cannot be made current, it is released before the error is
/// handed on.
pub open spec fn context_made(tape: List<Reply>, ordinal: usize) -> Run<CudaContext> {
    match driver::done(tape, Call::Init(0)) {
        Err(halt) => Err(halt),
        Ok((tape, _)) => match driver::number(tape, Call::DeviceGet(ordinal as i32)) {
            Err(halt) => Err(halt),
            Ok((tape, cu_device)) => match driver::handle(
                tape,
                Call::PrimaryCtxRetain(cu_device),
            ) {
                Err(halt) => Err(halt),
                Ok((tape, cu_ctx)) => context_bound(tape, new_context(cu_device, cu_ctx, ordinal)),
            },
        },
    }
}

/// A new context made current, or released where that fails.
pub open spec fn context_bound(tape: List<Reply>, c: CudaContext) -> Run<CudaContext> {
    let (kept, current) = bound_keeping(tape, c);
    match current {
        Err(halt) => Err(halt),
        Ok((tape, _)) => if kept.error_state == 0 {
            Ok((tape, c))
        } else {
            match released(tape, c).1 {
                Err(halt) => Err(halt),
                Ok(_) => Err(Halt::Failed(DriverError(kept.error_state))),
            }
        },
    }
}

/// A new context that cannot be made current fails with the code of that, and not before it is
/// released: as long as the replies do not reach to the end of its release, the driver is called.
pub proof fn unbound_context_is_released(tape: List<Reply>, c: CudaContext)
    requires
        c.error_state == 0,
        c.cu_ctx != 0,
        bound_keeping(tape, c).1 is Ok,
        bound_keeping(tape, c).0.error_state != 0,
    ensures
        ({
            let code = bound_keeping(tape, c).0.error_state;
            let (after, end) = released(bound_keeping(tape, c).1->Ok_0.0, c);
            match context_bound(tape, c) {
                Ok(_) => false,
                Err(Halt::Failed(error)) => error.0 == code && end is Ok && after.cu_ctx == 0,
                Err(halt) => end == Err::<(List<Reply>, ()), Halt>(halt),
            }
        }),
{
}

/// A context without streams or errors.
pub open spec fn new_context(cu_device: i32, cu_ctx: u64, ordinal: usize) -> CudaContext {
    CudaContext { cu_device, cu_ctx, ordinal, num_streams: 0, event_tracking: true, error_state: 0 }
}

impl CudaContext {
    /// Creates a context for the device at `ordinal`; one that cannot be made current is released
    /// again.
    pub fn new(driver: &mut Driver, ordinal: usize) -> (r: Result<CudaContext, Halt>)
        ensures
            driver::follows(r, final(driver).left, context_made(old(driver).left, ordinal)),
    {
        driver.call_for_nothing(Call::Init(0))?;
        let cu_device = driver.call_for_number(Call::DeviceGet(ordinal as i32))?;
        let cu_ctx = driver.call_for_handle(Call::PrimaryCtxRetain(cu_device))?;
        let mut context = CudaContext {
            cu_device,
            cu_ctx,
            ordinal,
            num_streams: 0,
            event_tracking: true,
            error_state: 0,
        };
        context.bind_keeping(driver)?;
        let code = context.error_state;
        if code != 0 {
            context.error_state = 0;
            context.release(driver)?;
            return Err(Halt::Failed(DriverError(code)));
        }
        Ok(context)
    }

    pub fn ordinal(&self) -> (r: usize)
        ensures
            r == self.ordinal,
    {
        self.ordinal
    }

    pub fn cu_device(&self) -> (r: i32)
        ensures
            r == self.cu_device,
    {
        self.cu_device
    }

    pub fn cu_ctx(&self) -> (r: u64)
        ensures
            r == self.cu_ctx,
    {
        self.cu_ctx
    }

    /// The handle of the default stream.
    pub fn default_stream(&self) -> (r: u64)
        ensures
            r == 0,
    {
        0
    }

    /// Reads and clears the error that is still to be reported.
    pub fn check_err(&mut self) -> (r: Result<(), DriverError>)
        ensures
            *final(self) == reported(*old(self)),
            r == (if old(self).error_state == 0 {
                Ok::<(), DriverError>(())
            } else {
                Err(DriverError(old(self).error_state))
            }),
    {
        let error_state = self.error_state;
        self.error_state = 0;
        if error_state == 0 {
            Ok(())
        } else {
            Err(DriverError(error_state))
        }
    }

    /// Keeps an error to be reported later; a later error takes the place of an earlier one.
    pub fn record_err<T>(&mut self, result: Result<T, DriverError>)
        ensures
            *final(self) == (match result {
                Ok(_) => *old(self),
                Err(error) => CudaContext { error_state: error.0, ..*old(self) },
            }),
    {
        if let Err(error) = result {
            self.error_state = error.0;
        }
    }

    /// Makes this context current, unless it is.
    pub fn bind_to_thread(&mut self, driver: &mut Driver) -> (r: Result<(), Halt>)
        ensures
            agrees(r, *final(self), final(driver).left, bound(old(driver).left, *old(self))),
    {
        if let Err(error) = self.check_err() {
            return Err(Halt::Failed(error));
        }
        let current = driver.call_for_handle(Call::CtxGetCurrent)?;
        if current == 0 || current != self.cu_ctx {
            driver.call_for_nothing(Call::CtxSetCurrent(self.cu_ctx))?;
        }
        Ok(())
    }

    fn keep(&mut self, code: u32)
        ensures
            *final(self) == keeping(*old(self), code),
    {
        if code != 0 {
            self.error_state = code;
        }
    }

    fn bind_keeping(&mut self, driver: &mut Driver) -> (r: Result<(), Halt>)
        ensures
            agrees(
                r,
                *final(self),
                final(driver).left,
                bound_keeping(old(driver).left, *old(self)),
            ),
    {
        if self.error_state != 0 {
            return Ok(());
        }
        let (code, output) = driver.try_call(Call::CtxGetCurrent)?;
        if code != 0 {
            self.keep(code);
            return Ok(());
        }
        let current = match output {
            driver::Output::Handle(current) => current,
            _ => return Err(Halt::OutOfStep),
        };
        if current == 0 || current != self.cu_ctx {
            let (code, _) = driver.try_call(Call::CtxSetCurrent(self.cu_ctx))?;
            self.keep(code);
        }
        Ok(())
    }

    /// Releases the context; errors are kept and not reported.
    pub fn release(&mut self, driver: &mut Driver) -> (r: Result<(), Halt>)
        ensures
            agrees(r, *final(self), final(driver).left, released(old(driver).left, *old(self))),
    {
        self.bind_keeping(driver)?;
        if self.cu_ctx != 0 {
            let (code, _) = driver.try_call(Call::PrimaryCtxRelease(self.cu_device))?;
            self.cu_ctx = 0;
            self.keep(code);
        }
        Ok(())
    }

    /// Waits until all work of this context is done.
    pub fn synchronize(&mut self, driver: &mut Driver) -> (r: Result<(), Halt>)
        ensures
            agrees(r, *final(self), final(driver).left, synchronized(old(driver).left, *old(self))),
    {
        self.bind_to_thread(driver)?;
        driver.call_for_nothing(Call::CtxSynchronize)
    }

    fn device_attribute(&mut self, driver: &mut Driver, number: u32) -> (r: Result<u32, Halt>)
        ensures
            agrees(
                r,
                *final(self),
                final(driver).left,
                attribute(old(driver).left, *old(self), number),
            ),
    {
        self.bind_to_thread(driver)?;
        let value = driver.call_for_number(
            Call::DeviceGetAttribute { device: self.cu_device, attribute: number },
        )?;
        if value < 0 {
            Err(Halt::Failed(DriverError(INVALID_VALUE)))
        } else {
            Ok(value as u32)
        }
    }

    /// Creates a stream that does not wait for the default stream.
    pub fn new_stream(&mut self, driver: &mut Driver) -> (r: Result<u64, Halt>)
        ensures
            agrees(
                r,
                *final(self),
                final(driver).left,
                stream_made(old(driver).left, *old(self), None),
            ),
    {
        self.create_stream(driver, None)
    }

    /// Creates a stream of a priority.
    pub fn new_stream_with_priority(
        &mut self,
        driver: &mut Driver,
        priority: i32,
    ) -> (r: Result<u64, Halt>)
        ensures
            agrees(
                r,
                *final(self),
                final(driver).left,
                stream_made(old(driver).left, *old(self), Some(priority)),
            ),
    {
        self.create_stream(driver, Some(priority))
    }

    fn create_stream(
        &mut self,
        driver: &mut Driver,
        priority: Option<i32>,
    ) -> (r: Result<u64, Halt>)
        ensures
            agrees(
                r,
                *final(self),
                final(driver).left,
                stream_made(old(driver).left, *old(self), priority),
            ),
    {
        self.bind_to_thread(driver)?;
        if self.num_streams == 0 && self.event_tracking {
            self.synchronize(driver)?;
        }
        let flags = STREAM_NON_BLOCKING;
        let stream = match priority {
            Some(priority) => driver.call_for_handle(
                Call::StreamCreateWithPriority { flags, priority },
            )?,
            None => driver.call_for_handle(Call::StreamCreate { flags })?,
        };
        self.num_streams = if self.num_streams == usize::MAX {
            0
        } else {
            self.num_streams + 1
        };
        Ok(stream)
    }

    /// Destroys a stream of this context; errors are kept and not reported.
    pub fn drop_stream(&mut self, driver: &mut Driver, stream: u64) -> (r: Result<(), Halt>)
        ensures
            agrees(
                r,
                *final(self),
                final(driver).left,
                stream_dropped(old(driver).left, *old(self), stream),
            ),
    {
        self.bind_keeping(driver)?;
        if stream != 0 {
            let (code, _) = driver.try_call(Call::StreamDestroy(stream))?;
            self.num_streams = if self.num_streams == 0 {
                0
            } else {
                self.num_streams - 1
            };
            self.keep(code);
        }
        Ok(())
    }

    /// The device's meaningful stream priorities.
    pub fn stream_priority_range(
        &mut self,
        driver: &mut Driver,
    ) -> (r: Result<StreamPriorityRange, Halt>)
        ensures
            *final(self) == priority_range(old(driver).left, *old(self)).0,
            match priority_range(old(driver).left, *old(self)).1 {
                Ok((left, (least, greatest))) => {
                    &&& final(driver).left == left
                    &&& r matches Ok(range) && range.lowest() == least && range.highest() == greatest
                },
                Err(halt) => r == Err::<StreamPriorityRange, Halt>(halt),
            },
    {
        self.bind_to_thread(driver)?;
        let (least, greatest) = driver.call_for_pair(Call::StreamPriorityRange)?;
        Ok(StreamPriorityRange::new(least, greatest))
    }

    /// The name of the device.
    pub fn device_name(&mut self, driver: &mut Driver) -> (r: Result<String, Halt>)
        ensures
            *final(self) == name_buffer(old(driver).left, *old(self)).0,
            match name_buffer(old(driver).left, *old(self)).1 {
                Ok((left, buffer)) => {
                    &&& final(driver).left == left
                    &&& r matches Ok(name) && name@ == lossy_text(until_zero(buffer))
                },
                Err(halt) => r == Err::<String, Halt>(halt),
            },
    {
        self.bind_to_thread(driver)?;
        let buffer = driver.call_for_bytes(Call::DeviceGetName(self.cu_device))?;
        Ok(decode_device_name(&buffer))
    }

    /// The compute capability of the device.
    pub fn compute_capability(&mut self, driver: &mut Driver) -> (r: Result<(i32, i32), Halt>)
        ensures
            agrees(r, *final(self), final(driver).left, capability(old(driver).left, *old(self))),
    {
        self.bind_to_thread(driver)?;
        let major = driver.call_for_number(
            Call::DeviceGetAttribute {
                device: self.cu_device,
                attribute: COMPUTE_CAPABILITY_MAJOR,
            },
        )?;
        let minor = driver.call_for_number(
            Call::DeviceGetAttribute {
                device: self.cu_device,
                attribute: COMPUTE_CAPABILITY_MINOR,
            },
        )?;
        Ok((major, minor))
    }

    fn dim_attributes(
        &mut self,
        driver: &mut Driver,
        x: u32,
        y: u32,
        z: u32,
    ) -> (r: Result<driver::Dim3, Halt>)
        ensures
            agrees(
                r,
                *final(self),
                final(driver).left,
                dim_limit(old(driver).left, *old(self), x, y, z),
            ),
    {
        let x = self.device_attribute(driver, x)?;
        let y = self.device_attribute(driver, y)?;
        let z = self.device_attribute(driver, z)?;
        Ok(driver::Dim3 { x, y, z })
    }

    /// What the device can launch at most.
    pub fn launch_limits(&mut self, driver: &mut Driver) -> (r: Result<DeviceLaunchLimits, Halt>)
        ensures
            agrees(
                r,
                *final(self),
                final(driver).left,
                launch_limits_of(old(driver).left, *old(self)),
            ),
    {
        let max_threads_per_block = self.device_attribute(driver, MAX_THREADS_PER_BLOCK)?;
        let max_block_dim = self.dim_attributes(
            driver,
            MAX_BLOCK_DIM_X,
            MAX_BLOCK_DIM_Y,
            MAX_BLOCK_DIM_Z,
        )?;
        let max_grid_dim = self.dim_attributes(
            driver,
            MAX_GRID_DIM_X,
            MAX_GRID_DIM_Y,
            MAX_GRID_DIM_Z,
        )?;
        let max_shared_memory_per_block = self.device_attribute(
            driver,
            MAX_SHARED_MEMORY_PER_BLOCK,
        )?;
        Ok(
            DeviceLaunchLimits {
                max_threads_per_block,
                max_block_dim,
                max_grid_dim,
                max_shared_memory_per_block,
            },
        )
    }

    /// The shared memory that a block can have at most, where it asks for more than is portable.
    pub fn max_opt_in_shared_memory_per_block(
        &mut self,
        driver: &mut Driver,
    ) -> (r: Result<u32, Halt>)
        ensures
            agrees(
                r,
                *final(self),
                final(driver).left,
                attribute(old(driver).left, *old(self), MAX_SHARED_MEMORY_PER_BLOCK_OPTIN),
            ),
    {
        self.device_attribute(driver, MAX_SHARED_MEMORY_PER_BLOCK_OPTIN)
    }

    /// Whether the device supports cooperative launches.
    pub fn supports_cooperative_launch(&mut self, driver: &mut Driver) -> (r: Result<bool, Halt>)
        ensures
            agrees(
                r,
                *final(self),
                final(driver).left,
                attribute_set(old(driver).left, *old(self), COOPERATIVE_LAUNCH),
            ),
    {
        let value = self.device_attribute(driver, COOPERATIVE_LAUNCH)?;
        Ok(value != 0)
    }

    /// Whether the device supports launches of clusters.
    pub fn supports_cluster_launch(&mut self, driver: &mut Driver) -> (r: Result<bool, Halt>)
        ensures
            agrees(
                r,
                *final(self),
                final(driver).left,
                attribute_set(old(driver).left, *old(self), CLUSTER_LAUNCH),
            ),
    {
        let value = self.device_attribute(driver, CLUSTER_LAUNCH)?;
        Ok(value != 0)
    }

    /// The number of multiprocessors.
    pub fn multiprocessor_count(&mut self, driver: &mut Driver) -> (r: Result<u32, Halt>)
        ensures
            agrees(
                r,
                *final(self),
                final(driver).left,
                attribute(old(driver).left, *old(self), MULTIPROCESSOR_COUNT),
            ),
    {
        self.device_attribute(driver, MULTIPROCESSOR_COUNT)
    }

    /// The number of threads that one multiprocessor holds at most.
    pub fn max_threads_per_multiprocessor(&mut self, driver: &mut Driver) -> (r: Result<u32, Halt>)
        ensures
            agrees(
                r,
                *final(self),
                final(driver).left,
                attribute(old(driver).left, *old(self), MAX_THREADS_PER_MULTIPROCESSOR),
            ),
    {
        self.device_attribute(driver, MAX_THREADS_PER_MULTIPROCESSOR)
    }

    /// Reads a limit.
    pub fn limit(&mut self, driver: &mut Driver, limit: ContextLimit) -> (r: Result<usize, Halt>)
        ensures
            agrees(
                r,
                *final(self),
                final(driver).left,
                limit_read(old(driver).left, *old(self), limit),
            ),
    {
        self.bind_to_thread(driver)?;
        driver.call_for_size(Call::CtxGetLimit(limit.to_raw()))
    }

    /// Writes a limit.
    pub fn set_limit(
        &mut self,
        driver: &mut Driver,
        limit: ContextLimit,
        value: usize,
    ) -> (r: Result<(), Halt>)
        ensures
            agrees(
                r,
                *final(self),
                final(driver).left,
                limit_set(old(driver).left, *old(self), limit, value),
            ),
    {
        self.bind_to_thread(driver)?;
        driver.call_for_nothing(Call::CtxSetLimit { limit: limit.to_raw(), value })
    }

    /// The stack size of a thread, in bytes.
    pub fn stack_size(&mut self, driver: &mut Driver) -> (r: Result<usize, Halt>)
        ensures
            agrees(
                r,
                *final(self),
                final(driver).left,
                limit_read(old(driver).left, *old(self), ContextLimit::StackSize),
            ),
    {
        self.limit(driver, ContextLimit::StackSize)
    }

    /// Sets the stack size of a thread, in bytes.
    pub fn set_stack_size(&mut self, driver: &mut Driver, bytes: usize) -> (r: Result<(), Halt>)
        ensures
            agrees(
                r,
                *final(self),
                final(driver).left,
                limit_set(old(driver).left, *old(self), ContextLimit::StackSize, bytes),
            ),
    {
        self.set_limit(driver, ContextLimit::StackSize, bytes)
    }

    fn read_flags(&mut self, driver: &mut Driver) -> (r: Result<u32, Halt>)
        ensures
            agrees(r, *final(self), final(driver).left, flags_read(old(driver).left, *old(self))),
    {
        self.bind_to_thread(driver)?;
        driver.call_for_flags(Call::PrimaryCtxGetState(self.cu_device))
    }

    /// Sets the scheduling policy.
    pub fn set_sync_policy(
        &mut self,
        driver: &mut Driver,
        policy: SyncPolicy,
    ) -> (r: Result<(), Halt>)
        ensures
            agrees(
                r,
                *final(self),
                final(driver).left,
                policy_set(old(driver).left, *old(self), policy),
            ),
    {
        let current = self.read_flags(driver)?;
        let flags = (current & !SCHED_MASK) | policy.to_raw();
        driver.call_for_nothing(Call::PrimaryCtxSetFlags { device: self.cu_device, flags })
    }

    /// The scheduling policy, where it is one that has a name.
    pub fn sync_policy(&mut self, driver: &mut Driver) -> (r: Result<Option<SyncPolicy>, Halt>)
        ensures
            agrees(r, *final(self), final(driver).left, policy_read(old(driver).left, *old(self))),
    {
        let flags = self.read_flags(driver)?;
        Ok(SyncPolicy::from_raw(flags))
    }
}

/// Whether two contexts are the same one of the same device, whatever is kept with them.
pub open spec fn same_context(a: CudaContext, b: CudaContext) -> bool {
    a.cu_device == b.cu_device && a.cu_ctx == b.cu_ctx && a.ordinal == b.ordinal
}

impl PartialEq for CudaContext {
    fn eq(&self, other: &CudaContext) -> (r: bool) {
        self.cu_device == other.cu_device && self.cu_ctx == other.cu_ctx && self.ordinal
            == other.ordinal
    }
}

impl vstd::std_specs::cmp::PartialEqSpecImpl for CudaContext {
    open spec fn obeys_eq_spec() -> bool {
        true
    }

    open spec fn eq_spec(&self, other: &CudaContext) -> bool {
        same_context(*self, *other)
    }
}

/// An error that is kept is reported by the next operation that makes the context current, without
/// a call of the driver, and not by the one after it.
pub proof fn kept_error_is_reported_once(tape: List<Reply>, later: List<Reply>, c: CudaContext)
    requires
        c.error_state != 0,
    ensures
        bound(tape, c).1 == Err::<(List<Reply>, ()), Halt>(Halt::Failed(DriverError(c.error_state))),
        bound(later, bound(tape, c).0) == bound(later, reported(c)),
        bound(tape, c).0.error_state == 0,
{
}

/// A policy that was set is the one that is read, where the driver gives back the flags that it was
/// handed.
pub proof fn set_policy_is_read(
    tape: List<Reply>,
    later: List<Reply>,
    c: CudaContext,
    policy: SyncPolicy,
)
    requires
        flags_read(tape, c).1 is Ok,
        flags_read(later, policy_set(tape, c, policy).0).1 matches Ok((_, flags)) && flags
            == with_policy(flags_read(tape, c).1->Ok_0.1, policy),
    ensures
        policy_read(later, policy_set(tape, c, policy).0).1->Ok_0.1 == Some(policy),
{
    policy_reads_back(flags_read(tape, c).1->Ok_0.1, policy);
}

// Names of architectures.

/// The name of the architecture with a compute capability.
pub open spec fn sm_text(major: int, minor: int) -> Seq<char> {
    "sm_"@ + render::signed_decimal(major) + render::signed_decimal(minor)
}

/// The name of the architecture of a device with this compute capability.
pub fn sm_name(major: i32, minor: i32) -> (r: String)
    ensures
        r@ == sm_text(major as int, minor as int),
{
    let mut text = "sm_".to_owned();
    write_signed(major as i64, &mut text);
    write_signed(minor as i64, &mut text);
    text
}

} // verus!
