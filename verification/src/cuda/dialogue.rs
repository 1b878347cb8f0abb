//! Which calls of the driver an operation makes, one after the other, and what it gives of their
//! replies.
use crate::cuda::api;
use crate::cuda::context::{self, ContextLimit, CudaContext, SyncPolicy};
use crate::cuda::driver::{self, Attribute, Call, DriverError, Halt, Output, Reply, Run};
use crate::cuda::launch::{
    self, AsyncKernelLaunch, LaunchAttributes, LaunchConfig, LaunchError,
};
use crate::list::{self, List};
use std::rc::Rc;
use vstd::prelude::*;

verus! {

/// A call that succeeds, and what is replied after it.
pub open spec fn ok(output: Output, rest: List<Reply>) -> List<Reply> {
    List::Cons(Rc::new(Reply { code: 0, output }), Rc::new(rest))
}

/// A call that fails, and what is replied after it.
pub open spec fn failed(code: u32, output: Output, rest: List<Reply>) -> List<Reply> {
    List::Cons(Rc::new(Reply { code, output }), Rc::new(rest))
}

/// No replies.
pub open spec fn end() -> List<Reply> {
    List::Nil
}

/// Whether an operation makes a call next.
pub open spec fn calls<T>(run: Run<T>, call: Call) -> bool {
    run == Err::<(List<Reply>, T), Halt>(Halt::Perform(call))
}

/// Whether an operation ended with a value, and left replies.
pub open spec fn ends<T>(run: Run<T>, rest: List<Reply>, value: T) -> bool {
    run == Ok::<(List<Reply>, T), Halt>((rest, value))
}

/// Whether an operation failed with a code.
pub open spec fn fails<T>(run: Run<T>, code: u32) -> bool {
    run == Err::<(List<Reply>, T), Halt>(Halt::Failed(DriverError(code)))
}

/// Whether a context can be used: it was not released, and no error of it is still to be reported.
pub open spec fn is_live(c: CudaContext) -> bool {
    c.error_state == 0 && c.cu_ctx != 0
}

/// The reply that the context is the current one, and what is replied after it.
pub open spec fn current(c: CudaContext, rest: List<Reply>) -> List<Reply> {
    ok(Output::Handle(c.cu_ctx), rest)
}

// Calls.

/// A call is made where there is no reply to it; the code of a failure is handed on, whatever was
/// written; and what a call wrote is handed on where it is of the sort that is waited for, and all
/// later replies are left.
pub proof fn replies_are_handed_on(
    call: Call,
    code: u32,
    output: Output,
    rest: List<Reply>,
    h: u64,
    n: i32,
    u: u32,
    z: usize,
    p: (i32, i32),
    b: List<u8>,
)
    requires
        code != 0,
    ensures
        calls(driver::done(end(), call), call),
        calls(driver::handle(end(), call), call),
        calls(driver::number(end(), call), call),
        calls(driver::flags(end(), call), call),
        calls(driver::size(end(), call), call),
        calls(driver::pair(end(), call), call),
        calls(driver::bytes(end(), call), call),
        calls(driver::answered(end(), call), call),
        fails(driver::done(failed(code, output, rest), call), code),
        fails(driver::handle(failed(code, output, rest), call), code),
        fails(driver::number(failed(code, output, rest), call), code),
        fails(driver::flags(failed(code, output, rest), call), code),
        fails(driver::size(failed(code, output, rest), call), code),
        fails(driver::pair(failed(code, output, rest), call), code),
        fails(driver::bytes(failed(code, output, rest), call), code),
        ends(driver::answered(failed(code, output, rest), call), rest, (code, output)),
        ends(driver::answered(ok(output, rest), call), rest, (0, output)),
        ends(driver::done(ok(Output::Nothing, rest), call), rest, ()),
        ends(driver::handle(ok(Output::Handle(h), rest), call), rest, h),
        ends(driver::number(ok(Output::Number(n), rest), call), rest, n),
        ends(driver::flags(ok(Output::Flags(u), rest), call), rest, u),
        ends(driver::size(ok(Output::Size(z), rest), call), rest, z),
        ends(driver::pair(ok(Output::Pair(p.0, p.1), rest), call), rest, p),
        ends(driver::bytes(ok(Output::Bytes(b), rest), call), rest, b),
{
}

// Contexts.

/// A context is made current only where another one is, or none; the driver is first asked which
/// one is.
pub proof fn context_is_made_current(c: CudaContext, other: u64, rest: List<Reply>)
    requires
        is_live(c),
        other != c.cu_ctx,
    ensures
        calls(context::bound(end(), c).1, Call::CtxGetCurrent),
        ends(context::bound(current(c, rest), c).1, rest, ()),
        calls(
            context::bound(ok(Output::Handle(other), end()), c).1,
            Call::CtxSetCurrent(c.cu_ctx),
        ),
        ends(
            context::bound(ok(Output::Handle(other), ok(Output::Nothing, rest)), c).1,
            rest,
            (),
        ),
        forall|tape: List<Reply>| (#[trigger] context::bound(tape, c)).0 == c,
{
}

/// An attribute is read of the context's device, by its number; a negative one is an invalid value.
pub proof fn attribute_is_read(
    c: CudaContext,
    number: u32,
    value: i32,
    code: u32,
    output: Output,
    rest: List<Reply>,
)
    requires
        is_live(c),
        code != 0,
    ensures
        calls(context::attribute(end(), c, number).1, Call::CtxGetCurrent),
        calls(
            context::attribute(current(c, end()), c, number).1,
            Call::DeviceGetAttribute { device: c.cu_device, attribute: number },
        ),
        value >= 0 ==> ends(
            context::attribute(current(c, ok(Output::Number(value), rest)), c, number).1,
            rest,
            value as u32,
        ),
        value < 0 ==> fails(
            context::attribute(current(c, ok(Output::Number(value), rest)), c, number).1,
            1,
        ),
        fails(context::attribute(current(c, failed(code, output, rest)), c, number).1, code),
        value >= 0 ==> ends(
            context::attribute_set(current(c, ok(Output::Number(value), rest)), c, number).1,
            rest,
            value != 0,
        ),
        forall|tape: List<Reply>| (#[trigger] context::attribute(tape, c, number)).0 == c,
        forall|tape: List<Reply>| (#[trigger] context::attribute_set(tape, c, number)).0 == c,
{
}

/// The attributes of devices have the numbers that the driver gives them.
pub proof fn attributes_have_the_drivers_numbers()
    ensures
        context::MAX_THREADS_PER_BLOCK == 1,
        context::MAX_BLOCK_DIM_X == 2,
        context::MAX_BLOCK_DIM_Y == 3,
        context::MAX_BLOCK_DIM_Z == 4,
        context::MAX_GRID_DIM_X == 5,
        context::MAX_GRID_DIM_Y == 6,
        context::MAX_GRID_DIM_Z == 7,
        context::MAX_SHARED_MEMORY_PER_BLOCK == 8,
        context::CLOCK_RATE == 13,
        context::MULTIPROCESSOR_COUNT == 16,
        context::MAX_THREADS_PER_MULTIPROCESSOR == 39,
        context::COMPUTE_CAPABILITY_MAJOR == 75,
        context::COMPUTE_CAPABILITY_MINOR == 76,
        context::COOPERATIVE_LAUNCH == 95,
        context::MAX_SHARED_MEMORY_PER_BLOCK_OPTIN == 97,
        context::CLUSTER_LAUNCH == 120,
        context::STREAM_NON_BLOCKING == 1,
        driver::INVALID_VALUE == 1,
        launch::PROGRAMMATIC_STREAM_SERIALIZATION == 6,
{
}

/// Limits have the numbers that the driver gives them.
pub proof fn limits_have_the_drivers_numbers()
    ensures
        context::limit_number(ContextLimit::StackSize) == 0,
        context::limit_number(ContextLimit::PrintfFifoSize) == 1,
        context::limit_number(ContextLimit::MallocHeapSize) == 2,
        context::limit_number(ContextLimit::DevRuntimeSyncDepth) == 3,
        context::limit_number(ContextLimit::DevRuntimePendingLaunchCount) == 4,
        context::limit_number(ContextLimit::MaxL2FetchGranularity) == 5,
        context::limit_number(ContextLimit::PersistingL2CacheSize) == 6,
        context::policy_bits(SyncPolicy::Auto) == 0,
        context::policy_bits(SyncPolicy::Spin) == 1,
        context::policy_bits(SyncPolicy::Yield) == 2,
        context::policy_bits(SyncPolicy::BlockingSync) == 4,
        context::SCHED_MASK == 7,
{
}

/// Waiting for a context asks the driver to wait once the context is current.
pub proof fn context_is_waited_for(c: CudaContext, rest: List<Reply>)
    requires
        is_live(c),
    ensures
        calls(context::synchronized(end(), c).1, Call::CtxGetCurrent),
        calls(context::synchronized(current(c, end()), c).1, Call::CtxSynchronize),
        ends(context::synchronized(current(c, ok(Output::Nothing, rest)), c).1, rest, ()),
        forall|tape: List<Reply>| (#[trigger] context::synchronized(tape, c)).0 == c,
{
}

/// A limit is read, or set to a value, by its number.
pub proof fn limit_is_read_and_set(
    c: CudaContext,
    limit: ContextLimit,
    value: usize,
    rest: List<Reply>,
)
    requires
        is_live(c),
    ensures
        calls(
            context::limit_read(current(c, end()), c, limit).1,
            Call::CtxGetLimit(context::limit_number(limit)),
        ),
        ends(
            context::limit_read(current(c, ok(Output::Size(value), rest)), c, limit).1,
            rest,
            value,
        ),
        calls(
            context::limit_set(current(c, end()), c, limit, value).1,
            Call::CtxSetLimit { limit: context::limit_number(limit), value },
        ),
        ends(
            context::limit_set(current(c, ok(Output::Nothing, rest)), c, limit, value).1,
            rest,
            (),
        ),
        calls(context::limit_read(end(), c, limit).1, Call::CtxGetCurrent),
        calls(context::limit_set(end(), c, limit, value).1, Call::CtxGetCurrent),
{
}

/// A policy is set among the flags of the context's device: its own bits are those of the policy,
/// and every other bit is written as it was read.
pub proof fn policy_is_set_among_the_flags(
    c: CudaContext,
    policy: SyncPolicy,
    flags: u32,
    rest: List<Reply>,
)
    requires
        is_live(c),
    ensures
        calls(
            context::policy_set(current(c, end()), c, policy).1,
            Call::PrimaryCtxGetState(c.cu_device),
        ),
        context::policy_set(current(c, ok(Output::Flags(flags), end())), c, policy).1 matches Err(
            Halt::Perform(Call::PrimaryCtxSetFlags { device, flags: written }),
        ) && {
            &&& device == c.cu_device
            &&& written & 7 == context::policy_bits(policy)
            &&& written & !7u32 == flags & !7u32
        },
        ends(
            context::policy_set(
                current(c, ok(Output::Flags(flags), ok(Output::Nothing, rest))),
                c,
                policy,
            ).1,
            rest,
            (),
        ),
        calls(
            context::policy_read(current(c, end()), c).1,
            Call::PrimaryCtxGetState(c.cu_device),
        ),
        context::policy_read(current(c, ok(Output::Flags(flags), rest)), c).1 matches Ok(
            (left, found),
        ) && left == rest && (found matches Some(found) ==> context::policy_bits(found) == flags
            & 7) && (found is None ==> flags & 7 == 3 || flags & 7 > 4),
{
    let bits = context::policy_bits(policy);
    let written = context::with_policy(flags, policy);
    assert(bits <= 4);
    assert(((flags & !7u32) | bits) & 7 == bits) by (bit_vector)
        requires
            bits <= 4,
    ;
    assert(((flags & !7u32) | bits) & !7u32 == flags & !7u32) by (bit_vector)
        requires
            bits <= 4,
    ;
    assert(flags & 7 <= 7) by (bit_vector);
}

/// A stream is made without waiting for the default stream, with the priority that is asked for;
/// before the first one of a context whose events are tracked, the context is waited for.
pub proof fn stream_is_made(c: CudaContext, priority: i32, stream: u64, rest: List<Reply>)
    requires
        is_live(c),
        c.num_streams > 0 || !c.event_tracking,
    ensures
        calls(context::stream_made(end(), c, None).1, Call::CtxGetCurrent),
        calls(
            context::stream_made(current(c, end()), c, None).1,
            Call::StreamCreate { flags: 1 },
        ),
        calls(
            context::stream_made(current(c, end()), c, Some(priority)).1,
            Call::StreamCreateWithPriority { flags: 1, priority },
        ),
        ends(
            context::stream_made(current(c, ok(Output::Handle(stream), rest)), c, None).1,
            rest,
            stream,
        ),
        ends(
            context::stream_made(current(c, ok(Output::Handle(stream), rest)), c, Some(priority)).1,
            rest,
            stream,
        ),
{
}

/// Before the first stream of a context whose events are tracked, the context is waited for.
pub proof fn first_stream_waits(
    c: CudaContext,
    priority: Option<i32>,
    stream: u64,
    rest: List<Reply>,
)
    requires
        is_live(c),
        c.num_streams == 0,
        c.event_tracking,
    ensures
        calls(context::stream_made(end(), c, priority).1, Call::CtxGetCurrent),
        calls(context::stream_made(current(c, end()), c, priority).1, Call::CtxGetCurrent),
        calls(
            context::stream_made(current(c, current(c, end())), c, priority).1,
            Call::CtxSynchronize,
        ),
        context::stream_made(
            current(c, current(c, ok(Output::Nothing, end()))),
            c,
            priority,
        ).1 matches Err(Halt::Perform(call)) && match priority {
            Some(priority) => call == (Call::StreamCreateWithPriority { flags: 1, priority }),
            None => call == (Call::StreamCreate { flags: 1 }),
        },
        ends(
            context::stream_made(
                current(c, current(c, ok(Output::Nothing, ok(Output::Handle(stream), rest)))),
                c,
                priority,
            ).1,
            rest,
            stream,
        ),
{
}

/// A stream is destroyed by its handle; the default stream is not. An error of the driver is kept
/// and not reported.
pub proof fn stream_is_destroyed(
    c: CudaContext,
    stream: u64,
    code: u32,
    output: Output,
    rest: List<Reply>,
)
    requires
        is_live(c),
        stream != 0,
        code != 0,
    ensures
        calls(context::stream_dropped(end(), c, stream).1, Call::CtxGetCurrent),
        calls(
            context::stream_dropped(current(c, end()), c, stream).1,
            Call::StreamDestroy(stream),
        ),
        ends(
            context::stream_dropped(current(c, ok(output, rest)), c, stream).1,
            rest,
            (),
        ),
        context::stream_dropped(current(c, ok(output, rest)), c, stream).0.error_state == 0,
        ends(
            context::stream_dropped(current(c, failed(code, output, rest)), c, stream).1,
            rest,
            (),
        ),
        context::stream_dropped(current(c, failed(code, output, rest)), c, stream).0.error_state
            == code,
        ends(context::stream_dropped(current(c, rest), c, 0).1, rest, ()),
        context::stream_dropped(current(c, rest), c, 0).0 == c,
{
}

/// A context is released by its device, and holds no handle then. An error of the driver is kept.
pub proof fn context_is_released(c: CudaContext, code: u32, output: Output, rest: List<Reply>)
    requires
        is_live(c),
    ensures
        calls(context::released(end(), c).1, Call::CtxGetCurrent),
        calls(context::released(current(c, end()), c).1, Call::PrimaryCtxRelease(c.cu_device)),
        ends(context::released(current(c, failed(code, output, rest)), c).1, rest, ()),
        context::released(current(c, failed(code, output, rest)), c).0.cu_ctx == 0,
        context::released(current(c, failed(code, output, rest)), c).0.error_state == code,
        context::released(current(c, failed(code, output, rest)), c).0.cu_device == c.cu_device,
{
}

/// A context is made of the device that its number names: the driver is initialized, the device is
/// looked up, its primary context is retained and made current.
pub proof fn context_is_made(ordinal: usize, device: i32, ctx: u64, rest: List<Reply>)
    requires
        ctx != 0,
        ordinal <= i32::MAX,
    ensures
        calls(context::context_made(end(), ordinal), Call::Init(0)),
        calls(
            context::context_made(ok(Output::Nothing, end()), ordinal),
            Call::DeviceGet(ordinal as i32),
        ),
        calls(
            context::context_made(ok(Output::Nothing, ok(Output::Number(device), end())), ordinal),
            Call::PrimaryCtxRetain(device),
        ),
        calls(
            context::context_made(
                ok(
                    Output::Nothing,
                    ok(Output::Number(device), ok(Output::Handle(ctx), end())),
                ),
                ordinal,
            ),
            Call::CtxGetCurrent,
        ),
        calls(
            context::context_made(
                ok(
                    Output::Nothing,
                    ok(
                        Output::Number(device),
                        ok(Output::Handle(ctx), ok(Output::Handle(0), end())),
                    ),
                ),
                ordinal,
            ),
            Call::CtxSetCurrent(ctx),
        ),
        context::context_made(
            ok(
                Output::Nothing,
                ok(
                    Output::Number(device),
                    ok(
                        Output::Handle(ctx),
                        ok(Output::Handle(0), ok(Output::Nothing, rest)),
                    ),
                ),
            ),
            ordinal,
        ) matches Ok((left, c)) && {
            &&& left == rest
            &&& c.cu_device == device
            &&& c.cu_ctx == ctx
            &&& c.ordinal == ordinal
            &&& c.num_streams == 0
            &&& c.error_state == 0
        },
{
}

/// The range of priorities is what the driver writes, first the least and then the greatest.
pub proof fn priorities_are_read(c: CudaContext, least: i32, greatest: i32, rest: List<Reply>)
    requires
        is_live(c),
    ensures
        calls(context::priority_range(end(), c).1, Call::CtxGetCurrent),
        calls(context::priority_range(current(c, end()), c).1, Call::StreamPriorityRange),
        ends(
            context::priority_range(current(c, ok(Output::Pair(least, greatest), rest)), c).1,
            rest,
            (least, greatest),
        ),
{
}

/// The compute capability is read of the context's device, first the major number.
pub proof fn capability_is_read(c: CudaContext, major: i32, minor: i32, rest: List<Reply>)
    requires
        is_live(c),
    ensures
        calls(
            context::capability(current(c, end()), c).1,
            Call::DeviceGetAttribute { device: c.cu_device, attribute: 75 },
        ),
        calls(
            context::capability(current(c, ok(Output::Number(major), end())), c).1,
            Call::DeviceGetAttribute { device: c.cu_device, attribute: 76 },
        ),
        ends(
            context::capability(
                current(c, ok(Output::Number(major), ok(Output::Number(minor), rest))),
                c,
            ).1,
            rest,
            (major, minor),
        ),
        calls(
            api::capability_read(end(), c.cu_device),
            Call::DeviceGetAttribute { device: c.cu_device, attribute: 75 },
        ),
        calls(
            api::capability_read(ok(Output::Number(major), end()), c.cu_device),
            Call::DeviceGetAttribute { device: c.cu_device, attribute: 76 },
        ),
        ends(
            api::capability_read(
                ok(Output::Number(major), ok(Output::Number(minor), rest)),
                c.cu_device,
            ),
            rest,
            (major, minor),
        ),
{
}

/// The name of a device is read of the context's device.
pub proof fn name_is_read(c: CudaContext, bytes: List<u8>, rest: List<Reply>)
    requires
        is_live(c),
    ensures
        calls(context::name_buffer(current(c, end()), c).1, Call::DeviceGetName(c.cu_device)),
        ends(
            context::name_buffer(current(c, ok(Output::Bytes(bytes), rest)), c).1,
            rest,
            bytes,
        ),
{
}

/// A name ends before its first zero byte, and is all of its bytes where it has none.
pub proof fn name_ends_before_zero(bytes: List<u8>)
    ensures
        context::until_zero(bytes).len() <= bytes@.len(),
        context::until_zero(bytes) == bytes@.take(context::until_zero(bytes).len() as int),
        forall|i: int|
            0 <= i < context::until_zero(bytes).len() ==> #[trigger] context::until_zero(bytes)[i]
                != 0,
        context::until_zero(bytes).len() < bytes@.len() ==> bytes@[context::until_zero(
            bytes,
        ).len() as int] == 0,
    decreases bytes,
{
    if let List::Cons(byte, rest) = bytes {
        name_ends_before_zero(list::held(&rest));
        assert(bytes@ == seq![list::held(&byte)] + rest@);
        assert(bytes@[0] == list::held(&byte));
        if list::held(&byte) != 0 {
            let n = context::until_zero(list::held(&rest)).len() as int;
            assert(bytes@.take(n + 1) =~= seq![list::held(&byte)] + rest@.take(n));
            assert forall|i: int|
                0 <= i < context::until_zero(bytes).len() implies #[trigger] context::until_zero(
                bytes,
            )[i] != 0 by {
                if i > 0 {
                    assert(context::until_zero(bytes)[i] == context::until_zero(
                        list::held(&rest),
                    )[i - 1]);
                }
            }
            if n + 1 < bytes@.len() {
                assert(bytes@[n + 1] == rest@[n]);
            }
        } else {
            assert(bytes@.take(0) =~= Seq::<u8>::empty());
        }
    } else {
        assert(bytes@.take(0) =~= Seq::<u8>::empty());
    }
}

/// The version of the interface is read of the context, and given whether its call succeeds or not.
pub proof fn version_is_read(ctx: u64, code: u32, version: u32, rest: List<Reply>)
    ensures
        calls(api::version_read(end(), ctx), Call::CtxGetApiVersion(ctx)),
        ends(
            api::version_read(failed(code, Output::Flags(version), rest), ctx),
            rest,
            version,
        ),
{
}

/// The numbers of three attributes in a row, each read of the current context.
pub open spec fn three(
    c: CudaContext,
    x: i32,
    y: i32,
    z: i32,
    rest: List<Reply>,
) -> List<Reply> {
    current(
        c,
        ok(
            Output::Number(x),
            current(c, ok(Output::Number(y), current(c, ok(Output::Number(z), rest)))),
        ),
    )
}

/// The limits of launches are eight attributes, read in the order of their numbers: threads, the
/// block's dimensions, the grid's dimensions, shared memory.
#[verifier::rlimit(100)]
pub proof fn launch_limits_are_eight_attributes(
    c: CudaContext,
    threads: i32,
    bx: i32,
    by: i32,
    bz: i32,
    gx: i32,
    gy: i32,
    gz: i32,
    shared: i32,
    rest: List<Reply>,
)
    requires
        is_live(c),
        threads >= 0,
        bx >= 0,
        by >= 0,
        bz >= 0,
        gx >= 0,
        gy >= 0,
        gz >= 0,
        shared >= 0,
    ensures
        calls(
            context::launch_limits_of(current(c, end()), c).1,
            Call::DeviceGetAttribute { device: c.cu_device, attribute: 1 },
        ),
        calls(
            context::launch_limits_of(
                current(c, ok(Output::Number(threads), current(c, end()))),
                c,
            ).1,
            Call::DeviceGetAttribute { device: c.cu_device, attribute: 2 },
        ),
        calls(
            context::launch_limits_of(
                current(
                    c,
                    ok(
                        Output::Number(threads),
                        current(c, ok(Output::Number(bx), current(c, end()))),
                    ),
                ),
                c,
            ).1,
            Call::DeviceGetAttribute { device: c.cu_device, attribute: 3 },
        ),
        calls(
            context::launch_limits_of(
                current(
                    c,
                    ok(
                        Output::Number(threads),
                        current(
                            c,
                            ok(
                                Output::Number(bx),
                                current(c, ok(Output::Number(by), current(c, end()))),
                            ),
                        ),
                    ),
                ),
                c,
            ).1,
            Call::DeviceGetAttribute { device: c.cu_device, attribute: 4 },
        ),
        calls(
            context::launch_limits_of(
                current(
                    c,
                    ok(Output::Number(threads), three(c, bx, by, bz, current(c, end()))),
                ),
                c,
            ).1,
            Call::DeviceGetAttribute { device: c.cu_device, attribute: 5 },
        ),
        calls(
            context::launch_limits_of(
                current(
                    c,
                    ok(
                        Output::Number(threads),
                        three(
                            c,
                            bx,
                            by,
                            bz,
                            current(c, ok(Output::Number(gx), current(c, end()))),
                        ),
                    ),
                ),
                c,
            ).1,
            Call::DeviceGetAttribute { device: c.cu_device, attribute: 6 },
        ),
        calls(
            context::launch_limits_of(
                current(
                    c,
                    ok(
                        Output::Number(threads),
                        three(
                            c,
                            bx,
                            by,
                            bz,
                            current(
                                c,
                                ok(
                                    Output::Number(gx),
                                    current(c, ok(Output::Number(gy), current(c, end()))),
                                ),
                            ),
                        ),
                    ),
                ),
                c,
            ).1,
            Call::DeviceGetAttribute { device: c.cu_device, attribute: 7 },
        ),
        calls(
            context::launch_limits_of(
                current(
                    c,
                    ok(
                        Output::Number(threads),
                        three(c, bx, by, bz, three(c, gx, gy, gz, current(c, end()))),
                    ),
                ),
                c,
            ).1,
            Call::DeviceGetAttribute { device: c.cu_device, attribute: 8 },
        ),
        context::launch_limits_of(
            current(
                c,
                ok(
                    Output::Number(threads),
                    three(
                        c,
                        bx,
                        by,
                        bz,
                        three(c, gx, gy, gz, current(c, ok(Output::Number(shared), rest))),
                    ),
                ),
            ),
            c,
        ).1 matches Ok((left, limits)) && {
            &&& left == rest
            &&& limits.max_threads_per_block == threads
            &&& limits.max_block_dim.x == bx && limits.max_block_dim.y == by
                && limits.max_block_dim.z == bz
            &&& limits.max_grid_dim.x == gx && limits.max_grid_dim.y == gy
                && limits.max_grid_dim.z == gz
            &&& limits.max_shared_memory_per_block == shared
        },
{
    let number = |n: u32| Call::DeviceGetAttribute { device: c.cu_device, attribute: n };
    assert forall|n: u32, v: i32, left: List<Reply>| v >= 0 implies #[trigger] context::attribute(
        current(c, ok(Output::Number(v), left)),
        c,
        n,
    ) == (c, Ok::<(List<Reply>, u32), Halt>((left, v as u32))) by {}
    assert forall|n: u32| #[trigger]
        context::attribute(current(c, end()), c, n) == (
            c,
            Err::<(List<Reply>, u32), Halt>(Halt::Perform(number(n))),
        ) by {}
}

// Launches.

/// A launch for which dimensions were set is one call of the driver. It names the kernel, the grid,
/// the block, the shared memory and the stream that were given, each as it was given, and hands on
/// the arguments. The call is the plain one unless something more is asked of the launch; then the
/// attribute for it is set, and no other.
pub proof fn launch_is_called_for_as_set(
    launch: AsyncKernelLaunch,
    cfg: LaunchConfig,
    stream: u64,
    r: Result<(), LaunchError>,
    left: List<Reply>,
)
    requires
        launch.cfg == Some(cfg),
        launch::launched(
            r,
            left,
            end(),
            launch.func,
            launch.args,
            launch.cfg,
            launch.attributes,
            stream,
        ),
    ensures
        r matches Err(LaunchError::Halted(Halt::Perform(call))) && match call {
            Call::LaunchKernel { launch: made, args } => {
                &&& !launch.attributes.programmatic_stream_serialization
                &&& made.function == launch.func
                &&& made.grid_dim.x == cfg.grid_dim.x
                &&& made.grid_dim.y == cfg.grid_dim.y
                &&& made.grid_dim.z == cfg.grid_dim.z
                &&& made.block_dim.x == cfg.block_dim.x
                &&& made.block_dim.y == cfg.block_dim.y
                &&& made.block_dim.z == cfg.block_dim.z
                &&& made.shared_mem_bytes == cfg.shared_mem_bytes
                &&& made.stream == stream
                &&& args@ == launch.args@
            },
            Call::LaunchKernelEx { launch: made, attributes, args } => {
                &&& launch.attributes.programmatic_stream_serialization
                &&& made.function == launch.func
                &&& made.grid_dim.x == cfg.grid_dim.x
                &&& made.grid_dim.y == cfg.grid_dim.y
                &&& made.grid_dim.z == cfg.grid_dim.z
                &&& made.block_dim.x == cfg.block_dim.x
                &&& made.block_dim.y == cfg.block_dim.y
                &&& made.block_dim.z == cfg.block_dim.z
                &&& made.shared_mem_bytes == cfg.shared_mem_bytes
                &&& made.stream == stream
                &&& args@ == launch.args@
                &&& attributes@.len() == 1
                &&& attributes@[0].id == 6
                &&& attributes@[0].value == 1
            },
            _ => false,
        },
{
    reveal_with_fuel(List::items, 2);
}

/// Two launches that differ in a dimension, in shared memory, in the kernel or in the stream are
/// not one call.
pub proof fn launches_are_told_apart(
    f: u64,
    g: u64,
    args: List<u64>,
    a: LaunchConfig,
    b: LaunchConfig,
    attributes: LaunchAttributes,
    s: u64,
    t: u64,
)
    requires
        launch::launch_call(f, args, a, attributes, s) == launch::launch_call(
            g,
            args,
            b,
            attributes,
            t,
        ),
    ensures
        f == g,
        a == b,
        s == t,
{
}

/// A launch whose call succeeds succeeds and leaves the later replies; one whose call fails fails
/// with the driver's code; and one without dimensions calls for nothing.
pub proof fn launch_gives_what_its_call_gives(
    launch: AsyncKernelLaunch,
    stream: u64,
    code: u32,
    output: Output,
    rest: List<Reply>,
    r: Result<(), LaunchError>,
    left: List<Reply>,
    q: Result<(), LaunchError>,
    over: List<Reply>,
)
    requires
        code != 0,
        launch::launched(
            r,
            left,
            ok(Output::Nothing, rest),
            launch.func,
            launch.args,
            launch.cfg,
            launch.attributes,
            stream,
        ),
        launch::launched(
            q,
            over,
            failed(code, output, rest),
            launch.func,
            launch.args,
            launch.cfg,
            launch.attributes,
            stream,
        ),
    ensures
        launch.cfg is Some ==> r == Ok::<(), LaunchError>(()) && left == rest,
        launch.cfg is Some ==> q == Err::<(), LaunchError>(
            LaunchError::Halted(Halt::Failed(DriverError(code))),
        ),
        launch.cfg is None ==> r == Err::<(), LaunchError>(LaunchError::NotConfigured) && left
            == ok(Output::Nothing, rest),
        launch.cfg is None ==> q == Err::<(), LaunchError>(LaunchError::NotConfigured),
{
}

/// The bytes of an attribute hold its number in the first four and its value, as bits, in the four
/// from the eighth on, the lowest byte first; all others are zero.
pub proof fn attribute_is_read_from_its_bytes(attribute: Attribute, size: nat, i: int)
    requires
        size >= 12,
    ensures
        ({
            let bytes = launch::attribute_bytes(attribute, size);
            &&& bytes.len() == size
            &&& bytes[0] + 256 * bytes[1] + 65536 * bytes[2] + 16777216 * bytes[3] == attribute.id
            &&& attribute.value >= 0 ==> bytes[8] + 256 * bytes[9] + 65536 * bytes[10] + 16777216
                * bytes[11] == attribute.value
            &&& attribute.value < 0 ==> bytes[8] + 256 * bytes[9] + 65536 * bytes[10] + 16777216
                * bytes[11] == attribute.value + 0x1_0000_0000
            &&& 4 <= i < 8 || 12 <= i < size ==> bytes[i] == 0
        }),
{
    bytes_make_the_number(attribute.id);
    bytes_make_the_number(launch::bits_of(attribute.value));
}

proof fn bytes_make_the_number(value: u32)
    ensures
        launch::byte_at(value, 0) + 256 * launch::byte_at(value, 1) + 65536 * launch::byte_at(
            value,
            2,
        ) + 16777216 * launch::byte_at(value, 3) == value,
{
    let a = value % 256;
    let b = value / 256 % 256;
    let c = value / 65536 % 256;
    let d = value / 16777216;
    assert(a < 256 && b < 256 && c < 256 && d < 256);
    assert(value == a + 256 * b + 65536 * c + 16777216 * d);
}

} // verus!
