//! What was done with a context stays done when it is started again with more replies.
//!
//! An operation that comes to the end of the replies names the next call of the driver, and is
//! started again with the reply at the end. What did not stop for want of a reply comes out the same,
//! and leaves what was added.
use crate::cuda::api;
use crate::cuda::context::{self, ContextLimit, CudaContext, Step, SyncPolicy};
use crate::cuda::driver::{Halt, Reply, Run};
use crate::list::List;
use std::rc::Rc;
use vstd::prelude::*;

verus! {

/// Replies with more at their end.
pub open spec fn appended(tape: List<Reply>, added: List<Reply>) -> List<Reply>
    decreases tape,
{
    match tape {
        List::Nil => added,
        List::Cons(reply, rest) => List::Cons(reply, Rc::new(appended(*rest, added))),
    }
}

/// Whether what came of replies comes of them with more at their end, which are then left: it does
/// unless there were too few.
pub open spec fn goes_on<T>(before: Run<T>, after: Run<T>, added: List<Reply>) -> bool {
    match before {
        Err(Halt::Perform(_)) => true,
        Err(halt) => after == Err::<(List<Reply>, T), Halt>(halt),
        Ok((left, value)) => after == Ok::<(List<Reply>, T), Halt>((appended(left, added), value)),
    }
}

/// The same of an operation on a context, which is then left the same too.
pub open spec fn step_goes_on<T>(before: Step<T>, after: Step<T>, added: List<Reply>) -> bool {
    before.1 matches Err(Halt::Perform(_)) || (after.0 == before.0 && goes_on(
        before.1,
        after.1,
        added,
    ))
}

/// Making a context current does the same with more replies.
pub proof fn bound_goes_on(tape: List<Reply>, added: List<Reply>, c: CudaContext)
    ensures
        step_goes_on(context::bound(tape, c), context::bound(appended(tape, added), c), added),
{
    reveal_with_fuel(appended, 12);
}

/// Reading an attribute does the same with more replies.
pub proof fn attribute_goes_on(
    tape: List<Reply>,
    added: List<Reply>,
    c: CudaContext,
    attribute: u32,
)
    ensures
        step_goes_on(
            context::attribute(tape, c, attribute),
            context::attribute(appended(tape, added), c, attribute),
            added,
        ),
{
    reveal_with_fuel(appended, 12);
}

/// Synchronizing does the same with more replies.
pub proof fn synchronized_goes_on(tape: List<Reply>, added: List<Reply>, c: CudaContext)
    ensures
        step_goes_on(
            context::synchronized(tape, c),
            context::synchronized(appended(tape, added), c),
            added,
        ),
{
    reveal_with_fuel(appended, 12);
}

/// Making a stream does the same with more replies.
pub proof fn stream_made_goes_on(
    tape: List<Reply>,
    added: List<Reply>,
    c: CudaContext,
    priority: Option<i32>,
)
    ensures
        step_goes_on(
            context::stream_made(tape, c, priority),
            context::stream_made(appended(tape, added), c, priority),
            added,
        ),
{
    reveal_with_fuel(appended, 12);
}

/// Reading the range of priorities does the same with more replies.
pub proof fn priority_range_goes_on(tape: List<Reply>, added: List<Reply>, c: CudaContext)
    ensures
        step_goes_on(
            context::priority_range(tape, c),
            context::priority_range(appended(tape, added), c),
            added,
        ),
{
    reveal_with_fuel(appended, 12);
}

/// Reading the name of a device does the same with more replies.
pub proof fn name_buffer_goes_on(tape: List<Reply>, added: List<Reply>, c: CudaContext)
    ensures
        step_goes_on(
            context::name_buffer(tape, c),
            context::name_buffer(appended(tape, added), c),
            added,
        ),
{
    reveal_with_fuel(appended, 12);
}

/// Reading the compute capability does the same with more replies.
pub proof fn capability_goes_on(tape: List<Reply>, added: List<Reply>, c: CudaContext)
    ensures
        step_goes_on(
            context::capability(tape, c),
            context::capability(appended(tape, added), c),
            added,
        ),
{
    reveal_with_fuel(appended, 12);
}

/// Reading the limits of dimensions does the same with more replies.
pub proof fn dim_limit_goes_on(
    tape: List<Reply>,
    added: List<Reply>,
    c: CudaContext,
    x: u32,
    y: u32,
    z: u32,
)
    ensures
        step_goes_on(
            context::dim_limit(tape, c, x, y, z),
            context::dim_limit(appended(tape, added), c, x, y, z),
            added,
        ),
{
    reveal_with_fuel(appended, 12);
}

/// Reading the limits of launches does the same with more replies.
pub proof fn launch_limits_of_goes_on(tape: List<Reply>, added: List<Reply>, c: CudaContext)
    ensures
        step_goes_on(
            context::launch_limits_of(tape, c),
            context::launch_limits_of(appended(tape, added), c),
            added,
        ),
{
    attribute_goes_on(tape, added, c, context::MAX_THREADS_PER_BLOCK);
    let (c, threads) = context::attribute(tape, c, context::MAX_THREADS_PER_BLOCK);
    if let Ok((tape, _)) = threads {
        dim_limit_goes_on(
            tape,
            added,
            c,
            context::MAX_BLOCK_DIM_X,
            context::MAX_BLOCK_DIM_Y,
            context::MAX_BLOCK_DIM_Z,
        );
        let (c, block) = context::dim_limit(
            tape,
            c,
            context::MAX_BLOCK_DIM_X,
            context::MAX_BLOCK_DIM_Y,
            context::MAX_BLOCK_DIM_Z,
        );
        if let Ok((tape, _)) = block {
            dim_limit_goes_on(
                tape,
                added,
                c,
                context::MAX_GRID_DIM_X,
                context::MAX_GRID_DIM_Y,
                context::MAX_GRID_DIM_Z,
            );
            let (c, grid) = context::dim_limit(
                tape,
                c,
                context::MAX_GRID_DIM_X,
                context::MAX_GRID_DIM_Y,
                context::MAX_GRID_DIM_Z,
            );
            if let Ok((tape, _)) = grid {
                attribute_goes_on(tape, added, c, context::MAX_SHARED_MEMORY_PER_BLOCK);
            }
        }
    }
}

/// Reading whether an attribute is set does the same with more replies.
pub proof fn attribute_set_goes_on(
    tape: List<Reply>,
    added: List<Reply>,
    c: CudaContext,
    number: u32,
)
    ensures
        step_goes_on(
            context::attribute_set(tape, c, number),
            context::attribute_set(appended(tape, added), c, number),
            added,
        ),
{
    reveal_with_fuel(appended, 12);
}

/// Reading a limit does the same with more replies.
pub proof fn limit_read_goes_on(
    tape: List<Reply>,
    added: List<Reply>,
    c: CudaContext,
    limit: ContextLimit,
)
    ensures
        step_goes_on(
            context::limit_read(tape, c, limit),
            context::limit_read(appended(tape, added), c, limit),
            added,
        ),
{
    reveal_with_fuel(appended, 12);
}

/// Setting a limit does the same with more replies.
pub proof fn limit_set_goes_on(
    tape: List<Reply>,
    added: List<Reply>,
    c: CudaContext,
    limit: ContextLimit,
    value: usize,
)
    ensures
        step_goes_on(
            context::limit_set(tape, c, limit, value),
            context::limit_set(appended(tape, added), c, limit, value),
            added,
        ),
{
    reveal_with_fuel(appended, 12);
}

/// Reading the flags of a context does the same with more replies.
pub proof fn flags_read_goes_on(tape: List<Reply>, added: List<Reply>, c: CudaContext)
    ensures
        step_goes_on(
            context::flags_read(tape, c),
            context::flags_read(appended(tape, added), c),
            added,
        ),
{
    reveal_with_fuel(appended, 12);
}

/// Setting a policy does the same with more replies.
pub proof fn policy_set_goes_on(
    tape: List<Reply>,
    added: List<Reply>,
    c: CudaContext,
    policy: SyncPolicy,
)
    ensures
        step_goes_on(
            context::policy_set(tape, c, policy),
            context::policy_set(appended(tape, added), c, policy),
            added,
        ),
{
    reveal_with_fuel(appended, 12);
}

/// Reading the policy does the same with more replies.
pub proof fn policy_read_goes_on(tape: List<Reply>, added: List<Reply>, c: CudaContext)
    ensures
        step_goes_on(
            context::policy_read(tape, c),
            context::policy_read(appended(tape, added), c),
            added,
        ),
{
    reveal_with_fuel(appended, 12);
}

/// Making a context current for its release does the same with more replies.
pub proof fn bound_keeping_goes_on(tape: List<Reply>, added: List<Reply>, c: CudaContext)
    ensures
        step_goes_on(
            context::bound_keeping(tape, c),
            context::bound_keeping(appended(tape, added), c),
            added,
        ),
{
    reveal_with_fuel(appended, 12);
}

/// Dropping a stream does the same with more replies.
pub proof fn stream_dropped_goes_on(
    tape: List<Reply>,
    added: List<Reply>,
    c: CudaContext,
    stream: u64,
)
    ensures
        step_goes_on(
            context::stream_dropped(tape, c, stream),
            context::stream_dropped(appended(tape, added), c, stream),
            added,
        ),
{
    reveal_with_fuel(appended, 12);
}

/// Releasing a context does the same with more replies.
pub proof fn released_goes_on(tape: List<Reply>, added: List<Reply>, c: CudaContext)
    ensures
        step_goes_on(
            context::released(tape, c),
            context::released(appended(tape, added), c),
            added,
        ),
{
    reveal_with_fuel(appended, 12);
}

/// Making a context does the same with more replies.
pub proof fn context_made_goes_on(tape: List<Reply>, added: List<Reply>, ordinal: usize)
    ensures
        goes_on(
            context::context_made(tape, ordinal),
            context::context_made(appended(tape, added), ordinal),
            added,
        ),
{
    reveal_with_fuel(appended, 12);
}

/// Reading the version does the same with more replies.
pub proof fn version_read_goes_on(tape: List<Reply>, added: List<Reply>, ctx: u64)
    ensures
        goes_on(api::version_read(tape, ctx), api::version_read(appended(tape, added), ctx), added),
{
    reveal_with_fuel(appended, 12);
}

/// Reading the compute capability of a device does the same with more replies.
pub proof fn capability_read_goes_on(tape: List<Reply>, added: List<Reply>, device: i32)
    ensures
        goes_on(
            api::capability_read(tape, device),
            api::capability_read(appended(tape, added), device),
            added,
        ),
{
    reveal_with_fuel(appended, 12);
}

} // verus!
