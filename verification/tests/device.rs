use cutile::cuda::api::{
    api_version, get_device_clock_rate, get_device_sm_name, init, malloc_async, memcpy_dtoh_async,
};
use cutile::cuda::context::{
    sm_name, ContextLimit, CudaContext, StreamPriorityRange, SyncPolicy, COOPERATIVE_LAUNCH,
};
use cutile::cuda::driver::{Attribute, Call, Dim3, Driver, DriverError, Halt, Output, Reply};
use cutile::cuda::launch::{
    encode_i32_launch_attribute, not_configured_text, AsyncKernelLaunch, LaunchAttributes,
    LaunchConfig, LaunchError,
};
use cutile::list::List;
use std::rc::Rc;

fn list<T>(items: Vec<T>) -> List<T> {
    let mut out = List::Nil;
    for item in items.into_iter().rev() {
        out = List::prepend(Rc::new(item), out);
    }
    out
}

fn ok(output: Output) -> Reply {
    Reply { code: 0, output }
}

fn failed(code: u32) -> Reply {
    Reply { code, output: Output::Nothing }
}

fn driver(replies: Vec<Reply>) -> Driver {
    Driver { left: list(replies) }
}

fn context() -> CudaContext {
    CudaContext {
        cu_device: 3,
        cu_ctx: 77,
        ordinal: 1,
        num_streams: 0,
        event_tracking: true,
        error_state: 0,
    }
}

fn priorities(least: i32, greatest: i32) -> StreamPriorityRange {
    let mut d = driver(vec![ok(Output::Handle(77)), ok(Output::Pair(least, greatest))]);
    match context().stream_priority_range(&mut d) {
        Ok(range) => range,
        Err(_) => panic!("no range"),
    }
}

#[test]
fn priorities_run_from_greatest_to_least() {
    let range = priorities(0, -5);
    assert_eq!(range.least(), 0);
    assert_eq!(range.greatest(), -5);
    assert!(range.is_supported());
    assert!(range.contains(-5) && range.contains(0) && !range.contains(1));
    assert_eq!(range.clamp(i32::MIN), -5);
    assert_eq!(range.clamp(7), 0);
    assert_eq!(range.clamp(-2), -2);
    assert!(!priorities(0, 0).is_supported());
}

#[test]
fn limits_have_their_numbers() {
    assert_eq!(ContextLimit::StackSize.to_raw(), 0);
    assert_eq!(ContextLimit::PersistingL2CacheSize.to_raw(), 6);
}

#[test]
fn policies_read_back() {
    for policy in [SyncPolicy::Auto, SyncPolicy::Spin, SyncPolicy::Yield, SyncPolicy::BlockingSync] {
        assert_eq!(SyncPolicy::from_raw(policy.to_raw()), Some(policy));
        assert_eq!(SyncPolicy::from_raw(policy.to_raw() | 8), Some(policy));
    }
    assert_eq!(SyncPolicy::from_raw(3), None);
}

#[test]
fn binding_asks_for_the_current_context_first() {
    let mut c = context();
    assert!(matches!(
        c.bind_to_thread(&mut driver(vec![])),
        Err(Halt::Perform(Call::CtxGetCurrent))
    ));
    assert!(matches!(
        c.bind_to_thread(&mut driver(vec![ok(Output::Handle(5))])),
        Err(Halt::Perform(Call::CtxSetCurrent(77)))
    ));
    assert!(c.bind_to_thread(&mut driver(vec![ok(Output::Handle(77))])).is_ok());
    assert!(matches!(
        c.bind_to_thread(&mut driver(vec![ok(Output::Nothing)])),
        Err(Halt::OutOfStep)
    ));
}

#[test]
fn kept_errors_are_reported_once() {
    let mut c = context();
    c.record_err::<()>(Err(DriverError(700)));
    c.record_err::<()>(Ok(()));
    c.record_err::<()>(Err(DriverError(2)));
    assert!(matches!(
        c.synchronize(&mut driver(vec![])),
        Err(Halt::Failed(DriverError(2)))
    ));
    assert_eq!(c.check_err(), Ok(()));
}

#[test]
fn first_stream_synchronizes() {
    let mut c = context();
    let mut d = driver(vec![
        ok(Output::Handle(77)),
        ok(Output::Handle(77)),
        ok(Output::Nothing),
        ok(Output::Handle(42)),
    ]);
    assert!(matches!(c.new_stream(&mut d), Ok(42)));
    assert_eq!(c.num_streams, 1);
    let mut d = driver(vec![ok(Output::Handle(77)), ok(Output::Handle(43))]);
    assert!(matches!(c.new_stream(&mut d), Ok(43)));
    assert_eq!(c.num_streams, 2);
    assert!(matches!(
        c.new_stream_with_priority(&mut driver(vec![ok(Output::Handle(77))]), -3),
        Err(Halt::Perform(Call::StreamCreateWithPriority { flags: 1, priority: -3 }))
    ));
}

#[test]
fn contexts_are_made_in_order() {
    let mut d = driver(vec![
        ok(Output::Nothing),
        ok(Output::Number(0)),
        ok(Output::Handle(9)),
        ok(Output::Handle(9)),
    ]);
    let c = match CudaContext::new(&mut d, 0) {
        Ok(c) => c,
        Err(_) => panic!("no context"),
    };
    assert_eq!(c.cu_ctx(), 9);
    assert_eq!(c.ordinal(), 0);
    assert_eq!(c.default_stream(), 0);
    assert!(matches!(
        CudaContext::new(&mut driver(vec![failed(100)]), 0),
        Err(Halt::Failed(DriverError(100)))
    ));
}

#[test]
fn contexts_are_equal_by_their_handles() {
    let mut other = context();
    other.num_streams = 5;
    assert!(context() == other);
    other.cu_ctx = 78;
    assert!(context() != other);
}

#[test]
fn negative_attributes_are_out_of_range() {
    let mut c = context();
    let mut d = driver(vec![ok(Output::Handle(77)), ok(Output::Number(-1))]);
    assert!(matches!(
        c.multiprocessor_count(&mut d),
        Err(Halt::Failed(DriverError(1)))
    ));
    let mut d = driver(vec![ok(Output::Handle(77)), ok(Output::Number(1))]);
    assert!(matches!(c.supports_cooperative_launch(&mut d), Ok(true)));
    assert!(matches!(
        c.supports_cooperative_launch(&mut driver(vec![ok(Output::Handle(77))])),
        Err(Halt::Perform(Call::DeviceGetAttribute { device: 3, attribute: COOPERATIVE_LAUNCH }))
    ));
}

#[test]
fn launch_limits_are_read_one_by_one() {
    let mut c = context();
    let mut replies = Vec::new();
    for value in [1024, 1024, 1024, 64, 0x7fff_ffff, 65535, 65535, 49152] {
        replies.push(ok(Output::Handle(77)));
        replies.push(ok(Output::Number(value)));
    }
    match c.launch_limits(&mut driver(replies)) {
        Ok(limits) => {
            assert_eq!(limits.max_threads_per_block, 1024);
            assert_eq!(limits.max_block_dim, Dim3 { x: 1024, y: 1024, z: 64 });
            assert_eq!(limits.max_grid_dim, Dim3 { x: 0x7fff_ffff, y: 65535, z: 65535 });
            assert_eq!(limits.max_shared_memory_per_block, 49152);
        },
        Err(_) => panic!("no limits"),
    }
}

#[test]
fn device_names_end_at_the_first_zero() {
    let mut c = context();
    let bytes = vec![b'G', 0xFF, b'P', 0, b'U'];
    let mut d = driver(vec![ok(Output::Handle(77)), ok(Output::Bytes(list(bytes)))]);
    match c.device_name(&mut d) {
        Ok(name) => assert_eq!(name, "G\u{FFFD}P"),
        Err(_) => panic!("no name"),
    }
}

#[test]
fn capabilities_name_an_architecture() {
    let mut c = context();
    let mut d = driver(vec![
        ok(Output::Handle(77)),
        ok(Output::Number(9)),
        ok(Output::Number(0)),
    ]);
    match c.compute_capability(&mut d) {
        Ok((major, minor)) => assert_eq!(sm_name(major, minor), "sm_90"),
        Err(_) => panic!("no capability"),
    }
    assert_eq!(sm_name(12, 0), "sm_120");
    assert_eq!(sm_name(-1, 3), "sm_-13");
}

#[test]
fn policies_keep_other_flags() {
    let mut c = context();
    let mut d = driver(vec![ok(Output::Handle(77)), ok(Output::Flags(0x0a))]);
    assert!(matches!(
        c.set_sync_policy(&mut d, SyncPolicy::BlockingSync),
        Err(Halt::Perform(Call::PrimaryCtxSetFlags { device: 3, flags: 0x0c }))
    ));
    let mut d = driver(vec![ok(Output::Handle(77)), ok(Output::Flags(0x0c))]);
    assert!(matches!(c.sync_policy(&mut d), Ok(Some(SyncPolicy::BlockingSync))));
}

#[test]
fn limits_are_read_and_written() {
    let mut c = context();
    let mut d = driver(vec![ok(Output::Handle(77)), ok(Output::Size(4096))]);
    assert!(matches!(c.stack_size(&mut d), Ok(4096)));
    assert!(matches!(
        c.set_limit(&mut driver(vec![ok(Output::Handle(77))]), ContextLimit::MallocHeapSize, 7),
        Err(Halt::Perform(Call::CtxSetLimit { limit: 2, value: 7 }))
    ));
    let mut d = driver(vec![ok(Output::Handle(77)), ok(Output::Pair(0, -5))]);
    match c.stream_priority_range(&mut d) {
        Ok(range) => assert_eq!((range.least(), range.greatest()), (0, -5)),
        Err(_) => panic!("no range"),
    }
}

#[test]
fn release_keeps_errors() {
    let mut c = context();
    let mut d = driver(vec![failed(4), failed(5)]);
    assert!(c.release(&mut d).is_ok());
    assert_eq!(c.cu_ctx, 0);
    assert_eq!(c.check_err(), Err(DriverError(5)));
    let mut d = driver(vec![ok(Output::Handle(0)), ok(Output::Nothing)]);
    assert!(c.release(&mut d).is_ok());
}

fn config() -> LaunchConfig {
    LaunchConfig {
        grid_dim: Dim3 { x: 1, y: 2, z: 3 },
        block_dim: Dim3 { x: 4, y: 5, z: 6 },
        shared_mem_bytes: 7,
    }
}

#[test]
fn launch_needs_its_dimensions() {
    let launch = AsyncKernelLaunch::new(11);
    assert!(matches!(launch.launch(&mut driver(vec![]), 0), Err(LaunchError::NotConfigured)));
    assert_eq!(not_configured_text(), "Await called before launching the kernel.");
}

#[test]
fn launch_is_plain_without_attributes() {
    let mut launch = AsyncKernelLaunch::new(11);
    launch.push_arg(100);
    launch.push_arg(200);
    launch.set_launch_config(config());
    match launch.launch(&mut driver(vec![]), 8) {
        Err(LaunchError::Halted(Halt::Perform(Call::LaunchKernel { launch, args }))) => {
            assert_eq!(launch.function, 11);
            assert_eq!(launch.stream, 8);
            assert_eq!(launch.grid_dim, config().grid_dim);
            assert_eq!(args.count(), 2);
            assert_eq!(args.nth(1).map(|arg| *arg), Some(200));
        },
        _ => panic!("no plain launch"),
    }
    launch.set_launch_attributes(LaunchAttributes { programmatic_stream_serialization: true });
    match launch.launch(&mut driver(vec![]), 8) {
        Err(LaunchError::Halted(Halt::Perform(Call::LaunchKernelEx {
            launch: _,
            attributes,
            args: _,
        }))) => {
            assert_eq!(attributes.count(), 1);
            assert_eq!(attributes.nth(0).map(|a| *a), Some(Attribute { id: 6, value: 1 }));
        },
        _ => panic!("no extended launch"),
    }
    assert!(launch.launch(&mut driver(vec![ok(Output::Nothing)]), 8).is_ok());
    assert!(matches!(
        launch.launch(&mut driver(vec![failed(9)]), 8),
        Err(LaunchError::Halted(Halt::Failed(DriverError(9))))
    ));
}

#[test]
fn attributes_are_laid_out_in_bytes() {
    let bytes = encode_i32_launch_attribute(Attribute { id: 0x0102_0304, value: -2 }, 16);
    assert_eq!(
        bytes,
        vec![4, 3, 2, 1, 0, 0, 0, 0, 0xFE, 0xFF, 0xFF, 0xFF, 0, 0, 0, 0]
    );
}

#[test]
fn operations_without_a_context_call_the_driver() {
    assert!(init(&mut driver(vec![ok(Output::Nothing)]), 0).is_ok());
    assert!(matches!(
        init(&mut driver(vec![failed(100)]), 0),
        Err(Halt::Failed(DriverError(100)))
    ));
    let unread = Reply { code: 201, output: Output::Flags(0) };
    assert!(matches!(api_version(&mut driver(vec![unread]), 77), Ok(0)));
    assert!(matches!(
        malloc_async(&mut driver(vec![]), 64, 8),
        Err(Halt::Perform(Call::MallocAsync { num_bytes: 64, stream: 8 }))
    ));
    assert!(matches!(
        memcpy_dtoh_async(&mut driver(vec![]), 1, 2, 3, 8, 9),
        Err(Halt::Perform(Call::MemcpyDtohAsync { dst: 1, src: 2, num_bytes: 24, stream: 9 }))
    ));
    assert!(matches!(
        get_device_clock_rate(&mut driver(vec![]), 3),
        Err(Halt::Perform(Call::DeviceGetAttribute { device: 3, attribute: 13 }))
    ));
    let mut d = driver(vec![ok(Output::Number(12)), ok(Output::Number(0))]);
    assert!(matches!(get_device_sm_name(&mut d, 3), Ok(name) if name == "sm_120"));
}

#[test]
fn failed_streams_do_not_count() {
    let mut c = context();
    let replies = || {
        vec![ok(Output::Handle(77)), ok(Output::Handle(77)), ok(Output::Nothing), failed(2)]
    };
    assert!(matches!(
        c.new_stream(&mut driver(replies())),
        Err(Halt::Failed(DriverError(2)))
    ));
    assert_eq!(c.num_streams, 0);
    assert!(matches!(
        c.new_stream(&mut driver(vec![ok(Output::Handle(77)), ok(Output::Handle(77))])),
        Err(Halt::Perform(Call::CtxSynchronize))
    ));
    c.num_streams = 3;
    let mut d = driver(vec![ok(Output::Handle(77)), failed(2)]);
    assert!(matches!(c.new_stream(&mut d), Err(Halt::Failed(DriverError(2)))));
    assert_eq!(c.num_streams, 3);
}

#[test]
fn dropped_streams_do_not_count() {
    let mut c = context();
    c.num_streams = 2;
    assert!(matches!(
        c.drop_stream(&mut driver(vec![ok(Output::Handle(77))]), 42),
        Err(Halt::Perform(Call::StreamDestroy(42)))
    ));
    assert_eq!(c.num_streams, 2);
    assert!(c.drop_stream(&mut driver(vec![ok(Output::Handle(77)), failed(7)]), 42).is_ok());
    assert_eq!(c.num_streams, 1);
    assert_eq!(c.check_err(), Err(DriverError(7)));
    assert!(c.drop_stream(&mut driver(vec![ok(Output::Handle(77))]), 0).is_ok());
    assert_eq!(c.num_streams, 1);
}

#[test]
fn contexts_that_cannot_be_bound_are_released() {
    let made = || vec![ok(Output::Nothing), ok(Output::Number(3)), ok(Output::Handle(9))];
    let mut replies = made();
    replies.push(failed(5));
    assert!(matches!(
        CudaContext::new(&mut driver(replies), 0),
        Err(Halt::Perform(Call::CtxGetCurrent))
    ));
    let mut replies = made();
    replies.push(ok(Output::Handle(0)));
    replies.push(failed(5));
    replies.push(ok(Output::Handle(0)));
    replies.push(failed(6));
    assert!(matches!(
        CudaContext::new(&mut driver(replies), 0),
        Err(Halt::Perform(Call::PrimaryCtxRelease(3)))
    ));
    let mut replies = made();
    replies.push(failed(5));
    replies.push(ok(Output::Handle(9)));
    replies.push(ok(Output::Nothing));
    assert!(matches!(
        CudaContext::new(&mut driver(replies), 0),
        Err(Halt::Failed(DriverError(5)))
    ));
    let replies = vec![ok(Output::Nothing), ok(Output::Number(3)), failed(8)];
    assert!(matches!(
        CudaContext::new(&mut driver(replies), 0),
        Err(Halt::Failed(DriverError(8)))
    ));
}
