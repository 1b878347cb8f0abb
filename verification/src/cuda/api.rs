//! Operations of the driver that no context stands behind.
use crate::cuda::context::{
    self, sm_name, CLOCK_RATE, COMPUTE_CAPABILITY_MAJOR, COMPUTE_CAPABILITY_MINOR,
};
use crate::cuda::driver::{self, Call, Driver, Halt, Launch, Output, Reply, Run};
use crate::cuda::launch::{self, encode_attributes, LaunchAttributes};
use crate::list::List;
use vstd::prelude::*;

verus! {

/// Initializes the driver.
pub fn init(driver: &mut Driver, flags: u32) -> (r: Result<(), Halt>)
    ensures
        driver::follows(r, final(driver).left, driver::done(old(driver).left, Call::Init(flags))),
{
    driver.call_for_nothing(Call::Init(flags))
}

/// The version that a context reports: what the driver wrote, whether its call succeeded or not.
pub open spec fn version_read(tape: List<Reply>, ctx: u64) -> Run<u32> {
    match driver::answered(tape, Call::CtxGetApiVersion(ctx)) {
        Err(halt) => Err(halt),
        Ok((tape, (_, Output::Flags(version)))) => Ok((tape, version)),
        Ok(_) => Err(Halt::OutOfStep),
    }
}

/// The version of the interface that a context was made for.
pub fn api_version(driver: &mut Driver, ctx: u64) -> (r: Result<u32, Halt>)
    ensures
        driver::follows(r, final(driver).left, version_read(old(driver).left, ctx)),
{
    let (_, output) = driver.try_call(Call::CtxGetApiVersion(ctx))?;
    match output {
        Output::Flags(version) => Ok(version),
        _ => Err(Halt::OutOfStep),
    }
}

/// Launches a kernel.
pub fn launch_kernel(driver: &mut Driver, launch: Launch, args: &List<u64>) -> (r: Result<(), Halt>)
    ensures
        driver::follows(
            r,
            final(driver).left,
            driver::done(old(driver).left, Call::LaunchKernel { launch, args: *args }),
        ),
{
    driver.call_for_nothing(Call::LaunchKernel { launch, args: args.dup() })
}

/// Launches a kernel with attributes.
pub fn launch_kernel_with_attributes(
    driver: &mut Driver,
    launch: Launch,
    attributes: LaunchAttributes,
    args: &List<u64>,
) -> (r: Result<(), Halt>)
    ensures
        driver::follows(
            r,
            final(driver).left,
            driver::done(
                old(driver).left,
                Call::LaunchKernelEx {
                    launch,
                    attributes: launch::encoded_attributes(attributes),
                    args: *args,
                },
            ),
        ),
{
    driver.call_for_nothing(
        Call::LaunchKernelEx {
            launch,
            attributes: encode_attributes(attributes),
            args: args.dup(),
        },
    )
}

// Memory.

/// Allocates device memory in the order of a stream.
pub fn malloc_async(driver: &mut Driver, num_bytes: usize, stream: u64) -> (r: Result<u64, Halt>)
    ensures
        driver::follows(
            r,
            final(driver).left,
            driver::handle(old(driver).left, Call::MallocAsync { num_bytes, stream }),
        ),
{
    driver.call_for_handle(Call::MallocAsync { num_bytes, stream })
}

/// Allocates device memory out of a pool in the order of a stream.
pub fn malloc_from_pool_async(
    driver: &mut Driver,
    num_bytes: usize,
    pool: u64,
    stream: u64,
) -> (r: Result<u64, Halt>)
    ensures
        driver::follows(
            r,
            final(driver).left,
            driver::handle(old(driver).left, Call::MallocFromPoolAsync { num_bytes, pool, stream }),
        ),
{
    driver.call_for_handle(Call::MallocFromPoolAsync { num_bytes, pool, stream })
}

/// Sets bytes of device memory in the order of a stream.
pub fn memset_d8_async(
    driver: &mut Driver,
    dptr: u64,
    value: u8,
    num_bytes: usize,
    stream: u64,
) -> (r: Result<(), Halt>)
    ensures
        driver::follows(
            r,
            final(driver).left,
            driver::done(
                old(driver).left,
                Call::MemsetD8Async { dptr, value, num_bytes, stream },
            ),
        ),
{
    driver.call_for_nothing(Call::MemsetD8Async { dptr, value, num_bytes, stream })
}

/// Frees device memory in the order of a stream.
pub fn free_async(driver: &mut Driver, dptr: u64, stream: u64) -> (r: Result<(), Halt>)
    ensures
        driver::follows(
            r,
            final(driver).left,
            driver::done(old(driver).left, Call::FreeAsync { dptr, stream }),
        ),
{
    driver.call_for_nothing(Call::FreeAsync { dptr, stream })
}

/// Copies elements from the host to the device in the order of a stream.
pub fn memcpy_htod_async(
    driver: &mut Driver,
    dst: u64,
    src: u64,
    num_elements: usize,
    element_size: usize,
    stream: u64,
) -> (r: Result<(), Halt>)
    requires
        num_elements * element_size <= usize::MAX,
    ensures
        driver::follows(
            r,
            final(driver).left,
            driver::done(
                old(driver).left,
                Call::MemcpyHtodAsync {
                    dst,
                    src,
                    num_bytes: (num_elements * element_size) as usize,
                    stream,
                },
            ),
        ),
{
    let num_bytes: usize = num_elements * element_size;
    driver.call_for_nothing(Call::MemcpyHtodAsync { dst, src, num_bytes, stream })
}

/// Copies elements from the device to the host in the order of a stream.
pub fn memcpy_dtoh_async(
    driver: &mut Driver,
    dst: u64,
    src: u64,
    num_elements: usize,
    element_size: usize,
    stream: u64,
) -> (r: Result<(), Halt>)
    requires
        num_elements * element_size <= usize::MAX,
    ensures
        driver::follows(
            r,
            final(driver).left,
            driver::done(
                old(driver).left,
                Call::MemcpyDtohAsync {
                    dst,
                    src,
                    num_bytes: (num_elements * element_size) as usize,
                    stream,
                },
            ),
        ),
{
    let num_bytes: usize = num_elements * element_size;
    driver.call_for_nothing(Call::MemcpyDtohAsync { dst, src, num_bytes, stream })
}

/// Copies elements from one place on the device to another in the order of a stream.
pub fn memcpy_dtod_async(
    driver: &mut Driver,
    dst: u64,
    src: u64,
    num_elements: usize,
    element_size: usize,
    stream: u64,
) -> (r: Result<(), Halt>)
    requires
        num_elements * element_size <= usize::MAX,
    ensures
        driver::follows(
            r,
            final(driver).left,
            driver::done(
                old(driver).left,
                Call::MemcpyDtodAsync {
                    dst,
                    src,
                    num_bytes: (num_elements * element_size) as usize,
                    stream,
                },
            ),
        ),
{
    let num_bytes: usize = num_elements * element_size;
    driver.call_for_nothing(Call::MemcpyDtodAsync { dst, src, num_bytes, stream })
}

// Attributes of devices.

fn get_device_attribute(driver: &mut Driver, device: i32, attribute: u32) -> (r: Result<i32, Halt>)
    ensures
        driver::follows(
            r,
            final(driver).left,
            driver::number(old(driver).left, Call::DeviceGetAttribute { device, attribute }),
        ),
{
    driver.call_for_number(Call::DeviceGetAttribute { device, attribute })
}

/// The clock rate of a device in kilohertz.
pub fn get_device_clock_rate(driver: &mut Driver, device: i32) -> (r: Result<i32, Halt>)
    ensures
        driver::follows(
            r,
            final(driver).left,
            driver::number(
                old(driver).left,
                Call::DeviceGetAttribute { device, attribute: CLOCK_RATE },
            ),
        ),
{
    get_device_attribute(driver, device, CLOCK_RATE)
}

/// The compute capability of a device: first the major number is read, then the minor one.
pub open spec fn capability_read(tape: List<Reply>, device: i32) -> Run<(i32, i32)> {
    match driver::number(
        tape,
        Call::DeviceGetAttribute { device, attribute: COMPUTE_CAPABILITY_MAJOR },
    ) {
        Err(halt) => Err(halt),
        Ok((tape, major)) => match driver::number(
            tape,
            Call::DeviceGetAttribute { device, attribute: COMPUTE_CAPABILITY_MINOR },
        ) {
            Err(halt) => Err(halt),
            Ok((tape, minor)) => Ok((tape, (major, minor))),
        },
    }
}

/// The name of the architecture of a device.
pub fn get_device_sm_name(driver: &mut Driver, device: i32) -> (r: Result<String, Halt>)
    ensures
        match capability_read(old(driver).left, device) {
            Ok((left, (major, minor))) => {
                &&& final(driver).left == left
                &&& r matches Ok(name) && name@ == context::sm_text(major as int, minor as int)
            },
            Err(halt) => r == Err::<String, Halt>(halt),
        },
{
    let major = get_device_attribute(driver, device, COMPUTE_CAPABILITY_MAJOR)?;
    let minor = get_device_attribute(driver, device, COMPUTE_CAPABILITY_MINOR)?;
    Ok(sm_name(major, minor))
}

} // verus!
