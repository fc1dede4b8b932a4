//! Guest time: counter frequencies and the conversion of host clock readings into the values
//! the guest's time calls report. The clocks are read by the caller and handed in as a whole
//! number of seconds and the nanoseconds past it.
use vstd::prelude::*;

verus! {

/// The frequency of the guest timestamp counter: the 1.6 GHz of its CPU.
pub const TSC_FREQUENCY: u64 = 1_600_000_000;

/// The frequency of the process time counter: it counts nanoseconds.
pub const PROCESS_TIME_COUNTER_FREQUENCY: u64 = 1_000_000_000;

/// `CLOCK_REALTIME`.
pub const CLOCK_REALTIME: i32 = 0;

/// `CLOCK_MONOTONIC`.
pub const CLOCK_MONOTONIC: i32 = 4;

/// A clock reading: whole seconds and the nanoseconds past them.
pub open spec fn valid_reading(subsec_nanos: u32) -> bool {
    subsec_nanos < 1_000_000_000
}

/// Whole microseconds in a reading.
pub open spec fn total_micros(secs: u64, subsec_nanos: u32) -> int {
    secs * 1_000_000 + subsec_nanos / 1000
}

/// Whole nanoseconds in a reading.
pub open spec fn total_nanos(secs: u64, subsec_nanos: u32) -> int {
    secs * 1_000_000_000 + subsec_nanos
}

/// `sceKernelGetTscFrequency`.
pub fn sce_kernel_get_tsc_frequency() -> (r: u64)
    ensures
        r == TSC_FREQUENCY,
{
    TSC_FREQUENCY
}

/// `sceKernelGetProcessTimeCounterFrequency`.
pub fn sce_kernel_get_process_time_counter_frequency() -> (r: u64)
    ensures
        r == PROCESS_TIME_COUNTER_FREQUENCY,
{
    PROCESS_TIME_COUNTER_FREQUENCY
}

/// `sceKernelGetProcessTime`: the time since process start, in whole microseconds, truncated to
/// 64 bits.
pub fn sce_kernel_get_process_time(elapsed_secs: u64, elapsed_subsec_nanos: u32) -> (r: u64)
    requires
        valid_reading(elapsed_subsec_nanos),
    ensures
        r == total_micros(elapsed_secs, elapsed_subsec_nanos) as u64,
{
    let micros: u128 = elapsed_secs as u128 * 1_000_000 + (elapsed_subsec_nanos / 1000) as u128;
    micros as u64
}

/// `sceKernelGetProcessTimeCounter`: the time since process start, in nanoseconds, truncated to
/// 64 bits.
pub fn sce_kernel_get_process_time_counter(elapsed_secs: u64, elapsed_subsec_nanos: u32) -> (r:
    u64)
    requires
        valid_reading(elapsed_subsec_nanos),
    ensures
        r == total_nanos(elapsed_secs, elapsed_subsec_nanos) as u64,
{
    let nanos: u128 = elapsed_secs as u128 * 1_000_000_000 + elapsed_subsec_nanos as u128;
    nanos as u64
}

/// `sceKernelClockGettime`: for `CLOCK_REALTIME` writes out the wall-clock reading, for
/// `CLOCK_MONOTONIC` the time since process start, and returns 0; any other clock gives -1 and
/// leaves both outputs unchanged.
pub fn sce_kernel_clock_gettime(
    clock_id: i32,
    realtime_secs: u64,
    realtime_subsec_nanos: u32,
    elapsed_secs: u64,
    elapsed_subsec_nanos: u32,
    sec_out: &mut i64,
    nsec_out: &mut i64,
) -> (r: i32)
    ensures
        clock_id == CLOCK_REALTIME ==> r == 0 && *final(sec_out) == realtime_secs as i64
            && *final(nsec_out) == realtime_subsec_nanos as i64,
        clock_id == CLOCK_MONOTONIC ==> r == 0 && *final(sec_out) == elapsed_secs as i64
            && *final(nsec_out) == elapsed_subsec_nanos as i64,
        clock_id != CLOCK_REALTIME && clock_id != CLOCK_MONOTONIC ==> r == -1 && *final(sec_out)
            == *old(sec_out) && *final(nsec_out) == *old(nsec_out),
{
    if clock_id == CLOCK_REALTIME {
        *sec_out = realtime_secs as i64;
        *nsec_out = realtime_subsec_nanos as i64;
        0
    } else if clock_id == CLOCK_MONOTONIC {
        *sec_out = elapsed_secs as i64;
        *nsec_out = elapsed_subsec_nanos as i64;
        0
    } else {
        -1
    }
}

/// `sceKernelGettimeofday`: writes out the wall-clock seconds and the whole microseconds past
/// them; returns 0.
pub fn sce_kernel_gettimeofday(
    now_secs: u64,
    now_subsec_nanos: u32,
    sec_out: &mut i64,
    usec_out: &mut i64,
) -> (r: i32)
    ensures
        r == 0,
        *final(sec_out) == now_secs as i64,
        *final(usec_out) == (now_subsec_nanos / 1000) as i64,
{
    *sec_out = now_secs as i64;
    *usec_out = (now_subsec_nanos / 1000) as i64;
    0
}

} // verus!
