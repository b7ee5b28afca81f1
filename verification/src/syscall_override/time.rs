//! Overrides of the clock system calls: `time` answers with a logical clock
//! that counts the calls, `clock_gettime` and `gettimeofday` answer with a
//! zeroed structure.

use vstd::prelude::*;
use crate::syscall_override::HandlerData;
use crate::setmem::{MemFill, fill_fits};

verus! {

#[verifier::external_type_specification]
#[verifier::external_body]
pub struct ExTimespec(libc::timespec);

#[verifier::external_type_specification]
#[verifier::external_body]
pub struct ExTimeval(libc::timeval);

/// The argument of `clock_gettime(clockid, tp)` that points to the
/// `struct timespec` to fill.
pub const CLOCK_GETTIME_TP_ARG: u64 = 1;

/// The argument of `gettimeofday(tv, tz)` that points to the
/// `struct timeval` to fill.
pub const GETTIMEOFDAY_TV_ARG: u64 = 0;

/// A logical clock: it reads 0, 1, 2, ... on successive readings.
pub struct LogicalClock {
    /// The value of the next reading.
    pub now: i64,
}

impl LogicalClock {
    /// A clock whose first reading is 0.
    pub fn new() -> (clock: LogicalClock)
        ensures
            clock.now == 0,
    {
        LogicalClock { now: 0 }
    }
}

/// Reads the clock and advances it by one.
pub fn logical_time(clock: &mut LogicalClock) -> (time: i64)
    requires
        old(clock).now < i64::MAX,
    ensures
        time == old(clock).now,
        final(clock).now == old(clock).now + 1,
{
    let time = clock.now;
    clock.now = time + 1;
    time
}

/// Entry of `time`: nothing needs to be noted.
pub fn time_atenter() -> (data: HandlerData)
    ensures
        data == HandlerData::NoData,
{
    HandlerData::NoData
}

/// Exit of `time`: the value that replaces the result in `RAX`, the next
/// reading of the logical clock.
pub fn time_atexit(clock: &mut LogicalClock) -> (rax: u64)
    requires
        old(clock).now < i64::MAX,
    ensures
        rax == old(clock).now as u64,
        final(clock).now == old(clock).now + 1,
{
    logical_time(clock) as u64
}

/// Exit of `time` for a clock that stands still: the result in `RAX`
/// becomes 0.
pub fn time_atexit_allzero() -> (rax: u64)
    ensures
        rax == 0,
{
    0
}

/// Entry of `clock_gettime`: notes the address of the `struct timespec`
/// that argument `CLOCK_GETTIME_TP_ARG` holds.
pub fn clock_gettime_atenter(tp: i64) -> (data: HandlerData)
    ensures
        data == HandlerData::Timespec(tp as usize),
{
    HandlerData::Timespec(tp as usize)
}

/// Exit of `clock_gettime`: zeroes the whole `struct timespec` noted at the
/// entry. Gives the fill of its bytes with the byte 0, or `None` where the
/// structure would reach past the end of the address space.
pub fn clock_gettime_atexit(data: &HandlerData) -> (fill: Option<MemFill>)
    requires
        data is Timespec,
    ensures
        fill is Some <==> fill_fits(data->0, vstd::layout::size_of::<libc::timespec>() as usize),
        fill matches Some(f) ==> f@.fresh(data->0, vstd::layout::size_of::<libc::timespec>() as usize, Some(0u8)),
{
    let buffer = match data {
        HandlerData::Timespec(ptr) => HandlerData::Buffer {
            bufptr: *ptr,
            buflen: core::mem::size_of::<libc::timespec>(),
        },
        _ => {
            assert(false);
            HandlerData::NoData
        },
    };
    MemFill::with_byte(&buffer, 0)
}

/// Entry of `gettimeofday`: notes the address of the `struct timeval` that
/// argument `GETTIMEOFDAY_TV_ARG` holds.
pub fn gettimeofday_atenter(tv: i64) -> (data: HandlerData)
    ensures
        data == HandlerData::Timespec(tv as usize),
{
    HandlerData::Timespec(tv as usize)
}

/// Exit of `gettimeofday`: zeroes the whole `struct timeval` noted at the
/// entry. Gives the fill of its bytes with the byte 0, or `None` where the
/// structure would reach past the end of the address space.
pub fn gettimeofday_atexit(data: &HandlerData) -> (fill: Option<MemFill>)
    requires
        data is Timespec,
    ensures
        fill is Some <==> fill_fits(data->0, vstd::layout::size_of::<libc::timeval>() as usize),
        fill matches Some(f) ==> f@.fresh(data->0, vstd::layout::size_of::<libc::timeval>() as usize, Some(0u8)),
{
    let buffer = match data {
        HandlerData::Timespec(ptr) => HandlerData::Buffer {
            bufptr: *ptr,
            buflen: core::mem::size_of::<libc::timeval>(),
        },
        _ => {
            assert(false);
            HandlerData::NoData
        },
    };
    MemFill::with_byte(&buffer, 0)
}

} // verus!
