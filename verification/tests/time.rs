use randmockery::syscall_override::time::{
    clock_gettime_atenter, clock_gettime_atexit, gettimeofday_atenter, gettimeofday_atexit,
    logical_time, time_atenter, time_atexit, time_atexit_allzero, LogicalClock,
};
use randmockery::setmem::{FillStep, MemFill};
use randmockery::syscall_override::HandlerData;
use randmockery::word::{bytes_of_word, word_from_bytes};
use std::collections::HashMap;

#[test]
fn time_test_logical_time() {
    let mut clock = LogicalClock::new();
    for i in 0..5 {
        assert_eq!(logical_time(&mut clock), i);
    }
}

#[test]
fn logical_time_continues_from_any_reading() {
    let mut clock = LogicalClock { now: 41 };
    assert_eq!(logical_time(&mut clock), 41);
    assert_eq!(logical_time(&mut clock), 42);
    assert_eq!(clock.now, 43);
}

#[test]
fn time_exit_writes_successive_readings() {
    let mut clock = LogicalClock::new();
    assert_eq!(time_atenter(), HandlerData::NoData);
    assert_eq!(time_atexit(&mut clock), 0);
    assert_eq!(time_atexit(&mut clock), 1);
    assert_eq!(time_atexit(&mut clock), 2);
    assert_eq!(time_atexit_allzero(), 0);
}

/// Runs a fill against a simulated memory; returns what it asked for.
fn run_zero_fill(mem: &mut HashMap<usize, u8>, mut fill: MemFill) -> usize {
    let mut asked = 0usize;
    loop {
        match fill.step() {
            FillStep::NeedByte => {
                asked += 1;
                let b = fill.constant().unwrap();
                fill.supply_byte(b);
            }
            FillStep::Poke { addr, word } => {
                for (i, b) in bytes_of_word(word).iter().enumerate() {
                    mem.insert(addr + i, *b);
                }
                fill.poked();
            }
            FillStep::Peek { addr } => {
                let bytes: Vec<u8> = (0..8).map(|i| mem[&(addr + i)]).collect();
                fill.peeked(word_from_bytes(&bytes));
            }
            FillStep::Done => return asked,
        }
    }
}

#[test]
fn clock_gettime_zeroes_whole_timespec() {
    let data = clock_gettime_atenter(0x7ffd_1000);
    assert_eq!(data, HandlerData::Timespec(0x7ffd_1000));
    let fill = clock_gettime_atexit(&data).unwrap();
    assert_eq!(fill.constant(), Some(0));
    let mut mem = HashMap::new();
    for a in 0x7ffd_0ff0..0x7ffd_1020 {
        mem.insert(a, 0x55u8);
    }
    assert_eq!(run_zero_fill(&mut mem, fill), 16);
    for a in 0x7ffd_0ff0..0x7ffd_1020 {
        let expected = if (0x7ffd_1000..0x7ffd_1010).contains(&a) { 0 } else { 0x55 };
        assert_eq!(mem[&a], expected);
    }
}

#[test]
fn gettimeofday_zeroes_whole_timeval() {
    let data = gettimeofday_atenter(0x5003);
    assert_eq!(data, HandlerData::Timespec(0x5003));
    let fill = gettimeofday_atexit(&data).unwrap();
    assert_eq!(fill.constant(), Some(0));
    let mut mem = HashMap::new();
    for a in 0x4ff0..0x5020 {
        mem.insert(a, 0x77u8);
    }
    assert_eq!(run_zero_fill(&mut mem, fill), std::mem::size_of::<libc::timeval>());
    assert_eq!(std::mem::size_of::<libc::timeval>(), 16);
    for a in 0x4ff0..0x5020 {
        let expected = if (0x5003..0x5013).contains(&a) { 0 } else { 0x77 };
        assert_eq!(mem[&a], expected);
    }
}

#[test]
fn time_structures_near_the_top_are_refused() {
    assert!(clock_gettime_atexit(&HandlerData::Timespec(usize::MAX - 8)).is_none());
    assert!(gettimeofday_atexit(&HandlerData::Timespec(usize::MAX - 8)).is_none());
}
