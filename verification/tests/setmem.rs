use randmockery::setmem::{FillStep, MemFill};
use randmockery::syscall_override::HandlerData;
use randmockery::word::{bytes_of_word, splice_low_bytes, word_from_bytes};
use std::collections::HashMap;

/// Runs a fill against a simulated memory, handing out bytes 1, 2, 3, ...
/// Returns the memory, the number of bytes asked for and the steps taken.
fn run_fill(mem: &mut HashMap<usize, u8>, bufptr: usize, buflen: usize) -> (usize, Vec<FillStep>) {
    let mut fill = MemFill::new(&HandlerData::Buffer { bufptr, buflen }).unwrap();
    let mut asked = 0usize;
    let mut steps = Vec::new();
    loop {
        let step = fill.step();
        steps.push(step);
        match step {
            FillStep::NeedByte => {
                asked += 1;
                fill.supply_byte(asked as u8);
            }
            FillStep::Poke { addr, word } => {
                for (i, b) in bytes_of_word(word).iter().enumerate() {
                    mem.insert(addr + i, *b);
                }
                fill.poked();
            }
            FillStep::Peek { addr } => {
                let bytes: Vec<u8> = (0..8).map(|i| *mem.get(&(addr + i)).unwrap_or(&0xee)).collect();
                fill.peeked(word_from_bytes(&bytes));
            }
            FillStep::Done => return (asked, steps),
        }
        assert!(steps.len() < 1000);
    }
}

fn check_fill(bufptr: usize, buflen: usize) {
    let mut mem = HashMap::new();
    for a in bufptr.saturating_sub(16)..bufptr + buflen + 16 {
        mem.insert(a, 0xaa);
    }
    let (asked, steps) = run_fill(&mut mem, bufptr, buflen);
    assert_eq!(asked, buflen);
    for a in bufptr.saturating_sub(16)..bufptr + buflen + 16 {
        let expected = if a >= bufptr && a < bufptr + buflen {
            (a - bufptr + 1) as u8
        } else {
            0xaa
        };
        assert_eq!(mem[&a], expected, "byte at {:#x} of fill {:#x}+{}", a, bufptr, buflen);
    }
    // exactly one peek, at the last word
    let peeks: Vec<&FillStep> = steps.iter().filter(|s| matches!(s, FillStep::Peek { .. })).collect();
    assert_eq!(peeks.len(), 1);
    assert_eq!(steps.last(), Some(&FillStep::Done));
}

#[test]
fn fill_buffers_of_all_small_lengths() {
    for buflen in 0..40 {
        check_fill(0x1000, buflen);
        check_fill(0x1003, buflen);
    }
}

#[test]
fn fill_of_sixteen_bytes_order() {
    let mut mem = HashMap::new();
    let (asked, steps) = run_fill(&mut mem, 0x2000, 16);
    assert_eq!(asked, 16);
    let mut expected = vec![FillStep::NeedByte; 8];
    expected.push(FillStep::Poke { addr: 0x2000, word: 0x0807060504030201 });
    expected.push(FillStep::Peek { addr: 0x2008 });
    expected.extend(vec![FillStep::NeedByte; 8]);
    expected.push(FillStep::Poke { addr: 0x2008, word: 0x100f0e0d0c0b0a09 });
    expected.push(FillStep::Done);
    assert_eq!(steps, expected);
}

#[test]
fn empty_fill_rewrites_the_word_unchanged() {
    let mut mem = HashMap::new();
    for i in 0..8 {
        mem.insert(0x3000 + i, i as u8 + 0x10);
    }
    let (asked, steps) = run_fill(&mut mem, 0x3000, 0);
    assert_eq!(asked, 0);
    assert_eq!(
        steps,
        vec![
            FillStep::Peek { addr: 0x3000 },
            FillStep::Poke { addr: 0x3000, word: 0x1716151413121110 },
            FillStep::Done
        ]
    );
}

#[test]
fn fill_that_would_wrap_is_refused() {
    assert!(MemFill::new(&HandlerData::Buffer { bufptr: usize::MAX - 4, buflen: 2 }).is_none());
    assert!(MemFill::new(&HandlerData::Buffer { bufptr: usize::MAX - 16, buflen: 17 }).is_none());
    assert!(MemFill::new(&HandlerData::Buffer { bufptr: usize::MAX - 16, buflen: 9 }).is_some());
    assert!(MemFill::new(&HandlerData::Buffer { bufptr: usize::MAX - 16, buflen: 8 }).is_some());
    assert!(MemFill::new(&HandlerData::Buffer { bufptr: usize::MAX - 8, buflen: 0 }).is_some());
    assert!(MemFill::new(&HandlerData::Buffer { bufptr: usize::MAX - 7, buflen: 0 }).is_none());
}

#[test]
fn words_are_little_endian() {
    assert_eq!(word_from_bytes(&[1, 2, 3, 4, 5, 6, 7, 8]), 0x0807060504030201);
    assert_eq!(bytes_of_word(0x0807060504030201), vec![1, 2, 3, 4, 5, 6, 7, 8]);
    assert_eq!(splice_low_bytes(0x1111111111111111, &[0xaa, 0xbb]), 0x111111111111bbaa);
    assert_eq!(splice_low_bytes(0x1111111111111111, &[]), 0x1111111111111111);
    assert_eq!(splice_low_bytes(0, &[1, 2, 3, 4, 5, 6, 7, 8]), 0x0807060504030201);
}

#[test]
fn fill_with_a_fixed_byte_takes_only_that_byte() {
    let mut fill = MemFill::with_byte(&HandlerData::Buffer { bufptr: 0x6001, buflen: 11 }, 0).unwrap();
    assert_eq!(fill.constant(), Some(0));
    assert_eq!(MemFill::new(&HandlerData::Buffer { bufptr: 0, buflen: 1 }).unwrap().constant(), None);
    let mut mem: HashMap<usize, u8> = (0x5ff0..0x6020).map(|a| (a, 0xcc)).collect();
    let mut asked = 0;
    loop {
        match fill.step() {
            FillStep::NeedByte => {
                asked += 1;
                fill.supply_byte(0);
            }
            FillStep::Poke { addr, word } => {
                for (i, b) in bytes_of_word(word).iter().enumerate() {
                    mem.insert(addr + i, *b);
                }
                fill.poked();
            }
            FillStep::Peek { addr } => {
                let bytes: Vec<u8> = (0..8).map(|i| mem[&(addr + i)]).collect();
                fill.peeked(word_from_bytes(&bytes));
            }
            FillStep::Done => break,
        }
    }
    assert_eq!(asked, 11);
    for a in 0x5ff0..0x6020 {
        let expected = if (0x6001..0x600c).contains(&a) { 0 } else { 0xcc };
        assert_eq!(mem[&a], expected);
    }
}
