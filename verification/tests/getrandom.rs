use rand::{Rng, SeedableRng, StdRng};
use randmockery::syscall_override::getrandom::{atenter, random_byte, seeded_rng};
use randmockery::syscall_override::HandlerData;

#[test]
fn getrandom_enter_notes_buffer() {
    assert_eq!(
        atenter(0x1000, 32),
        HandlerData::Buffer { bufptr: 0x1000, buflen: 32 }
    );
    assert_eq!(
        atenter(-1, 0),
        HandlerData::Buffer { bufptr: usize::MAX, buflen: 0 }
    );
}

#[test]
fn random_bytes_follow_the_fixed_seed() {
    let mut ours = seeded_rng();
    let seed: &[usize] = &[1, 2, 3, 4];
    let mut reference = StdRng::from_seed(seed);
    let mut seen = Vec::new();
    for _ in 0..64 {
        let b = random_byte(&mut ours);
        assert_eq!(b, reference.gen::<u8>());
        seen.push(b);
    }
    // the same seed gives the same bytes on every run
    let mut again = seeded_rng();
    for b in seen.iter() {
        assert_eq!(random_byte(&mut again), *b);
    }
    // and they are not all the same
    assert!(seen.iter().any(|b| *b != seen[0]));
}
