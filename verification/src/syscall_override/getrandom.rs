//! Override of the `getrandom` system call, which serves both getrandom(2)
//! and getentropy(2): the buffer is filled with bytes of a generator seeded
//! with a fixed seed, so that every run sees the same "random" bytes.

use vstd::prelude::*;
use crate::syscall_override::HandlerData;
use rand::StdRng;

verus! {

#[verifier::external_type_specification]
#[verifier::external_body]
pub struct ExStdRng(rand::StdRng);

/// The argument of `getrandom(buf, buflen, flags)` that points to the buffer.
pub const GETRANDOM_BUF_ARG: u64 = 0;

/// The argument of `getrandom(buf, buflen, flags)` that holds its length.
pub const GETRANDOM_BUFLEN_ARG: u64 = 1;

/// The generator that `rand::SeedableRng::from_seed` builds for
/// `rand::StdRng` from `seed`. On the 64-bit targets that this crate is for,
/// `StdRng` is rand's ISAAC-64 generator, whose state is a function of the
/// seed alone.
pub uninterp spec fn std_rng_from_seed_result(seed: Seq<usize>) -> StdRng;

/// The byte that `rand::Rng::gen::<u8>` draws from a `rand::StdRng` in
/// state `rng`, and the state it leaves: both are functions of `rng` alone.
pub uninterp spec fn std_rng_gen_u8_result(rng: StdRng) -> (u8, StdRng);

/// Calls `rand::SeedableRng::from_seed` for `rand::StdRng` with `seed`.
/// Claimed: the generator is the one that the seed determines
/// (`std_rng_from_seed_result`); nothing is claimed of its state beyond
/// that name.
#[verifier::external_body]
fn std_rng_from_seed(seed: &[usize]) -> (rng: StdRng)
    ensures
        rng == std_rng_from_seed_result(seed@),
{
    <StdRng as rand::SeedableRng<&[usize]>>::from_seed(seed)
}

/// Calls `rand::Rng::gen::<u8>` on `rng`. Claimed: the byte and the state
/// left behind are the ones that the state before the call determines
/// (`std_rng_gen_u8_result`); which byte that is, is not stated.
#[verifier::external_body]
fn std_rng_gen_u8(rng: &mut StdRng) -> (byte: u8)
    ensures
        (byte, *final(rng)) == std_rng_gen_u8_result(*old(rng)),
{
    <StdRng as rand::Rng>::gen::<u8>(rng)
}

/// The fixed seed of the generator of the bytes that `getrandom` hands out.
pub open spec fn fixed_seed() -> Seq<usize> {
    seq![1usize, 2usize, 3usize, 4usize]
}

/// The state of the generator `rng` after `n` bytes were drawn from it.
pub open spec fn rng_after(rng: StdRng, n: nat) -> StdRng
    decreases n,
{
    if n == 0 {
        rng
    } else {
        std_rng_gen_u8_result(rng_after(rng, (n - 1) as nat)).1
    }
}

/// The first `n` bytes that the generator `rng` hands out.
pub open spec fn rng_stream(rng: StdRng, n: nat) -> Seq<u8>
    decreases n,
{
    if n == 0 {
        Seq::empty()
    } else {
        rng_stream(rng, (n - 1) as nat).push(
            std_rng_gen_u8_result(rng_after(rng, (n - 1) as nat)).0,
        )
    }
}

/// The generator of the bytes that `getrandom` hands out, seeded with the
/// fixed seed `[1, 2, 3, 4]`: every call gives a generator in the same
/// state.
pub fn seeded_rng() -> (rng: StdRng)
    ensures
        rng == std_rng_from_seed_result(fixed_seed()),
{
    let seed: [usize; 4] = [1, 2, 3, 4];
    assert(seed@ =~= fixed_seed());
    std_rng_from_seed(&seed)
}

/// The next byte of `rng`, which then moves on by one byte.
pub fn random_byte(rng: &mut StdRng) -> (byte: u8)
    ensures
        byte == std_rng_gen_u8_result(*old(rng)).0,
        *final(rng) == std_rng_gen_u8_result(*old(rng)).1,
{
    std_rng_gen_u8(rng)
}

/// Drawing one more byte from a generator that handed out `n` bytes
/// extends its stream by that byte and moves it on by one: so the bytes that
/// successive `random_byte` calls hand out from `seeded_rng()` are
/// `rng_stream(std_rng_from_seed_result(fixed_seed()), n)`, the same on every
/// run and on every thread that starts its own generator.
pub proof fn lemma_stream_extends(rng: StdRng, n: nat)
    ensures
        rng_stream(rng, n + 1) == rng_stream(rng, n).push(
            std_rng_gen_u8_result(rng_after(rng, n)).0,
        ),
        rng_after(rng, n + 1) == std_rng_gen_u8_result(rng_after(rng, n)).1,
        rng_stream(rng, n).len() == n,
    decreases n,
{
    if n > 0 {
        lemma_stream_extends(rng, (n - 1) as nat);
    }
}

/// Entry of `getrandom`: notes the buffer that the call fills, from
/// argument `GETRANDOM_BUF_ARG` (its address) and `GETRANDOM_BUFLEN_ARG`
/// (its length).
pub fn atenter(buf: i64, buflen: i64) -> (data: HandlerData)
    ensures
        data == (HandlerData::Buffer { bufptr: buf as usize, buflen: buflen as usize }),
{
    HandlerData::Buffer { bufptr: buf as usize, buflen: buflen as usize }
}

} // verus!
