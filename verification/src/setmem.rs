//! Filling a buffer of the traced process with generated bytes, one ptrace
//! word at a time.
//!
//! The buffer `[bufptr, bufptr + buflen)` is written word by word from its
//! start. Every word that lies wholly before the last one is made of eight
//! fresh bytes. The last word is first read back, its first bytes are
//! replaced by the remaining fresh bytes and the bytes past the end of the
//! buffer are kept, and it is written again. The bytes are asked for one at a
//! time, in buffer order, so that a generator is called exactly as often as
//! the buffer is long.
//!
//! `MemFill` holds the decisions; the caller performs each `FillStep` (it
//! asks its generator for a byte, or peeks or pokes a word) and reports back.

use vstd::prelude::*;
use crate::word::{word_bytes, word_value, spliced_word, lemma_word_bytes_of_value, word_from_bytes, splice_low_bytes, WORD_SIZE};
use crate::syscall_override::HandlerData;

verus! {

/// Memory of the traced process, byte by byte.
pub type Memory = spec_fn(int) -> u8;

/// `mem` after the word `w` is poked at `addr`.
pub open spec fn write_word(mem: Memory, addr: int, w: u64) -> Memory {
    |a: int|
        if addr <= a < addr + 8 {
            word_bytes(w)[a - addr]
        } else {
            mem(a)
        }
}

/// The word that a peek at `addr` reads from `mem`.
pub open spec fn read_word(mem: Memory, addr: int) -> u64 {
    word_value(Seq::new(8, |i: int| mem(addr + i)))
}

/// `mem` after the pokes `writes` are made in order.
pub open spec fn apply_writes(mem: Memory, writes: Seq<(int, u64)>) -> Memory
    decreases writes.len(),
{
    if writes.len() == 0 {
        mem
    } else {
        write_word(apply_writes(mem, writes.drop_last()), writes.last().0, writes.last().1)
    }
}

/// `mem` with `bytes` stored from `base` on.
pub open spec fn filled(mem: Memory, base: int, bytes: Seq<u8>) -> Memory {
    |a: int|
        if base <= a < base + bytes.len() {
            bytes[a - base]
        } else {
            mem(a)
        }
}

/// How many words of a buffer of `len` bytes are written whole, before the
/// last word.
pub open spec fn full_count(len: int) -> int {
    if len <= 0 {
        0
    } else {
        (len - 1) / 8
    }
}

/// The pokes of the first `k` whole words, made of `bytes` in order.
pub open spec fn full_writes(base: int, bytes: Seq<u8>, k: int) -> Seq<(int, u64)> {
    Seq::new(
        k as nat,
        |i: int| (base + 8 * i, word_value(bytes.subrange(8 * i, 8 * i + 8))),
    )
}

/// Every poke that fills the `len` bytes from `base` with `bytes`, where
/// `old` is the word read back at the place of the last word.
pub open spec fn fill_plan(base: int, len: int, bytes: Seq<u8>, old: u64) -> Seq<(int, u64)> {
    let k = full_count(len);
    full_writes(base, bytes, k).push(
        (base + 8 * k, spliced_word(old, bytes.subrange(8 * k, len))),
    )
}

/// The buffer can be walked word by word without leaving the address space:
/// every word that the fill touches ends below `usize::MAX`.
pub open spec fn fill_fits(bufptr: usize, buflen: usize) -> bool {
    bufptr + 8 * (full_count(buflen as int) + 1) <= usize::MAX
}

/// What the caller of a `MemFill` is to do next.
#[derive(Clone, Copy, Debug, PartialEq, Eq, Structural)]
pub enum FillStep {
    /// Produce the next byte of the fill and hand it to `supply_byte`.
    NeedByte,
    /// Poke `word` at `addr`, then call `poked`.
    Poke { addr: usize, word: u64 },
    /// Peek the word at `addr` and hand it to `peeked`.
    Peek { addr: usize },
    /// The buffer is filled.
    Done,
}

/// What a buffer fill has done so far, as the contracts of `MemFill` see it.
pub ghost struct FillState {
    /// Where the buffer starts.
    pub base: int,
    /// Address of the word that is being made.
    pub curr: usize,
    /// One past the last byte of the buffer.
    pub end: usize,
    /// The bytes gathered for the word at `curr`.
    pub pending: Seq<u8>,
    /// The word read back at the place of the last word, once it was read.
    pub tail: Option<u64>,
    /// Whether the last word was written.
    pub done: bool,
    /// The byte that every byte of the fill must be, for a fill with one
    /// fixed byte (such as a zero fill).
    pub constant: Option<u8>,
    /// Every byte supplied so far, in order.
    pub taken: Seq<u8>,
    /// Every poke made so far, in order.
    pub emitted: Seq<(int, u64)>,
}

impl FillState {
    /// The length of the buffer.
    pub open spec fn len(self) -> int {
        self.end - self.base
    }

    /// How many whole words were written.
    pub open spec fn words_done(self) -> int {
        (self.curr - self.base) / 8
    }

    /// The fill is consistent: what was supplied and poked so far is a
    /// prefix of the fill of the buffer, and every byte supplied to a fill
    /// with a fixed byte is that byte.
    pub open spec fn wf(self) -> bool {
        let k = self.words_done();
        let len = self.len();
        &&& self.base <= self.curr <= self.end
        &&& (self.curr - self.base) % 8 == 0
        &&& self.base + 8 * (full_count(len) + 1) <= usize::MAX
        &&& 0 <= self.base
        &&& self.constant matches Some(b) ==> forall|i: int|
            0 <= i < self.taken.len() ==> #[trigger] self.taken[i] == b
        &&& if self.done {
            &&& self.tail is Some
            &&& k == full_count(len)
            &&& self.taken.len() == len
            &&& self.emitted == fill_plan(self.base, len, self.taken, self.tail->0)
        } else {
            &&& k <= full_count(len)
            &&& self.taken.len() == 8 * k + self.pending.len()
            &&& self.taken.skip(8 * k) == self.pending
            &&& self.emitted == full_writes(self.base, self.taken, k)
            &&& match self.tail {
                None => {
                    &&& self.pending.len() <= 8
                    &&& k == full_count(len) ==> self.pending.len() == 0
                },
                Some(_) => {
                    &&& k == full_count(len)
                    &&& self.pending.len() <= len - 8 * k
                },
            }
        }
    }

    /// The step that the fill asks for in this state.
    pub open spec fn next_step(self) -> FillStep {
        let k = self.words_done();
        let len = self.len();
        if self.done {
            FillStep::Done
        } else {
            match self.tail {
                None => if k < full_count(len) {
                    if self.pending.len() < 8 {
                        FillStep::NeedByte
                    } else {
                        FillStep::Poke { addr: self.curr, word: word_value(self.pending) }
                    }
                } else {
                    FillStep::Peek { addr: self.curr }
                },
                Some(old) => if self.pending.len() < len - 8 * k {
                    FillStep::NeedByte
                } else {
                    FillStep::Poke { addr: self.curr, word: spliced_word(old, self.pending) }
                },
            }
        }
    }

    /// How many steps are left before the fill is done.
    pub open spec fn steps_left(self) -> int {
        if self.done {
            0
        } else {
            (self.len() - self.taken.len()) + (full_count(self.len()) - self.words_done()) + 1 + (
            if self.tail is None {
                1int
            } else {
                0int
            })
        }
    }

    /// A fill of `buflen` bytes from `bufptr` that has not started yet.
    pub open spec fn fresh(self, bufptr: usize, buflen: usize, constant: Option<u8>) -> bool {
        &&& self.wf()
        &&& self.base == bufptr
        &&& self.curr == bufptr
        &&& self.len() == buflen
        &&& self.pending.len() == 0
        &&& self.tail is None
        &&& !self.done
        &&& self.constant == constant
        &&& self.taken.len() == 0
        &&& self.emitted.len() == 0
    }
}

/// The state of one buffer fill.
pub struct MemFill {
    curr: usize,
    end: usize,
    pending: Vec<u8>,
    tail: Option<u64>,
    done: bool,
    constant: Option<u8>,
    base: Ghost<int>,
    taken: Ghost<Seq<u8>>,
    emitted: Ghost<Seq<(int, u64)>>,
}

impl View for MemFill {
    type V = FillState;

    closed spec fn view(&self) -> FillState {
        FillState {
            base: self.base@,
            curr: self.curr,
            end: self.end,
            pending: self.pending@,
            tail: self.tail,
            done: self.done,
            constant: self.constant,
            taken: self.taken@,
            emitted: self.emitted@,
        }
    }
}

impl MemFill {
    fn start(data: &HandlerData, constant: Option<u8>) -> (fill: Option<MemFill>)
        requires
            data is Buffer,
        ensures
            fill is Some <==> fill_fits(data->bufptr, data->buflen),
            fill matches Some(f) ==> f@.fresh(data->bufptr, data->buflen, constant),
    {
        match data {
            HandlerData::Buffer { bufptr, buflen } => {
                let bufptr = *bufptr;
                let buflen = *buflen;
                // the number of words touched, 1 + full_count(buflen)
                let words: usize = if buflen == 0 {
                    1
                } else {
                    (buflen - 1) / WORD_SIZE + 1
                };
                if words > (usize::MAX - bufptr) / WORD_SIZE {
                    assert(!fill_fits(bufptr, buflen)) by (nonlinear_arith)
                        requires
                            words > (usize::MAX - bufptr) / 8,
                            words == full_count(buflen as int) + 1,
                    ;
                    return None;
                }
                assert(fill_fits(bufptr, buflen)) by (nonlinear_arith)
                    requires
                        words <= (usize::MAX - bufptr) / 8,
                        words == full_count(buflen as int) + 1,
                ;
                let fill = MemFill {
                    curr: bufptr,
                    end: bufptr + buflen,
                    pending: Vec::new(),
                    tail: None,
                    done: false,
                    constant,
                    base: Ghost(bufptr as int),
                    taken: Ghost(Seq::empty()),
                    emitted: Ghost(Seq::empty()),
                };
                assert(fill.emitted@ =~= full_writes(fill.base@, fill.taken@, 0));
                assert(fill.taken@.skip(0) =~= fill.pending@);
                Some(fill)
            },
            _ => {
                assert(false);
                None
            },
        }
    }

    /// Starts filling the buffer that `data` describes with bytes that the
    /// caller supplies, or gives `None` where walking the buffer word by word
    /// would leave the address space.
    pub fn new(data: &HandlerData) -> (fill: Option<MemFill>)
        requires
            data is Buffer,
        ensures
            fill is Some <==> fill_fits(data->bufptr, data->buflen),
            fill matches Some(f) ==> f@.fresh(data->bufptr, data->buflen, None),
    {
        Self::start(data, None)
    }

    /// Starts filling the buffer that `data` describes with copies of
    /// `byte`, or gives `None` where walking the buffer word by word would
    /// leave the address space.
    pub fn with_byte(data: &HandlerData, byte: u8) -> (fill: Option<MemFill>)
        requires
            data is Buffer,
        ensures
            fill is Some <==> fill_fits(data->bufptr, data->buflen),
            fill matches Some(f) ==> f@.fresh(data->bufptr, data->buflen, Some(byte)),
    {
        Self::start(data, Some(byte))
    }

    /// The byte that every byte of this fill is, if it has one.
    pub fn constant(&self) -> (byte: Option<u8>)
        ensures
            byte == self@.constant,
    {
        self.constant
    }

    /// The step that the fill asks for.
    pub fn step(&self) -> (step: FillStep)
        requires
            self@.wf(),
        ensures
            step == self@.next_step(),
    {
        if self.done {
            return FillStep::Done;
        }
        let more_words = self.end - self.curr > WORD_SIZE;
        assert(more_words == (self@.words_done() < full_count(self@.len())));
        match self.tail {
            None => {
                if more_words {
                    if self.pending.len() < WORD_SIZE {
                        FillStep::NeedByte
                    } else {
                        FillStep::Poke { addr: self.curr, word: word_from_bytes(self.pending.as_slice()) }
                    }
                } else {
                    FillStep::Peek { addr: self.curr }
                }
            },
            Some(old) => {
                if self.pending.len() < self.end - self.curr {
                    FillStep::NeedByte
                } else {
                    FillStep::Poke {
                        addr: self.curr,
                        word: splice_low_bytes(old, self.pending.as_slice()),
                    }
                }
            },
        }
    }

    /// Hands over the byte that a `NeedByte` step asked for; a fill with a
    /// fixed byte takes only that byte.
    pub fn supply_byte(&mut self, byte: u8)
        requires
            old(self)@.wf(),
            old(self)@.next_step() is NeedByte,
            old(self)@.constant matches Some(b) ==> byte == b,
        ensures
            final(self)@ == (FillState {
                pending: old(self)@.pending.push(byte),
                taken: old(self)@.taken.push(byte),
                ..old(self)@
            }),
            final(self)@.wf(),
            final(self)@.steps_left() < old(self)@.steps_left(),
    {
        let ghost k = self@.words_done();
        self.pending.push(byte);
        self.taken = Ghost(self.taken@.push(byte));
        assert(self.taken@.skip(8 * k) =~= self.pending@);
        assert(full_writes(self.base@, self.taken@, k) =~= full_writes(
            self.base@,
            old(self).taken@,
            k,
        )) by {
            assert forall|i: int| 0 <= i < k implies #[trigger] self.taken@.subrange(8 * i, 8 * i + 8)
                =~= old(self).taken@.subrange(8 * i, 8 * i + 8) by {}
        }
        assert(self@ =~= FillState {
            pending: old(self)@.pending.push(byte),
            taken: old(self)@.taken.push(byte),
            ..old(self)@
        });
    }

    /// Reports that the word of a `Poke` step was written.
    pub fn poked(&mut self)
        requires
            old(self)@.wf(),
            old(self)@.next_step() is Poke,
        ensures
            final(self)@.wf(),
            final(self)@ == (if old(self)@.tail is None {
                FillState {
                    curr: (old(self)@.curr + WORD_SIZE) as usize,
                    pending: Seq::empty(),
                    emitted: old(self)@.emitted.push(
                        (old(self)@.next_step()->Poke_addr as int, old(self)@.next_step()->Poke_word),
                    ),
                    ..old(self)@
                }
            } else {
                FillState {
                    done: true,
                    emitted: old(self)@.emitted.push(
                        (old(self)@.next_step()->Poke_addr as int, old(self)@.next_step()->Poke_word),
                    ),
                    ..old(self)@
                }
            }),
            final(self)@.steps_left() < old(self)@.steps_left(),
    {
        let ghost k = self@.words_done();
        let ghost step = self@.next_step();
        self.emitted = Ghost(self.emitted@.push((step->Poke_addr as int, step->Poke_word)));
        match self.tail {
            None => {
                self.curr = self.curr + WORD_SIZE;
                self.pending = Vec::new();
                assert(self@.words_done() == k + 1);
                assert(old(self).taken@.subrange(8 * k, 8 * k + 8) =~= old(self).pending@);
                assert(self.emitted@ =~= full_writes(self.base@, self.taken@, k + 1));
                assert(self.taken@.skip(8 * (k + 1)) =~= self.pending@);
            },
            Some(_) => {
                self.done = true;
                assert(old(self).taken@.subrange(8 * k, self@.len()) =~= old(self).pending@);
                assert(self.emitted@ =~= fill_plan(
                    self.base@,
                    self@.len(),
                    self.taken@,
                    self.tail->0,
                ));
            },
        }
        assert(self.pending@ =~= if old(self)@.tail is None {
            Seq::empty()
        } else {
            old(self).pending@
        });
    }

    /// Hands over the word that a `Peek` step read.
    pub fn peeked(&mut self, word: u64)
        requires
            old(self)@.wf(),
            old(self)@.next_step() is Peek,
        ensures
            final(self)@ == (FillState { tail: Some(word), ..old(self)@ }),
            final(self)@.wf(),
            final(self)@.steps_left() < old(self)@.steps_left(),
    {
        self.tail = Some(word);
    }
}

/// Once a fill is done, it has taken exactly one byte for each byte of the
/// buffer, and its pokes are the fill plan of those bytes.
pub proof fn lemma_fill_done(f: FillState)
    requires
        f.wf(),
        f.next_step() is Done,
    ensures
        f.taken.len() == f.len(),
        f.emitted == fill_plan(f.base, f.len(), f.taken, f.tail->0),
        f.steps_left() == 0,
{
}

/// A finished fill, whose last word was read back from the memory that its
/// whole-word pokes left, has stored exactly the bytes it was handed in the
/// buffer and left every other byte of memory as it was.
pub proof fn lemma_finished_fill_stores_bytes(f: FillState, mem: Memory)
    requires
        f.wf(),
        f.next_step() is Done,
        f.tail->0 == read_word(
            apply_writes(mem, full_writes(f.base, f.taken, full_count(f.len()))),
            f.base + 8 * full_count(f.len()),
        ),
    ensures
        apply_writes(mem, f.emitted) == filled(mem, f.base, f.taken),
{
    lemma_fill_plan_fills(mem, f.base, f.taken);
}

/// Where a fill reads and writes, and what it writes. The last word is
/// read back at the very address where it is then written,
/// `base + 8 * full_count(len)`, once the whole words before it were
/// written; each poke writes the word right after the ones already written;
/// a whole word holds the eight bytes gathered for it, and the last word
/// holds the remaining bytes followed by the bytes it had past the buffer's
/// end.
pub proof fn lemma_step_addresses(f: FillState)
    requires
        f.wf(),
    ensures
        f.next_step() matches FillStep::Peek { addr } ==> {
            &&& addr == f.base + 8 * full_count(f.len())
            &&& f.tail is None
            &&& f.emitted == full_writes(f.base, f.taken, full_count(f.len()))
            &&& f.base + f.len() <= addr + 8
        },
        f.next_step() matches FillStep::Poke { addr, word } ==> {
            &&& addr == f.base + 8 * f.emitted.len()
            &&& f.base <= addr
            &&& addr < f.base + f.len() || f.len() == 0
            &&& (f.tail is Some <==> addr == f.base + 8 * full_count(f.len()))
            &&& f.tail is None ==> word_bytes(word) == f.pending && f.pending.len() == 8
            &&& f.tail matches Some(old) ==> {
                &&& word_bytes(word) == f.pending + word_bytes(old).skip(f.pending.len() as int)
                &&& f.pending.len() == f.len() - 8 * full_count(f.len())
            }
        },
{
    match f.next_step() {
        FillStep::Poke { addr, word } => {
            if f.tail is None {
                lemma_word_bytes_of_value(f.pending);
            } else {
                let old = f.tail->0;
                lemma_word_bytes_of_value(f.pending + word_bytes(old).skip(f.pending.len() as int));
            }
        },
        _ => {},
    }
}

/// A buffer of `len` bytes is written as `full_count(len)` whole words and
/// one last word that holds its remaining 1 to 8 bytes (none for an empty
/// buffer).
pub proof fn lemma_full_count_splits(len: int)
    requires
        0 <= len,
    ensures
        0 <= full_count(len),
        len == 0 ==> full_count(len) == 0,
        len > 0 ==> 8 * full_count(len) < len <= 8 * full_count(len) + 8,
{
}

/// One past the last byte of the `i`-th word from `bufptr`.
pub open spec fn word_end(bufptr: int, i: int) -> int {
    bufptr + 8 * i + 8
}

/// A fill fits exactly when every word it touches ends within the address
/// space: the words at `bufptr + 8 * i` for `i` up to `full_count(buflen)`.
/// Then the buffer itself lies within the address space.
pub proof fn lemma_fill_fits_iff_words_fit(bufptr: usize, buflen: usize)
    ensures
        fill_fits(bufptr, buflen) <==> (forall|i: int|
            0 <= i <= full_count(buflen as int) ==> #[trigger] word_end(bufptr as int, i)
                <= usize::MAX),
        fill_fits(bufptr, buflen) ==> bufptr + buflen <= usize::MAX,
{
    if !fill_fits(bufptr, buflen) {
        let i = full_count(buflen as int);
        assert(!(word_end(bufptr as int, i) <= usize::MAX));
    }
}

/// A finished fill with a fixed byte `b` (a zero fill, for `b == 0`), whose
/// last word was read back from the memory that its whole-word pokes left,
/// has set every byte of the buffer to `b` and left every other byte of
/// memory as it was.
pub proof fn lemma_finished_fill_with_byte(f: FillState, mem: Memory, b: u8)
    requires
        f.wf(),
        f.next_step() is Done,
        f.constant == Some(b),
        f.tail->0 == read_word(
            apply_writes(mem, full_writes(f.base, f.taken, full_count(f.len()))),
            f.base + 8 * full_count(f.len()),
        ),
    ensures
        apply_writes(mem, f.emitted) == filled(mem, f.base, Seq::new(f.len() as nat, |i: int| b)),
{
    lemma_fill_plan_fills(mem, f.base, f.taken);
    assert(f.taken =~= Seq::new(f.len() as nat, |i: int| b));
}

/// The first `k` whole-word pokes of a fill store the first `8 * k` bytes
/// and leave every other byte of memory as it was; so does a fill that stops
/// after them.
pub proof fn lemma_full_writes_fill(mem: Memory, base: int, bytes: Seq<u8>, k: int)
    requires
        0 <= k,
        8 * k <= bytes.len(),
    ensures
        forall|a: int|
            #![trigger apply_writes(mem, full_writes(base, bytes, k))(a)]
            apply_writes(mem, full_writes(base, bytes, k))(a) == if base <= a < base + 8 * k {
                bytes[a - base]
            } else {
                mem(a)
            },
    decreases k,
{
    if k > 0 {
        lemma_full_writes_fill(mem, base, bytes, k - 1);
        let ws = full_writes(base, bytes, k);
        assert(ws.drop_last() =~= full_writes(base, bytes, k - 1));
        let chunk = bytes.subrange(8 * (k - 1), 8 * (k - 1) + 8);
        lemma_word_bytes_of_value(chunk);
        assert forall|a: int|
            #![trigger apply_writes(mem, full_writes(base, bytes, k))(a)]
            apply_writes(mem, full_writes(base, bytes, k))(a) == if base <= a < base + 8 * k {
                bytes[a - base]
            } else {
                mem(a)
            } by {
            let prev = apply_writes(mem, full_writes(base, bytes, k - 1));
            assert(prev(a) == if base <= a < base + 8 * (k - 1) {
                bytes[a - base]
            } else {
                mem(a)
            });
        }
    }
}

/// Carrying out the fill plan, with the last word read back after the whole
/// words were written, leaves exactly `bytes` in the buffer and every other
/// byte of memory as it was.
pub proof fn lemma_fill_plan_fills(mem: Memory, base: int, bytes: Seq<u8>)
    ensures
        ({
            let len = bytes.len() as int;
            let k = full_count(len);
            let mid = apply_writes(mem, full_writes(base, bytes, k));
            let old = read_word(mid, base + 8 * k);
            apply_writes(mem, fill_plan(base, len, bytes, old)) == filled(mem, base, bytes)
        }),
{
    let len = bytes.len() as int;
    let k = full_count(len);
    let t = base + 8 * k;
    let mid = apply_writes(mem, full_writes(base, bytes, k));
    let old = read_word(mid, t);
    let plan = fill_plan(base, len, bytes, old);
    lemma_full_writes_fill(mem, base, bytes, k);
    assert(plan.drop_last() =~= full_writes(base, bytes, k));
    let old_bytes = Seq::new(8, |i: int| mid(t + i));
    lemma_word_bytes_of_value(old_bytes);
    let fill = bytes.subrange(8 * k, len);
    let image = fill + word_bytes(old).skip(fill.len() as int);
    lemma_word_bytes_of_value(image);
    let result = apply_writes(mem, plan);
    assert forall|a: int| #[trigger] result(a) == filled(mem, base, bytes)(a) by {
        if t <= a < t + 8 {
            if a - t < fill.len() {
                assert(image[a - t] == fill[a - t]);
            } else {
                assert(image[a - t] == old_bytes[a - t]);
                assert(mid(a) == mem(a));
            }
        } else {
            assert(mid(a) == if base <= a < base + 8 * k {
                bytes[a - base]
            } else {
                mem(a)
            });
        }
    }
    assert(result =~= filled(mem, base, bytes));
}

} // verus!
