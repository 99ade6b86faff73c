use vstd::prelude::*;

use crate::memory::{add_wrap, sub_wrap, wrap, MemoryOracle};
use crate::state::{Error, Frame, UnwindState};

verus! {

/// Whether a register-pop instruction `op` (with its extension byte `ext`,
/// when it has one) pops register `4 + k`.
///
/// `0x8m xx` pops the registers of the 12-bit mask `m:xx` (bit 0 is r4);
/// `0xAn` pops r4 through `r4 + (n & 7)`, and r14 after them when `n & 8` is set.
pub open spec fn pops_reg(op: u8, ext: u8, k: u32) -> bool {
    if op >> 4u8 == 8 {
        if k < 8 {
            ((ext as u32) >> k) & 1 == 1
        } else {
            ((op as u32) >> ((k - 8) as u32)) & 1 == 1
        }
    } else {
        k <= (op & 7u8) as u32 || (k == 10 && op & 8u8 != 0)
    }
}

/// Popping one word off the virtual stack into register `reg`: the word at
/// `vsp` is read (if the oracle allows it) and `vsp` moves up by four bytes.
pub open spec fn pop_spec<M: MemoryOracle>(mem: &M, f: Frame, reg: int) -> (Frame, Result<(), Error>) {
    if mem.readable(f.vsp) {
        (Frame { regs: f.regs.update(reg, mem.word_at(f.vsp)), vsp: wrap(f.vsp + 4) }, Ok(()))
    } else {
        (f, Err(Error::BadPointer(f.vsp, 4)))
    }
}

/// Pops, in ascending register order from `r(4 + k)` on, every register that
/// the instruction selects; stops at the first refused read.
pub open spec fn pop_from<M: MemoryOracle>(mem: &M, f: Frame, op: u8, ext: u8, k: u32) -> (Frame, Result<(), Error>)
    decreases 12 - k,
{
    if k >= 12 {
        (f, Ok(()))
    } else if pops_reg(op, ext, k) {
        let (f1, r) = pop_spec(mem, f, 4 + k);
        if r is Err {
            (f1, r)
        } else {
            pop_from(mem, f1, op, ext, (k + 1) as u32)
        }
    } else {
        pop_from(mem, f, op, ext, (k + 1) as u32)
    }
}

/// Number of bytes taken by the instruction at `pos`.
pub open spec fn instr_len(bytes: Seq<u8>, pos: int) -> int {
    if bytes[pos] >> 4u8 == 8 {
        2
    } else {
        1
    }
}

/// Effect of the instruction at `pos`: the new frame, and whether the stream
/// is finished.
pub open spec fn instr_spec<M: MemoryOracle>(mem: &M, f: Frame, bytes: Seq<u8>, pos: int) -> (Frame, Result<bool, Error>) {
    let op = bytes[pos];
    let hi = op >> 4u8;
    if hi <= 3 {
        (Frame { vsp: wrap(f.vsp + (op & 0x3fu8) * 4 + 4), ..f }, Ok(false))
    } else if hi <= 7 {
        (Frame { vsp: wrap(f.vsp - (op & 0x3fu8) * 4 - 4), ..f }, Ok(false))
    } else if hi == 8 {
        if pos + 1 >= bytes.len() {
            (f, Err(Error::Malformed))
        } else if op == 0x80 && bytes[pos + 1] == 0 {
            (f, Err(Error::Refuse))
        } else {
            let (f1, r) = pop_from(mem, f, op, bytes[pos + 1], 0);
            (f1, if r is Err { Err(r->Err_0) } else { Ok(false) })
        }
    } else if hi == 9 {
        (Frame { vsp: f.regs[(op & 0xfu8) as int], ..f }, Ok(false))
    } else if hi == 0xa {
        let (f1, r) = pop_from(mem, f, op, 0, 0);
        (f1, if r is Err { Err(r->Err_0) } else { Ok(false) })
    } else if op == 0xb0 {
        (f, Ok(true))
    } else {
        (f, Err(Error::Todo))
    }
}

/// Runs the instruction stream `bytes` from `pos` on: until a finish
/// instruction, the first error, or the end of the bytes.
pub open spec fn run_spec<M: MemoryOracle>(mem: &M, f: Frame, bytes: Seq<u8>, pos: int) -> (Frame, Result<(), Error>)
    decreases bytes.len() - pos,
{
    if pos < 0 || pos >= bytes.len() {
        (f, Ok(()))
    } else {
        let (f1, r) = instr_spec(mem, f, bytes, pos);
        match r {
            Err(e) => (f1, Err(e)),
            Ok(true) => (f1, Ok(())),
            Ok(false) => run_spec(mem, f1, bytes, pos + instr_len(bytes, pos)),
        }
    }
}

/// The four bytes of `w`, most significant first.
pub open spec fn be_bytes(w: u32) -> Seq<u8> {
    seq![(w >> 24u32) as u8, (w >> 16u32) as u8, (w >> 8u32) as u8, w as u8]
}

/// The bytes of the words of `ws`, each most significant byte first.
pub open spec fn words_bytes(ws: Seq<u32>) -> Seq<u8>
    decreases ws.len(),
{
    if ws.len() == 0 {
        Seq::empty()
    } else {
        words_bytes(ws.drop_last()) + be_bytes(ws.last())
    }
}

/// The stream held by the low three bytes of a short-form descriptor word.
pub open spec fn short_stream(w: u32) -> Seq<u8> {
    seq![(w >> 16u32) as u8, (w >> 8u32) as u8, w as u8]
}

/// The stream of a long-form descriptor: the low two bytes of its word, then
/// the extension words.
pub open spec fn long_stream(w: u32, extra: Seq<u32>) -> Seq<u8> {
    seq![(w >> 8u32) as u8, w as u8] + words_bytes(extra)
}

/// The data word of an entry that may not be unwound.
pub const CANT_UNWIND: u32 = 1;

/// Address of the out-of-line descriptor word named by an entry at
/// `entry_addr` whose data word is `data` (top bit clear).
pub open spec fn out_of_line_addr(entry_addr: u32, data: u32) -> u32 {
    wrap(entry_addr + 4 + data + 0x8000_0000)
}

/// Address of the `k`-th extension word after the descriptor word at `ptr`.
pub open spec fn ext_word_addr(ptr: u32, k: int) -> u32 {
    wrap(ptr + 4 + 4 * k)
}

/// A data word that holds a short-form stream inline.
pub open spec fn is_inline(data: u32) -> bool {
    data >> 31u32 == 1 && data >> 24u32 == 0x80
}

/// Effect of one unwind step for the entry at `entry_addr` with data word
/// `data`.
pub open spec fn step_spec<M: MemoryOracle>(mem: &M, entry_addr: u32, data: u32, f: Frame) -> (Frame, Result<(), Error>) {
    if data == CANT_UNWIND {
        (f, Err(Error::Refuse))
    } else if data >> 31u32 == 1 {
        if data >> 24u32 != 0x80 {
            (f, Err(Error::Malformed))
        } else {
            run_spec(mem, f, short_stream(data), 0)
        }
    } else {
        let ptr = out_of_line_addr(entry_addr, data);
        let word = mem.word_at(ptr);
        let personality = (word >> 24u32) & 0xf;
        let count = (word >> 16u32) & 0xff;
        if !mem.readable(ptr) {
            (f, Err(Error::Malformed))
        } else if word & 0x8000_0000 == 0 {
            (f, Err(Error::Todo))
        } else if (word >> 28u32) & 0xf != 8 {
            (f, Err(Error::Malformed))
        } else if personality == 0 {
            run_spec(mem, f, short_stream(word), 0)
        } else if personality == 1 || personality == 2 {
            if !(forall|k: int| 0 <= k < count ==> mem.readable(#[trigger] ext_word_addr(ptr, k))) {
                (f, Err(Error::Malformed))
            } else if personality == 1 {
                run_spec(
                    mem,
                    f,
                    long_stream(word, Seq::new(count as nat, |k: int| mem.word_at(ext_word_addr(ptr, k)))),
                    0,
                )
            } else {
                (f, Err(Error::Todo))
            }
        } else {
            (f, Err(Error::Todo))
        }
    }
}

/// Executable form of [`pops_reg`].
fn selects(op: u8, ext: u8, k: u32) -> (r: bool)
    requires
        k < 12,
    ensures
        r == pops_reg(op, ext, k),
{
    if op >> 4u8 == 8 {
        if k < 8 {
            ((ext as u32) >> k) & 1 == 1
        } else {
            ((op as u32) >> (k - 8)) & 1 == 1
        }
    } else {
        k <= (op & 7u8) as u32 || (k == 10 && op & 8u8 != 0)
    }
}

/// Reads the `count` extension words that follow the descriptor word at `ptr`,
/// or `None` when one of them may not be read.
fn read_ext_words<M: MemoryOracle>(ptr: u32, count: u32, mem: &M) -> (r: Option<Vec<u32>>)
    requires
        count <= 0xff,
    ensures
        match r {
            Some(ws) => {
                &&& forall|k: int| 0 <= k < count ==> mem.readable(#[trigger] ext_word_addr(ptr, k))
                &&& ws@ == Seq::new(count as nat, |k: int| mem.word_at(ext_word_addr(ptr, k)))
            },
            None => !(forall|k: int| 0 <= k < count ==> mem.readable(#[trigger] ext_word_addr(ptr, k))),
        },
{
    let mut ws: Vec<u32> = Vec::new();
    let mut k: u32 = 0;
    while k < count
        invariant
            k <= count <= 0xff,
            forall|j: int| 0 <= j < k ==> mem.readable(#[trigger] ext_word_addr(ptr, j)),
            ws@ == Seq::new(k as nat, |j: int| mem.word_at(ext_word_addr(ptr, j))),
        decreases count - k,
    {
        let addr = add_wrap(ptr, 4 + 4 * k);
        assert(addr == ext_word_addr(ptr, k as int));
        if !mem.is_readable(addr) {
            return None;
        }
        ws.push(mem.read_word(addr));
        assert(ws@ =~= Seq::new((k + 1) as nat, |j: int| mem.word_at(ext_word_addr(ptr, j))));
        k = k + 1;
    }
    Some(ws)
}

/// Appends the four bytes of `w` to `out`, most significant first.
fn push_be_bytes(out: &mut Vec<u8>, w: u32)
    ensures
        final(out)@ == old(out)@ + be_bytes(w),
{
    out.push((w >> 24u32) as u8);
    out.push((w >> 16u32) as u8);
    out.push((w >> 8u32) as u8);
    out.push(w as u8);
    assert(final(out)@ =~= old(out)@ + be_bytes(w));
}

impl UnwindState {
    /// Reads the word at the virtual stack pointer and moves it past that word.
    fn pop<M: MemoryOracle>(&mut self, mem: &M) -> (r: Result<u32, Error>)
        ensures
            match r {
                Ok(v) => {
                    &&& mem.readable(old(self).vsp)
                    &&& v == mem.word_at(old(self).vsp)
                    &&& final(self).regs@ == old(self).regs@
                    &&& final(self).vsp == wrap(old(self).vsp + 4)
                },
                Err(e) => {
                    &&& !mem.readable(old(self).vsp)
                    &&& e == Error::BadPointer(old(self).vsp, 4)
                    &&& final(self)@ == old(self)@
                },
            },
    {
        if !mem.is_readable(self.vsp) {
            return Err(Error::BadPointer(self.vsp, 4));
        }
        let v = mem.read_word(self.vsp);
        self.vsp = add_wrap(self.vsp, 4);
        Ok(v)
    }

    /// Pops the registers that a register-pop instruction selects.
    fn pop_regs<M: MemoryOracle>(&mut self, op: u8, ext: u8, mem: &M) -> (r: Result<(), Error>)
        ensures
            (final(self)@, r) == pop_from(mem, old(self)@, op, ext, 0),
    {
        let mut k: u32 = 0;
        while k < 12
            invariant
                k <= 12,
                pop_from(mem, old(self)@, op, ext, 0) == pop_from(mem, self@, op, ext, k),
            decreases 12 - k,
        {
            if selects(op, ext, k) {
                match self.pop(mem) {
                    Ok(v) => {
                        self.regs[(4 + k) as usize] = v;
                    },
                    Err(e) => {
                        return Err(e);
                    },
                }
            }
            k = k + 1;
        }
        Ok(())
    }

    /// Executes the instruction at `pos` of `bytes`; returns `true` when it is
    /// the finish instruction.
    fn unwind_instr<M: MemoryOracle>(&mut self, bytes: &Vec<u8>, pos: usize, mem: &M) -> (r: Result<bool, Error>)
        requires
            pos < bytes@.len(),
        ensures
            (final(self)@, r) == instr_spec(mem, old(self)@, bytes@, pos as int),
    {
        let op = bytes[pos];
        let hi = op >> 4u8;
        if hi <= 3 {
            self.vsp = add_wrap(self.vsp, (op & 0x3fu8) as u32 * 4 + 4);
        } else if hi <= 7 {
            self.vsp = sub_wrap(self.vsp, (op & 0x3fu8) as u32 * 4 + 4);
        } else if hi == 8 {
            if pos >= bytes.len() - 1 {
                return Err(Error::Malformed);
            }
            let ext = bytes[pos + 1];
            if op == 0x80 && ext == 0 {
                return Err(Error::Refuse);
            }
            self.pop_regs(op, ext, mem)?;
        } else if hi == 9 {
            assert(op & 0xfu8 < 16) by (bit_vector);
            self.vsp = self.regs[(op & 0xfu8) as usize];
        } else if hi == 0xa {
            self.pop_regs(op, 0, mem)?;
        } else if op == 0xb0 {
            return Ok(true);
        } else {
            return Err(Error::Todo);
        }
        Ok(false)
    }

    /// Executes an instruction stream until it finishes, fails or runs out.
    fn run_stream<M: MemoryOracle>(&mut self, bytes: &Vec<u8>, mem: &M) -> (r: Result<(), Error>)
        ensures
            (final(self)@, r) == run_spec(mem, old(self)@, bytes@, 0),
    {
        let mut pos: usize = 0;
        while pos < bytes.len()
            invariant
                pos <= bytes@.len(),
                run_spec(mem, old(self)@, bytes@, 0) == run_spec(mem, self@, bytes@, pos as int),
            decreases bytes@.len() - pos,
        {
            match self.unwind_instr(bytes, pos, mem) {
                Err(e) => {
                    return Err(e);
                },
                Ok(true) => {
                    return Ok(());
                },
                Ok(false) => {},
            }
            if bytes[pos] >> 4u8 == 8 {
                pos = pos + 2;
            } else {
                pos = pos + 1;
            }
        }
        Ok(())
    }
    /// Unwinds one frame by the exception-index entry `info` stored at
    /// `entry_addr`: `info[1]` is either the "cannot unwind" marker, a
    /// short-form stream held inline, or an offset to an out-of-line
    /// descriptor (with its extension words) that is read through `mem`.
    pub fn unwind_step<M: MemoryOracle>(&mut self, entry_addr: u32, info: &[u32; 2], mem: &M) -> (r: Result<(), Error>)
        ensures
            (final(self)@, r) == step_spec(mem, entry_addr, info@[1], old(self)@),
            info@[1] == CANT_UNWIND ==> r == Err::<(), Error>(Error::Refuse) && final(self)@ == old(self)@,
            is_inline(info@[1]) ==> (final(self)@, r) == run_spec(mem, old(self)@, short_stream(info@[1]), 0),
    {
        let data = info[1];
        if data == CANT_UNWIND {
            assert(data >> 31u32 != 1) by (bit_vector)
                requires
                    data == 1u32,
            ;
            return Err(Error::Refuse);
        }
        if data >> 31u32 == 1 {
            if data >> 24u32 != 0x80 {
                return Err(Error::Malformed);
            }
            return self.unwind_short16(data, mem);
        }
        let ptr = ((entry_addr as u64 + 4 + data as u64 + 0x8000_0000u64) % 0x1_0000_0000u64) as u32;
        if !mem.is_readable(ptr) {
            return Err(Error::Malformed);
        }
        let word = mem.read_word(ptr);
        if word & 0x8000_0000 == 0 {
            return Err(Error::Todo);
        }
        if (word >> 28u32) & 0xf != 8 {
            return Err(Error::Malformed);
        }
        let personality = (word >> 24u32) & 0xf;
        if personality == 0 {
            return self.unwind_short16(word, mem);
        }
        if personality != 1 && personality != 2 {
            return Err(Error::Todo);
        }
        let count = (word >> 16u32) & 0xff;
        assert(count <= 0xff) by (bit_vector)
            requires
                count == (word >> 16u32) & 0xff,
        ;
        let extra = match read_ext_words(ptr, count, mem) {
            Some(ws) => ws,
            None => {
                return Err(Error::Malformed);
            },
        };
        if personality == 1 {
            self.unwind_long16(word, extra.as_slice(), mem)
        } else {
            self.unwind_long32(word, extra.as_slice())
        }
    }

    /// Unwinds by the short-form stream held in the low three bytes of `instrs`.
    pub fn unwind_short16<M: MemoryOracle>(&mut self, instrs: u32, mem: &M) -> (r: Result<(), Error>)
        ensures
            (final(self)@, r) == run_spec(mem, old(self)@, short_stream(instrs), 0),
    {
        let bytes: Vec<u8> = vec![(instrs >> 16u32) as u8, (instrs >> 8u32) as u8, instrs as u8];
        assert(bytes@ =~= short_stream(instrs));
        self.run_stream(&bytes, mem)
    }

    /// Unwinds by the long-form stream: the low two bytes of `instrs`, then the
    /// bytes of each extension word of `extra`, most significant first.
    pub fn unwind_long16<M: MemoryOracle>(&mut self, instrs: u32, extra: &[u32], mem: &M) -> (r: Result<(), Error>)
        ensures
            (final(self)@, r) == run_spec(mem, old(self)@, long_stream(instrs, extra@), 0),
    {
        let mut bytes: Vec<u8> = vec![(instrs >> 8u32) as u8, instrs as u8];
        let mut i: usize = 0;
        while i < extra.len()
            invariant
                i <= extra@.len(),
                bytes@ == seq![(instrs >> 8u32) as u8, instrs as u8] + words_bytes(extra@.take(i as int)),
            decreases extra@.len() - i,
        {
            push_be_bytes(&mut bytes, extra[i]);
            assert(extra@.take(i + 1).drop_last() =~= extra@.take(i as int));
            i = i + 1;
        }
        assert(extra@.take(i as int) =~= extra@);
        self.run_stream(&bytes, mem)
    }

    /// The long form with 32-bit extension words is not implemented: always
    /// `Todo`, and the state is left as it is.
    pub fn unwind_long32(&mut self, instrs: u32, extra: &[u32]) -> (r: Result<(), Error>)
        ensures
            r == Err::<(), Error>(Error::Todo),
            final(self)@ == old(self)@,
    {
        Err(Error::Todo)
    }
}

} // verus!
