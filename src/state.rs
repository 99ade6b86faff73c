use vstd::prelude::*;

verus! {

/// Register index of the stack pointer.
pub const REG_SP: usize = 13;

/// Register index of the link register.
pub const REG_LR: usize = 14;

/// Register index of the program counter.
pub const REG_PC: usize = 15;

/// Reasons an unwind step stops without producing a caller frame.
#[derive(Debug, Clone, Copy, PartialEq, Eq, Structural)]
pub enum Error {
    /// The table or the bytecode asks that this frame not be unwound.
    Refuse,
    /// The table entry or its out-of-line data breaks the format.
    Malformed,
    /// A read of `size` bytes at the given address was refused by the oracle.
    BadPointer(u32, usize),
    /// A recognised encoding that this interpreter does not implement.
    Todo,
}

/// Register snapshot of one frame being unwound.
///
/// `vsp` is the virtual stack pointer: it starts at `regs[13]` and moves on its
/// own while the unwind bytecode pops and skips words.
pub struct UnwindState {
    pub regs: [u32; 16],
    pub vsp: u32,
}

/// Mathematical model of an [`UnwindState`].
pub ghost struct Frame {
    pub regs: Seq<u32>,
    pub vsp: u32,
}

impl View for UnwindState {
    type V = Frame;

    open spec fn view(&self) -> Frame {
        Frame { regs: self.regs@, vsp: self.vsp }
    }
}

impl UnwindState {
    /// Starts unwinding from a register set: the virtual stack pointer is the
    /// saved stack pointer.
    pub fn from_regs(regs: [u32; 16]) -> (r: UnwindState)
        ensures
            r.regs@ == regs@,
            r.vsp == regs@[13],
    {
        UnwindState { regs: regs, vsp: regs[REG_SP] }
    }

    /// The program counter of the frame.
    pub fn get_ip(&self) -> (r: u32)
        ensures
            r == self.regs@[15],
    {
        self.regs[REG_PC]
    }

    /// The link register of the frame.
    pub fn get_lr(&self) -> (r: u32)
        ensures
            r == self.regs@[14],
    {
        self.regs[REG_LR]
    }
}

} // verus!
