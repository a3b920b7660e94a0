//! Instruction types: a decoded LC-3 operation and its operand forms.

use vstd::prelude::*;

verus! {

/// A register identifier. The decoder only ever produces identifiers in
/// `[0, 7]` (the general-purpose registers); the interpreter also uses 8 for
/// the program counter and 9 for the condition register.
#[derive(Clone, Copy, Debug, PartialEq, Eq, Structural)]
pub struct Register(pub usize);

/// The second operand of `ADD`/`AND`: either a register or a 5-bit
/// sign-extended immediate.
#[derive(Clone, Copy, Debug, PartialEq, Eq, Structural)]
pub enum Argument {
    Register(Register),
    Immediate(u16),
}

/// A decoded LC-3 instruction. Each variant carries exactly the fields the
/// interpreter needs; PC-relative offsets and immediates are stored already
/// sign-extended to 16 bits.
#[derive(Clone, Copy, Debug, PartialEq, Eq, Structural)]
pub enum Operation {
    /// `DR <- SR1 + arg`, sets condition codes.
    Add { dr: Register, sr1: Register, arg: Argument },
    /// `DR <- SR1 & arg`, sets condition codes.
    And { dr: Register, sr1: Register, arg: Argument },
    /// Branch: if any selected condition code is set, `PC <- PC + pc_offset`.
    Br { n: bool, z: bool, p: bool, pc_offset: u16 },
    /// `PC <- BaseR` (with `BaseR` = R7 this is RET).
    Jmp { base_r: Register },
    /// `R7 <- PC; PC <- PC + pc_offset`.
    Jsr { pc_offset: u16 },
    /// `R7 <- PC; PC <- BaseR`.
    Jsrr { base_r: Register },
    /// `DR <- mem[PC + pc_offset]`, sets condition codes.
    Ld { dr: Register, pc_offset: u16 },
    /// `DR <- mem[mem[PC + pc_offset]]`, sets condition codes.
    Ldi { dr: Register, pc_offset: u16 },
    /// `DR <- mem[BaseR + offset]`, sets condition codes.
    Ldr { dr: Register, base_r: Register, offset: u16 },
    /// `DR <- PC + pc_offset`, sets condition codes.
    Lea { dr: Register, pc_offset: u16 },
    /// `DR <- !SR`, sets condition codes.
    Not { dr: Register, sr: Register },
    /// `mem[PC + pc_offset] <- SR`.
    St { sr: Register, pc_offset: u16 },
    /// `mem[mem[PC + pc_offset]] <- SR`.
    Sti { sr: Register, pc_offset: u16 },
    /// `mem[BaseR + offset] <- SR`.
    Str { sr: Register, base_r: Register, offset: u16 },
    /// `R7 <- PC`, then the trap vector selects a console service.
    Trap { trap_vector: u16 },
    /// Decodable but unsupported: executing it is a fatal error.
    Rti,
}

impl Register {
    /// A register identifier a decoded instruction may name directly:
    /// one of the eight general-purpose registers.
    pub open spec fn wf(self) -> bool {
        self.0 < 8
    }
}

impl Argument {
    /// Every register named by the operand is general-purpose.
    pub open spec fn wf(self) -> bool {
        match self {
            Argument::Register(r) => r.wf(),
            Argument::Immediate(_) => true,
        }
    }
}

impl Operation {
    /// Every register named by the instruction is general-purpose. The
    /// decoder only produces such operations, since register fields are
    /// 3 bits wide.
    pub open spec fn wf(self) -> bool {
        match self {
            Operation::Add { dr, sr1, arg } => dr.wf() && sr1.wf() && arg.wf(),
            Operation::And { dr, sr1, arg } => dr.wf() && sr1.wf() && arg.wf(),
            Operation::Br { .. } => true,
            Operation::Jmp { base_r } => base_r.wf(),
            Operation::Jsr { .. } => true,
            Operation::Jsrr { base_r } => base_r.wf(),
            Operation::Ld { dr, .. } => dr.wf(),
            Operation::Ldi { dr, .. } => dr.wf(),
            Operation::Ldr { dr, base_r, .. } => dr.wf() && base_r.wf(),
            Operation::Lea { dr, .. } => dr.wf(),
            Operation::Not { dr, sr } => dr.wf() && sr.wf(),
            Operation::St { sr, .. } => sr.wf(),
            Operation::Sti { sr, .. } => sr.wf(),
            Operation::Str { sr, base_r, .. } => sr.wf() && base_r.wf(),
            Operation::Trap { .. } => true,
            Operation::Rti => true,
        }
    }
}

} // verus!
