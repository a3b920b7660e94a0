//! The interpreter: loading a program image, then the fetch-decode-execute
//! tick, condition codes, and the trap services — each one stated as a
//! mathematical transition on [`VmView`] and proved of the executable code.

use vstd::prelude::*;

use crate::io::IoError;
use crate::ops::{Argument, Operation, Register};
use crate::ops_parse::{spec_decode, ParseError};
use crate::vm::{
    cstr_at, init_view, is_mmio, spec_mem_read, spec_mem_write, spec_write_reg, wf_view, wrap_add,
    FatalError, Vm, VmMem, VmView, DDR, DSR, KBDR, KBSR, MCR, MEMORY_MAX, REGISTERS,
};

verus! {

/// Register index of the program counter.
pub const R_PC: usize = 8;

/// Register index of the condition register.
pub const R_COND: usize = 9;

/// Where execution starts after a load.
pub const R_PC_INIT: u16 = 0x3000;

/// Condition-code bit for a positive result.
pub const COND_P: u16 = 1;

/// Condition-code bit for a zero result.
pub const COND_Z: u16 = 2;

/// Condition-code bit for a negative result.
pub const COND_N: u16 = 4;

/// Why a tick failed: a console fault reported by the host, a word that did
/// not decode, or a machine fault.
#[derive(Clone, Copy, Debug, PartialEq, Eq, Structural)]
pub enum TickError {
    /// A host-side console failure.
    Io(IoError),
    /// The fetched word did not decode.
    Parse(ParseError),
    /// A non-recoverable machine fault.
    Fatal(FatalError),
}

/// Why a program image could not be loaded.
#[derive(Clone, Copy, Debug, PartialEq, Eq, Structural)]
pub enum LoadError {
    /// The image had zero words: there is not even an origin.
    EmptyProgram,
}

/// The condition-code pattern for a freshly written value: `Z` for zero,
/// `N` for a set top bit (negative in two's complement), else `P`.
pub open spec fn cond_of(value: u16) -> u16 {
    if value == 0 {
        COND_Z
    } else if value < 0x8000 {
        COND_P
    } else {
        COND_N
    }
}

/// The state after updating COND from the value register `r` now holds.
pub open spec fn spec_set_cc(s: VmView, r: int) -> VmView {
    spec_write_reg(s, R_COND as int, cond_of(s.regs[r]))
}

/// The word an operand stands for: a register's contents, or the immediate
/// itself.
pub open spec fn arg_value(s: VmView, arg: Argument) -> u16 {
    match arg {
        Argument::Register(r) => s.regs[r.0 as int],
        Argument::Immediate(imm) => imm,
    }
}

/// Popping one console byte: the head of the input queue, or 0 at
/// end-of-input.
pub open spec fn spec_pop_input(s: VmView) -> (VmView, u8) {
    if s.input.len() > 0 {
        (VmView { input: s.input.drop_first(), ..s }, s.input.first())
    } else {
        (s, 0u8)
    }
}

/// The trap services. `GETC` moves one console byte into R0 (without
/// touching the condition codes), `OUT` emits the low byte of R0, `PUTS`
/// emits the string R0 points at, `HALT` stops the run, and any other vector
/// is fatal.
/// Opaque, like every transition function here: proofs that need the
/// definition reveal it.
#[verifier::opaque]
pub open spec fn spec_trap(s: VmView, trap_vector: u16) -> (VmView, Result<bool, FatalError>) {
    if trap_vector == 0x20 {
        let (s1, byte) = spec_pop_input(s);
        (spec_write_reg(s1, 0, byte as u16), Ok(true))
    } else if trap_vector == 0x21 {
        (VmView { output: s.output.push(s.regs[0] as u8), ..s }, Ok(true))
    } else if trap_vector == 0x22 {
        (VmView { output: s.output + cstr_at(s.mem, s.regs[0] as int), ..s }, Ok(true))
    } else if trap_vector == 0x25 {
        (s, Ok(false))
    } else {
        (s, Err(FatalError::BadTrap { trap_vector }))
    }
}

/// One operation, executed against a state whose PC has already been moved
/// past the instruction. Yields the new state and `Ok(continue)` — `false`
/// only for a HALT trap — or the state at the fault and the fault.
#[verifier::opaque]
pub open spec fn spec_tick_op(s: VmView, op: Operation) -> (VmView, Result<bool, FatalError>) {
    match op {
        Operation::Add { dr, sr1, arg } => {
            let value = wrap_add(s.regs[sr1.0 as int], arg_value(s, arg));
            (spec_set_cc(spec_write_reg(s, dr.0 as int, value), dr.0 as int), Ok(true))
        },
        Operation::And { dr, sr1, arg } => {
            let value = s.regs[sr1.0 as int] & arg_value(s, arg);
            (spec_set_cc(spec_write_reg(s, dr.0 as int, value), dr.0 as int), Ok(true))
        },
        Operation::Br { n, z, p, pc_offset } => {
            let cond = s.regs[R_COND as int];
            if (n && (COND_N & cond) != 0) || (z && (COND_Z & cond) != 0) || (p && (COND_P & cond)
                != 0) {
                (
                    spec_write_reg(
                        s,
                        R_PC as int,
                        wrap_add(s.regs[R_PC as int], pc_offset),
                    ),
                    Ok(true),
                )
            } else {
                (s, Ok(true))
            }
        },
        Operation::Jmp { base_r } => {
            (spec_write_reg(s, R_PC as int, s.regs[base_r.0 as int]), Ok(true))
        },
        Operation::Jsr { pc_offset } => {
            let s1 = spec_write_reg(s, 7, s.regs[R_PC as int]);
            (
                spec_write_reg(s1, R_PC as int, wrap_add(s1.regs[R_PC as int], pc_offset)),
                Ok(true),
            )
        },
        Operation::Jsrr { base_r } => {
            let s1 = spec_write_reg(s, 7, s.regs[R_PC as int]);
            (spec_write_reg(s1, R_PC as int, s1.regs[base_r.0 as int]), Ok(true))
        },
        Operation::Ld { dr, pc_offset } => {
            let address = wrap_add(s.regs[R_PC as int], pc_offset);
            let (s1, read) = spec_mem_read(s, address);
            match read {
                Ok(value) => (
                    spec_set_cc(spec_write_reg(s1, dr.0 as int, value), dr.0 as int),
                    Ok(true),
                ),
                Err(e) => (s1, Err(e)),
            }
        },
        Operation::Ldi { dr, pc_offset } => {
            let address = wrap_add(s.regs[R_PC as int], pc_offset);
            let (s1, read) = spec_mem_read(s, address);
            match read {
                Ok(pointer) => {
                    let (s2, read2) = spec_mem_read(s1, pointer);
                    match read2 {
                        Ok(value) => (
                            spec_set_cc(spec_write_reg(s2, dr.0 as int, value), dr.0 as int),
                            Ok(true),
                        ),
                        Err(e) => (s2, Err(e)),
                    }
                },
                Err(e) => (s1, Err(e)),
            }
        },
        Operation::Ldr { dr, base_r, offset } => {
            let address = wrap_add(s.regs[base_r.0 as int], offset);
            let (s1, read) = spec_mem_read(s, address);
            match read {
                Ok(value) => (
                    spec_set_cc(spec_write_reg(s1, dr.0 as int, value), dr.0 as int),
                    Ok(true),
                ),
                Err(e) => (s1, Err(e)),
            }
        },
        Operation::Lea { dr, pc_offset } => {
            let value = wrap_add(s.regs[R_PC as int], pc_offset);
            (spec_set_cc(spec_write_reg(s, dr.0 as int, value), dr.0 as int), Ok(true))
        },
        Operation::Not { dr, sr } => {
            let value = !s.regs[sr.0 as int];
            (spec_set_cc(spec_write_reg(s, dr.0 as int, value), dr.0 as int), Ok(true))
        },
        Operation::Rti => (s, Err(FatalError::Rti)),
        Operation::St { sr, pc_offset } => {
            let address = wrap_add(s.regs[R_PC as int], pc_offset);
            let (s1, wrote) = spec_mem_write(s, address, s.regs[sr.0 as int]);
            match wrote {
                Ok(_) => (s1, Ok(true)),
                Err(e) => (s1, Err(e)),
            }
        },
        Operation::Sti { sr, pc_offset } => {
            let address = wrap_add(s.regs[R_PC as int], pc_offset);
            let (s1, read) = spec_mem_read(s, address);
            match read {
                Ok(pointer) => {
                    let (s2, wrote) = spec_mem_write(s1, pointer, s1.regs[sr.0 as int]);
                    match wrote {
                        Ok(_) => (s2, Ok(true)),
                        Err(e) => (s2, Err(e)),
                    }
                },
                Err(e) => (s1, Err(e)),
            }
        },
        Operation::Str { sr, base_r, offset } => {
            let address = wrap_add(s.regs[base_r.0 as int], offset);
            let (s1, wrote) = spec_mem_write(s, address, s.regs[sr.0 as int]);
            match wrote {
                Ok(_) => (s1, Ok(true)),
                Err(e) => (s1, Err(e)),
            }
        },
        Operation::Trap { trap_vector } => {
            let s1 = spec_write_reg(s, 7, s.regs[R_PC as int]);
            spec_trap(s1, trap_vector)
        },
    }
}

/// One whole tick: fetch the word at the PC (itself a [`spec_mem_read`], so
/// fetching from a device register has device semantics), decode it, move
/// the PC past the instruction, then execute. The PC is moved before
/// execution, so every PC-relative offset is relative to the following
/// instruction.
#[verifier::opaque]
pub open spec fn spec_tick(s: VmView) -> (VmView, Result<bool, TickError>) {
    let pc = s.regs[R_PC as int];
    let (s1, fetched) = spec_mem_read(s, pc);
    match fetched {
        Err(e) => (s1, Err(TickError::Fatal(e))),
        Ok(word) => match spec_decode(word) {
            Err(e) => (s1, Err(TickError::Parse(e))),
            Ok(op) => {
                let s2 = spec_write_reg(s1, R_PC as int, wrap_add(pc, 1));
                let (s3, result) = spec_tick_op(s2, op);
                match result {
                    Ok(keep_going) => (s3, Ok(keep_going)),
                    Err(e) => (s3, Err(TickError::Fatal(e))),
                }
            },
        },
    }
}

/// Memory after placing words `1 .. k` of the image at consecutive
/// addresses from the origin (word 0), wrapping modulo 2^16; every other
/// cell is zero.
pub open spec fn load_mem(obj: Seq<u16>, k: int) -> Seq<u16>
    recommends
        1 <= k <= obj.len(),
    decreases k,
{
    if k <= 1 {
        init_view().mem
    } else {
        load_mem(obj, k - 1).update(wrap_add(obj[0], (k - 2) as u16) as int, obj[k - 1])
    }
}

/// The machine a successful load yields: the image placed in an otherwise
/// zero memory, the PC at the entry point, COND at `Z`, everything else
/// zero, console queues empty.
pub open spec fn load_view(obj: Seq<u16>) -> VmView {
    VmView {
        mem: load_mem(obj, obj.len() as int),
        regs: init_view().regs.update(R_PC as int, R_PC_INIT).update(R_COND as int, COND_Z),
        input: Seq::empty(),
        output: Seq::empty(),
    }
}

/// The interpreter capability: load an image, then tick until halt. Every
/// method's behaviour is pinned to the transition functions above, so any
/// carrier of this trait is the same machine.
pub trait VmSpec: VmMem + Sized {
    /// Build a machine from a program image: word 0 is the load origin, the
    /// rest is placed from there. An empty image is refused.
    fn load(obj: &[u16]) -> (r: Result<Self, LoadError>)
        ensures
            obj@.len() == 0 ==> r == Err::<Self, LoadError>(LoadError::EmptyProgram),
            obj@.len() > 0 ==> (r matches Ok(machine) && machine.vw() == load_view(obj@)
                && wf_view(machine.vw())),
    ;

    /// One fetch-decode-execute step: returns `Ok(true)` to keep going,
    /// `Ok(false)` after a HALT trap, and the failed tick's error otherwise.
    fn tick(&mut self) -> (r: Result<bool, TickError>)
        requires
            wf_view(old(self).vw()),
        ensures
            final(self).vw() == spec_tick(old(self).vw()).0,
            r == spec_tick(old(self).vw()).1,
            wf_view(final(self).vw()),
    ;

    /// Execute one already decoded operation against a state whose PC has
    /// been moved past it.
    fn tick_op(&mut self, op: Operation) -> (r: Result<bool, FatalError>)
        requires
            wf_view(old(self).vw()),
            op.wf(),
        ensures
            final(self).vw() == spec_tick_op(old(self).vw(), op).0,
            r == spec_tick_op(old(self).vw(), op).1,
            wf_view(final(self).vw()),
    ;

    /// Service one trap vector (the caller has already saved the PC to R7).
    fn trap(&mut self, trap_vector: u16) -> (r: Result<bool, FatalError>)
        requires
            wf_view(old(self).vw()),
        ensures
            final(self).vw() == spec_trap(old(self).vw(), trap_vector).0,
            r == spec_trap(old(self).vw(), trap_vector).1,
            wf_view(final(self).vw()),
    ;
}

/// Set COND from the value `register` now holds: `Z` for zero, `N` for a
/// set top bit, else `P`.
fn set_cond_reg<T: VmMem>(vm_mem: &mut T, register: Register)
    requires
        register.0 < REGISTERS,
        wf_view(old(vm_mem).vw()),
    ensures
        final(vm_mem).vw() == spec_set_cc(old(vm_mem).vw(), register.0 as int),
{
    let value = vm_mem.read_reg(register);
    if value == 0 {
        vm_mem.write_reg(Register(R_COND), COND_Z);
    } else if value < 0x8000 {
        vm_mem.write_reg(Register(R_COND), COND_P);
    } else {
        vm_mem.write_reg(Register(R_COND), COND_N);
    }
}

impl VmSpec for Vm {
    fn load(obj: &[u16]) -> (r: Result<Self, LoadError>) {
        if obj.len() == 0 {
            return Err(LoadError::EmptyProgram);
        }
        let origin = obj[0];
        let mut machine = Vm::default();
        let mut i: usize = 1;
        while i < obj.len()
            invariant
                1 <= i <= obj@.len(),
                origin == obj@[0],
                wf_view(machine.vw()),
                machine.vw() == (VmView { mem: load_mem(obj@, i as int), ..init_view() }),
            decreases obj@.len() - i,
        {
            machine.poke(origin.wrapping_add(#[verifier::truncate] ((i - 1) as u16)), obj[i]);
            i = i + 1;
        }
        machine.write_reg(Register(R_PC), R_PC_INIT);
        machine.write_reg(Register(R_COND), COND_Z);
        proof {
            assert(machine.vw() =~= load_view(obj@));
        }
        Ok(machine)
    }

    fn tick(&mut self) -> (r: Result<bool, TickError>) {
        proof {
            reveal(spec_tick);
        }
        let pc = self.read_reg(Register(R_PC));
        let word = match self.read_mem(pc) {
            Ok(word) => word,
            Err(e) => {
                return Err(TickError::Fatal(e));
            },
        };
        let op = match Operation::parse(word) {
            Ok(op) => op,
            Err(e) => {
                return Err(TickError::Parse(e));
            },
        };
        self.write_reg(Register(R_PC), pc.wrapping_add(1));
        match self.tick_op(op) {
            Ok(keep_going) => Ok(keep_going),
            Err(e) => Err(TickError::Fatal(e)),
        }
    }

    fn tick_op(&mut self, op: Operation) -> (r: Result<bool, FatalError>) {
        proof {
            reveal(spec_tick_op);
        }
        match op {
            Operation::Add { dr, sr1, arg: Argument::Register(sr2) } => {
                let value = self.read_reg(sr1).wrapping_add(self.read_reg(sr2));
                self.write_reg(dr, value);
                set_cond_reg(self, dr);
            },
            Operation::Add { dr, sr1, arg: Argument::Immediate(imm) } => {
                let value = self.read_reg(sr1).wrapping_add(imm);
                self.write_reg(dr, value);
                set_cond_reg(self, dr);
            },
            Operation::And { dr, sr1, arg: Argument::Register(sr2) } => {
                let value = self.read_reg(sr1) & self.read_reg(sr2);
                self.write_reg(dr, value);
                set_cond_reg(self, dr);
            },
            Operation::And { dr, sr1, arg: Argument::Immediate(imm) } => {
                let value = self.read_reg(sr1) & imm;
                self.write_reg(dr, value);
                set_cond_reg(self, dr);
            },
            Operation::Br { n, z, p, pc_offset } => {
                let cond = self.read_reg(Register(R_COND));
                if (n && (COND_N & cond) != 0) || (z && (COND_Z & cond) != 0) || (p && (COND_P
                    & cond) != 0) {
                    let target = self.read_reg(Register(R_PC)).wrapping_add(pc_offset);
                    self.write_reg(Register(R_PC), target);
                }
            },
            Operation::Jmp { base_r } => {
                let target = self.read_reg(base_r);
                self.write_reg(Register(R_PC), target);
            },
            Operation::Jsr { pc_offset } => {
                let pc = self.read_reg(Register(R_PC));
                self.write_reg(Register(7), pc);
                let target = self.read_reg(Register(R_PC)).wrapping_add(pc_offset);
                self.write_reg(Register(R_PC), target);
            },
            Operation::Jsrr { base_r } => {
                let pc = self.read_reg(Register(R_PC));
                self.write_reg(Register(7), pc);
                let target = self.read_reg(base_r);
                self.write_reg(Register(R_PC), target);
            },
            Operation::Ld { dr, pc_offset } => {
                let address = self.read_reg(Register(R_PC)).wrapping_add(pc_offset);
                let value = match self.read_mem(address) {
                    Ok(value) => value,
                    Err(e) => {
                        return Err(e);
                    },
                };
                self.write_reg(dr, value);
                set_cond_reg(self, dr);
            },
            Operation::Ldi { dr, pc_offset } => {
                let address = self.read_reg(Register(R_PC)).wrapping_add(pc_offset);
                let pointer = match self.read_mem(address) {
                    Ok(pointer) => pointer,
                    Err(e) => {
                        return Err(e);
                    },
                };
                let value = match self.read_mem(pointer) {
                    Ok(value) => value,
                    Err(e) => {
                        return Err(e);
                    },
                };
                self.write_reg(dr, value);
                set_cond_reg(self, dr);
            },
            Operation::Ldr { dr, base_r, offset } => {
                let address = self.read_reg(base_r).wrapping_add(offset);
                let value = match self.read_mem(address) {
                    Ok(value) => value,
                    Err(e) => {
                        return Err(e);
                    },
                };
                self.write_reg(dr, value);
                set_cond_reg(self, dr);
            },
            Operation::Lea { dr, pc_offset } => {
                let value = self.read_reg(Register(R_PC)).wrapping_add(pc_offset);
                self.write_reg(dr, value);
                set_cond_reg(self, dr);
            },
            Operation::Not { dr, sr } => {
                let value = !self.read_reg(sr);
                self.write_reg(dr, value);
                set_cond_reg(self, dr);
            },
            Operation::Rti => {
                return Err(FatalError::Rti);
            },
            Operation::St { sr, pc_offset } => {
                let address = self.read_reg(Register(R_PC)).wrapping_add(pc_offset);
                let value = self.read_reg(sr);
                match self.write_mem(address, value) {
                    Ok(_) => {},
                    Err(e) => {
                        return Err(e);
                    },
                }
            },
            Operation::Sti { sr, pc_offset } => {
                let address = self.read_reg(Register(R_PC)).wrapping_add(pc_offset);
                let pointer = match self.read_mem(address) {
                    Ok(pointer) => pointer,
                    Err(e) => {
                        return Err(e);
                    },
                };
                let value = self.read_reg(sr);
                match self.write_mem(pointer, value) {
                    Ok(_) => {},
                    Err(e) => {
                        return Err(e);
                    },
                }
            },
            Operation::Str { sr, base_r, offset } => {
                let address = self.read_reg(base_r).wrapping_add(offset);
                let value = self.read_reg(sr);
                match self.write_mem(address, value) {
                    Ok(_) => {},
                    Err(e) => {
                        return Err(e);
                    },
                }
            },
            Operation::Trap { trap_vector } => {
                let pc = self.read_reg(Register(R_PC));
                self.write_reg(Register(7), pc);
                return self.trap(trap_vector);
            },
        }
        Ok(true)
    }

    fn trap(&mut self, trap_vector: u16) -> (r: Result<bool, FatalError>) {
        proof {
            reveal(spec_trap);
        }
        if trap_vector == 0x20 {
            let byte = self.pop_input();
            self.write_reg(Register(0), byte as u16);
        } else if trap_vector == 0x21 {
            let value = self.read_reg(Register(0));
            self.put_byte(#[verifier::truncate] (value as u8));
        } else if trap_vector == 0x22 {
            let start = self.read_reg(Register(0));
            let bytes = self.c_str(start);
            self.put_bytes(&bytes);
        } else if trap_vector == 0x25 {
            return Ok(false);
        } else {
            return Err(FatalError::BadTrap { trap_vector });
        }
        Ok(true)
    }
}

/// Whether the machine's next step must consume a console byte that is not
/// there: the input queue is empty and the instruction at the PC is a
/// `GETC` trap.
pub open spec fn spec_wants_input(s: VmView) -> bool {
    &&& s.input.len() == 0
    &&& !is_mmio(s.regs[R_PC as int])
    &&& spec_decode(s.mem[s.regs[R_PC as int] as int]) == Ok::<Operation, ParseError>(
        Operation::Trap { trap_vector: 0x20 },
    )
}

impl Vm {
    /// Whether the next tick would consume a console byte that is not there
    /// yet. A host that wants `GETC` to block — rather than read 0 at
    /// end-of-input — waits for one byte and pushes it before ticking.
    pub fn wants_input(&self) -> (r: bool)
        requires
            wf_view(self.vw()),
        ensures
            r == spec_wants_input(self.vw()),
    {
        if self.has_input() {
            return false;
        }
        let pc = self.read_reg(Register(R_PC));
        if pc == KBSR || pc == KBDR || pc == DSR || pc == DDR || pc == MCR {
            return false;
        }
        let word = self.mem_at(pc);
        match Operation::parse(word) {
            Ok(Operation::Trap { trap_vector }) => trap_vector == 0x20,
            _ => false,
        }
    }
}

/// The state `n` ticks after `s`; [`running`] says whether each of those
/// ticks in fact asked to keep going.
pub open spec fn runs_to(s: VmView, n: nat) -> VmView
    decreases n,
{
    if n == 0 {
        s
    } else {
        spec_tick(runs_to(s, (n - 1) as nat)).0
    }
}

/// What tick number `n` (counting from 0) returns, starting from `s`.
pub open spec fn tick_result(s: VmView, n: nat) -> Result<bool, TickError> {
    spec_tick(runs_to(s, n)).1
}

/// The first `n` ticks from `s` all asked to keep going.
pub open spec fn running(s: VmView, n: nat) -> bool {
    forall|i: nat| i < n ==> #[trigger] tick_result(s, i) == Ok::<bool, TickError>(true)
}

/// The run's last tick: tick `n` either signalled halt (then the run
/// returned `Ok`) or failed (then the run returned that error), and the
/// machine is left exactly at the state after it.
pub open spec fn halted_at(s0: VmView, n: nat, s1: VmView, r: Result<(), TickError>) -> bool {
    s1 == runs_to(s0, n + 1) && match tick_result(s0, n) {
        Ok(keep_going) => !keep_going && r == Ok::<(), TickError>(()),
        Err(e) => r == Err::<(), TickError>(e),
    }
}

/// What a finished run means: some number of keep-going ticks, then one
/// final tick that halted or failed.
pub open spec fn run_post(s0: VmView, s1: VmView, r: Result<(), TickError>) -> bool {
    exists|n: nat| running(s0, n) && #[trigger] halted_at(s0, n, s1, r)
}

/// A trap leaves the state well-formed.
pub proof fn lemma_trap_preserves_wf(s: VmView, trap_vector: u16)
    requires
        wf_view(s),
    ensures
        wf_view(spec_trap(s, trap_vector).0),
{
    reveal(spec_trap);
}

/// Executing one well-formed operation leaves the state well-formed.
pub proof fn lemma_tick_op_preserves_wf(s: VmView, op: Operation)
    requires
        wf_view(s),
        op.wf(),
    ensures
        wf_view(spec_tick_op(s, op).0),
{
    reveal(spec_tick_op);
    match op {
        Operation::Add { dr, sr1, arg } => {},
        Operation::And { dr, sr1, arg } => {},
        Operation::Br { n, z, p, pc_offset } => {},
        Operation::Jmp { base_r } => {},
        Operation::Jsr { pc_offset } => {},
        Operation::Jsrr { base_r } => {},
        Operation::Ld { dr, pc_offset } => {},
        Operation::Ldi { dr, pc_offset } => {},
        Operation::Ldr { dr, base_r, offset } => {},
        Operation::Lea { dr, pc_offset } => {},
        Operation::Not { dr, sr } => {},
        Operation::Rti => {},
        Operation::St { sr, pc_offset } => {},
        Operation::Sti { sr, pc_offset } => {},
        Operation::Str { sr, base_r, offset } => {},
        Operation::Trap { trap_vector } => {
            lemma_trap_preserves_wf(spec_write_reg(s, 7, s.regs[R_PC as int]), trap_vector);
        },
    }
}

/// A tick leaves the state well-formed: no transition changes the size of
/// memory or of the register file.
pub proof fn lemma_tick_preserves_wf(s: VmView)
    requires
        wf_view(s),
    ensures
        wf_view(spec_tick(s).0),
{
    reveal(spec_tick);
    let pc = s.regs[R_PC as int];
    let (s1, fetched) = spec_mem_read(s, pc);
    match fetched {
        Ok(word) => {
            crate::ops_parse::lemma_decode_wf(word);
            match spec_decode(word) {
                Ok(op) => {
                    lemma_tick_op_preserves_wf(
                        spec_write_reg(s1, R_PC as int, wrap_add(pc, 1)),
                        op,
                    );
                },
                Err(_) => {},
            }
        },
        Err(_) => {},
    }
}

/// Tick until a HALT trap (`Some(Ok(()))`) or the first failed tick
/// (`Some(Err(e))`), giving up after `max_ticks` ticks with `None` — the
/// machine then still runs, and the caller may simply call again. Either
/// way the machine is left exactly where the last tick left it.
#[verifier::loop_isolation(false)]
pub fn run<T: VmSpec>(vm: &mut T, max_ticks: u64) -> (r: Option<Result<(), TickError>>)
    requires
        wf_view(old(vm).vw()),
    ensures
        wf_view(final(vm).vw()),
        r matches Some(outcome) ==> run_post(old(vm).vw(), final(vm).vw(), outcome),
        r is None ==> running(old(vm).vw(), max_ticks as nat) && final(vm).vw() == runs_to(
            old(vm).vw(),
            max_ticks as nat,
        ),
{
    let ghost start = vm.vw();
    let ghost mut ticks: nat = 0;
    let mut budget: u64 = max_ticks;
    while budget > 0
        invariant
            wf_view(vm.vw()),
            vm.vw() == runs_to(start, ticks),
            running(start, ticks),
            ticks + budget == max_ticks,
        decreases budget,
    {
        let ghost before = vm.vw();
        proof {
            lemma_tick_preserves_wf(before);
        }
        match vm.tick() {
            Ok(true) => {
                budget = budget - 1;
                proof {
                    ticks = ticks + 1;
                    assert(vm.vw() == runs_to(start, ticks));
                    assert forall|i: nat| i < ticks implies #[trigger] tick_result(start, i)
                        == Ok::<bool, TickError>(true) by {
                        if i + 1 == ticks {
                            assert(tick_result(start, i) == spec_tick(before).1);
                        }
                    }
                }
            },
            Ok(false) => {
                proof {
                    assert(halted_at(start, ticks, vm.vw(), Ok::<(), TickError>(())));
                }
                return Some(Ok(()));
            },
            Err(e) => {
                proof {
                    assert(halted_at(start, ticks, vm.vw(), Err::<(), TickError>(e)));
                }
                return Some(Err(e));
            },
        }
    }
    None
}


/// Wrapping addition is addition modulo 2^16.
pub proof fn lemma_wrap_add_is_mod(a: u16, b: u16)
    ensures
        wrap_add(a, b) == (a + b) % 0x10000,
{
    if a + b > 0xffff {
        assert((a + b) % 0x10000 == (a + b) - 0x10000) by (nonlinear_arith)
            requires
                0x10000 <= a + b < 0x20000,
        ;
    } else {
        assert((a + b) % 0x10000 == a + b) by (nonlinear_arith)
            requires
                0 <= a + b < 0x10000,
        ;
    }
}

/// Arithmetic wraps: ADD writes the operand sum modulo 2^16 into the
/// destination register, register and immediate operand alike.
pub proof fn lemma_add_wraps(s: VmView, dr: Register, sr1: Register, arg: Argument)
    requires
        wf_view(s),
        dr.wf(),
        sr1.wf(),
        arg.wf(),
    ensures
        spec_tick_op(s, Operation::Add { dr, sr1, arg }).0.regs[dr.0 as int] == (s.regs[
            sr1.0 as int
        ] + arg_value(s, arg)) % 0x10000,
        spec_tick_op(s, Operation::Add { dr, sr1, arg }).1 == Ok::<bool, FatalError>(true),
{
    reveal(spec_tick_op);
    lemma_wrap_add_is_mod(s.regs[sr1.0 as int], arg_value(s, arg));
}

/// COND holds one of the three condition patterns; as they are distinct
/// single bits, it holds exactly one.
pub open spec fn cc_valid(s: VmView) -> bool {
    s.regs[R_COND as int] == COND_P || s.regs[R_COND as int] == COND_Z || s.regs[R_COND as int]
        == COND_N
}

/// CC exclusivity: whatever one tick does, it leaves COND exactly one of
/// P, Z and N — every instruction either leaves COND alone or writes one of
/// the three patterns.
pub proof fn lemma_cc_exclusive(s: VmView)
    requires
        wf_view(s),
        cc_valid(s),
    ensures
        cc_valid(spec_tick(s).0),
{
    reveal(spec_tick);
    reveal(spec_tick_op);
    reveal(spec_trap);
    let pc = s.regs[R_PC as int];
    let (s1, fetched) = spec_mem_read(s, pc);
    match fetched {
        Ok(word) => {
            crate::ops_parse::lemma_decode_wf(word);
            match spec_decode(word) {
                Ok(op) => {
                    let s2 = spec_write_reg(s1, R_PC as int, wrap_add(pc, 1));
                    match op {
                        Operation::Add { dr, sr1, arg } => {},
                        Operation::And { dr, sr1, arg } => {},
                        Operation::Br { n, z, p, pc_offset } => {},
                        Operation::Jmp { base_r } => {},
                        Operation::Jsr { pc_offset } => {},
                        Operation::Jsrr { base_r } => {},
                        Operation::Ld { dr, pc_offset } => {},
                        Operation::Ldi { dr, pc_offset } => {},
                        Operation::Ldr { dr, base_r, offset } => {},
                        Operation::Lea { dr, pc_offset } => {},
                        Operation::Not { dr, sr } => {},
                        Operation::Rti => {},
                        Operation::St { sr, pc_offset } => {},
                        Operation::Sti { sr, pc_offset } => {},
                        Operation::Str { sr, base_r, offset } => {},
                        Operation::Trap { trap_vector } => {},
                    }
                },
                Err(_) => {},
            }
        },
        Err(_) => {},
    }
}

/// Whether a branch fires: some selected condition bit is set in COND.
pub open spec fn branch_taken(s: VmView, n: bool, z: bool, p: bool) -> bool {
    (n && (COND_N & s.regs[R_COND as int]) != 0) || (z && (COND_Z & s.regs[R_COND as int]) != 0)
        || (p && (COND_P & s.regs[R_COND as int]) != 0)
}

/// PC-relative base: for an instruction stored at address `a`, every
/// PC-relative effective address is computed from `a + 1` — the address of
/// the following instruction — never from `a` itself. Shown for LEA, JSR,
/// BR, LD and ST; LDI and STI resolve their pointer the same way.
pub proof fn lemma_pc_relative(s: VmView)
    requires
        wf_view(s),
        !is_mmio(s.regs[R_PC as int]),
    ensures
        ({
            let a = s.regs[R_PC as int];
            let next = wrap_add(a, 1);
            match spec_decode(s.mem[a as int]) {
                Ok(op) => match op {
                    Operation::Lea { dr, pc_offset } => spec_tick(s).0.regs[dr.0 as int]
                        == wrap_add(next, pc_offset),
                    Operation::Jsr { pc_offset } => spec_tick(s).0.regs[R_PC as int] == wrap_add(
                        next,
                        pc_offset,
                    ) && spec_tick(s).0.regs[7] == next,
                    Operation::Br { n, z, p, pc_offset } => spec_tick(s).0.regs[R_PC as int] == (
                    if branch_taken(s, n, z, p) {
                        wrap_add(next, pc_offset)
                    } else {
                        next
                    }),
                    Operation::Ld { dr, pc_offset } => !is_mmio(wrap_add(next, pc_offset))
                        ==> spec_tick(s).0.regs[dr.0 as int] == s.mem[wrap_add(
                        next,
                        pc_offset,
                    ) as int],
                    Operation::St { sr, pc_offset } => !is_mmio(wrap_add(next, pc_offset))
                        ==> spec_tick(s).0.mem == s.mem.update(
                        wrap_add(next, pc_offset) as int,
                        s.regs[sr.0 as int],
                    ),
                    _ => true,
                },
                Err(_) => true,
            }
        }),
{
    reveal(spec_tick);
    reveal(spec_tick_op);
    let pc = s.regs[R_PC as int];
    let (s1, fetched) = spec_mem_read(s, pc);
    match fetched {
        Ok(word) => {
            crate::ops_parse::lemma_decode_wf(word);
            match spec_decode(word) {
                Ok(op) => {
                    let s2 = spec_write_reg(s1, R_PC as int, wrap_add(pc, 1));
                    match op {
                        Operation::Lea { dr, pc_offset } => {},
                        Operation::Jsr { pc_offset } => {},
                        Operation::Br { n, z, p, pc_offset } => {},
                        Operation::Ld { dr, pc_offset } => {},
                        Operation::St { sr, pc_offset } => {},
                        _ => {},
                    }
                },
                Err(_) => {},
            }
        },
        Err(_) => {},
    }
}

/// MMIO write rejection: a store that resolves to any device-register
/// address — through ST, STR or STI — fails the tick with a fatal
/// MMIO-write error naming that address, and so fails the run.
pub proof fn lemma_mmio_write_rejected(s: VmView)
    requires
        wf_view(s),
        !is_mmio(s.regs[R_PC as int]),
    ensures
        ({
            let a = s.regs[R_PC as int];
            let next = wrap_add(a, 1);
            match spec_decode(s.mem[a as int]) {
                Ok(op) => match op {
                    Operation::St { sr, pc_offset } => is_mmio(wrap_add(next, pc_offset))
                        ==> spec_tick(s).1 == Err::<bool, TickError>(
                        TickError::Fatal(
                            FatalError::MmioWrite { address: wrap_add(next, pc_offset) },
                        ),
                    ),
                    Operation::Str { sr, base_r, offset } => is_mmio(
                        wrap_add(s.regs[base_r.0 as int], offset),
                    ) ==> spec_tick(s).1 == Err::<bool, TickError>(
                        TickError::Fatal(
                            FatalError::MmioWrite {
                                address: wrap_add(s.regs[base_r.0 as int], offset),
                            },
                        ),
                    ),
                    Operation::Sti { sr, pc_offset } => (!is_mmio(wrap_add(next, pc_offset))
                        && is_mmio(s.mem[wrap_add(next, pc_offset) as int])) ==> spec_tick(s).1
                        == Err::<bool, TickError>(
                        TickError::Fatal(
                            FatalError::MmioWrite {
                                address: s.mem[wrap_add(next, pc_offset) as int],
                            },
                        ),
                    ),
                    _ => true,
                },
                Err(_) => true,
            }
        }),
{
    reveal(spec_tick);
    reveal(spec_tick_op);
    let pc = s.regs[R_PC as int];
    let (s1, fetched) = spec_mem_read(s, pc);
    match fetched {
        Ok(word) => {
            crate::ops_parse::lemma_decode_wf(word);
            match spec_decode(word) {
                Ok(op) => {
                    let s2 = spec_write_reg(s1, R_PC as int, wrap_add(pc, 1));
                    match op {
                        Operation::St { sr, pc_offset } => {},
                        Operation::Str { sr, base_r, offset } => {},
                        Operation::Sti { sr, pc_offset } => {},
                        _ => {},
                    }
                },
                Err(_) => {},
            }
        },
        Err(_) => {},
    }
}

/// HALT stops: when the next tick executes a HALT trap, any finished run
/// from here is exactly that one tick and returns `Ok`.
pub proof fn lemma_halt_stops(s0: VmView, s1: VmView, r: Result<(), TickError>)
    requires
        spec_tick(s0).1 == Ok::<bool, TickError>(false),
        run_post(s0, s1, r),
    ensures
        r == Ok::<(), TickError>(()),
        s1 == spec_tick(s0).0,
{
    let n = choose|n: nat| running(s0, n) && #[trigger] halted_at(s0, n, s1, r);
    if n > 0 {
        assert(tick_result(s0, 0) == Ok::<bool, TickError>(true));
        assert(false);
    }
    assert(runs_to(s0, 1) == spec_tick(runs_to(s0, 0)).0);
}

/// A tick that fails ends the run with that error: the run makes no
/// further ticks after the first faulting one.
pub proof fn lemma_error_stops(s0: VmView, s1: VmView, r: Result<(), TickError>, e: TickError)
    requires
        spec_tick(s0).1 == Err::<bool, TickError>(e),
        run_post(s0, s1, r),
    ensures
        r == Err::<(), TickError>(e),
        s1 == spec_tick(s0).0,
{
    let n = choose|n: nat| running(s0, n) && #[trigger] halted_at(s0, n, s1, r);
    if n > 0 {
        assert(tick_result(s0, 0) == Ok::<bool, TickError>(true));
        assert(false);
    }
    assert(runs_to(s0, 1) == spec_tick(runs_to(s0, 0)).0);
}

/// Loading never changes the size of memory.
pub proof fn lemma_load_mem_len(obj: Seq<u16>, k: int)
    ensures
        load_mem(obj, k).len() == MEMORY_MAX,
    decreases k,
{
    if k > 1 {
        lemma_load_mem_len(obj, k - 1);
    }
}

/// After placing the first `k - 1` image words, word `j` (for `j < k`)
/// sits at `origin + j - 1`, provided the image is short enough that no
/// two words share a wrapped address.
proof fn lemma_load_mem_at(obj: Seq<u16>, k: int, j: int)
    requires
        1 <= j < k <= obj.len(),
        obj.len() <= 65537,
    ensures
        load_mem(obj, k)[wrap_add(obj[0], (j - 1) as u16) as int] == obj[j],
    decreases k,
{
    lemma_load_mem_len(obj, k - 1);
    if j < k - 1 {
        lemma_load_mem_at(obj, k - 1, j);
    }
}

/// Load placement: after a load, image word `j` sits at `origin + j - 1`
/// for every `j`, the PC is at the entry point and COND is `Z`. (An image
/// of more than 65537 words would wrap around and overwrite itself, so its
/// earlier words are excluded.)
pub proof fn lemma_load_placement(obj: Seq<u16>)
    requires
        1 <= obj.len() <= 65537,
    ensures
        forall|j: int|
            1 <= j < obj.len() ==> load_view(obj).mem[wrap_add(obj[0], (j - 1) as u16) as int]
                == #[trigger] obj[j],
        load_view(obj).regs[R_PC as int] == R_PC_INIT,
        load_view(obj).regs[R_COND as int] == COND_Z,
{
    assert forall|j: int| #![trigger obj[j]] 1 <= j < obj.len() implies load_view(obj).mem[
        wrap_add(obj[0], (j - 1) as u16) as int] == obj[j] by {
        lemma_load_mem_at(obj, obj.len() as int, j);
    }
}

} // verus!\n