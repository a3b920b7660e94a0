//! Machine state: the 64 Ki-word memory, the ten-register file, and the
//! console byte queues, behind the accessor capability ([`VmMem`]) through
//! which the interpreter mediates every read and write — including the
//! memory-mapped device registers.
//!
//! The console is modelled as two byte queues held in the state: `input`
//! holds bytes the host has made available and not yet consumed, `output`
//! holds bytes the machine has emitted. A host feeds one and drains the
//! other; the interpreter itself is a pure state transformer.

use vstd::prelude::*;

use crate::ops::Register;

verus! {

/// Number of memory cells: one per 16-bit address.
pub const MEMORY_MAX: usize = 65536;

/// Number of registers: eight general-purpose, the program counter and the
/// condition register.
pub const REGISTERS: usize = 10;

/// Keyboard status register: reads as `0x8000` when a console byte waits,
/// else `0`.
pub const KBSR: u16 = 0xfe00;

/// Keyboard data register: reading it consumes one console byte, or yields
/// `0` when none is available.
pub const KBDR: u16 = 0xfe02;

/// Display status register: unsupported, reads are fatal.
pub const DSR: u16 = 0xfe04;

/// Display data register: unsupported, reads are fatal.
pub const DDR: u16 = 0xfe06;

/// Machine control register: unsupported, reads are fatal.
pub const MCR: u16 = 0xfffe;

/// A non-recoverable fault: the program touched hardware it does not own or
/// asked for a service this machine does not provide. Each one aborts the
/// run.
#[derive(Clone, Copy, Debug, PartialEq, Eq, Structural)]
pub enum FatalError {
    /// A store resolved to a memory-mapped device register.
    MmioWrite { address: u16 },
    /// A load from a device register with no read semantics (DSR, DDR, MCR).
    UnsupportedRead { address: u16 },
    /// The `RTI` instruction, which this machine does not support.
    Rti,
    /// A trap vector outside the defined set.
    BadTrap { trap_vector: u16 },
}

/// The machine as mathematics: memory and register contents, the console
/// bytes not yet consumed, and the console bytes emitted so far.
#[verifier::ext_equal]
pub ghost struct VmView {
    pub mem: Seq<u16>,
    pub regs: Seq<u16>,
    pub input: Seq<u8>,
    pub output: Seq<u8>,
}

/// Memory has exactly one cell per 16-bit address, and the register file has
/// exactly ten entries.
pub open spec fn wf_view(s: VmView) -> bool {
    s.mem.len() == MEMORY_MAX && s.regs.len() == REGISTERS
}

/// The state of a machine fresh out of [`Vm::default`]: everything zero,
/// both console queues empty.
pub open spec fn init_view() -> VmView {
    VmView {
        mem: Seq::new(MEMORY_MAX as nat, |i: int| 0u16),
        regs: Seq::new(REGISTERS as nat, |i: int| 0u16),
        input: Seq::empty(),
        output: Seq::empty(),
    }
}

/// Addition modulo 2^16, the only addition the machine knows.
pub open spec fn wrap_add(x: u16, y: u16) -> u16 {
    if x + y > 0xffff {
        (x + y - 0x10000) as u16
    } else {
        (x + y) as u16
    }
}

/// The five addresses aliased to device registers instead of memory.
pub open spec fn is_mmio(address: u16) -> bool {
    address == KBSR || address == KBDR || address == DSR || address == DDR || address == MCR
}

/// The state after writing `value` to register `r`.
pub open spec fn spec_write_reg(s: VmView, r: int, value: u16) -> VmView {
    VmView { regs: s.regs.update(r, value), ..s }
}

/// What a memory read does: KBSR reports whether input waits, KBDR consumes
/// one input byte (zero when none waits), the remaining device registers are
/// fatal to read, and every other address yields the memory cell.
pub open spec fn spec_mem_read(s: VmView, address: u16) -> (VmView, Result<u16, FatalError>) {
    if address == KBSR {
        (s, Ok(if s.input.len() > 0 { 0x8000u16 } else { 0u16 }))
    } else if address == KBDR {
        if s.input.len() > 0 {
            (VmView { input: s.input.drop_first(), ..s }, Ok(s.input.first() as u16))
        } else {
            (s, Ok(0u16))
        }
    } else if address == DSR || address == DDR || address == MCR {
        (s, Err(FatalError::UnsupportedRead { address }))
    } else {
        (s, Ok(s.mem[address as int]))
    }
}

/// What a memory write does: any device-register address is refused as
/// fatal, every other address updates the cell.
pub open spec fn spec_mem_write(s: VmView, address: u16, value: u16) -> (
    VmView,
    Result<(), FatalError>,
) {
    if is_mmio(address) {
        (s, Err(FatalError::MmioWrite { address }))
    } else {
        (VmView { mem: s.mem.update(address as int, value), ..s }, Ok(()))
    }
}

/// The low bytes of the words from `address` up to (exclusive of) the first
/// zero word, or the end of memory if none follows.
pub open spec fn cstr_at(mem: Seq<u16>, address: int) -> Seq<u8>
    recommends
        mem.len() == MEMORY_MAX,
    decreases MEMORY_MAX - address,
    when address <= MEMORY_MAX
{
    if address < 0 || address >= MEMORY_MAX {
        Seq::empty()
    } else if mem[address] == 0 {
        Seq::empty()
    } else {
        seq![mem[address] as u8] + cstr_at(mem, address + 1)
    }
}

/// The capability set the interpreter needs from a machine state: register
/// and memory access (the latter carrying the device-register policy) and
/// the C-string walk the `PUTS` trap uses. Unit tests may supply another
/// carrier; its contract is pinned to the same mathematics.
pub trait VmMem {
    /// The mathematical state this carrier represents.
    spec fn vw(&self) -> VmView;

    /// Read register `register` (any of the ten).
    fn read_reg(&self, register: Register) -> (r: u16)
        requires
            register.0 < REGISTERS,
            wf_view(self.vw()),
        ensures
            r == self.vw().regs[register.0 as int],
    ;

    /// Write register `register` (any of the ten).
    fn write_reg(&mut self, register: Register, value: u16)
        requires
            register.0 < REGISTERS,
            wf_view(old(self).vw()),
        ensures
            final(self).vw() == spec_write_reg(old(self).vw(), register.0 as int, value),
    ;

    /// Read `address`, diverting device addresses to their semantics: the
    /// result and the state change are exactly [`spec_mem_read`].
    fn read_mem(&mut self, address: u16) -> (r: Result<u16, FatalError>)
        requires
            wf_view(old(self).vw()),
        ensures
            final(self).vw() == spec_mem_read(old(self).vw(), address).0,
            r == spec_mem_read(old(self).vw(), address).1,
    ;

    /// Write `address`, refusing every device address as fatal: the result
    /// and the state change are exactly [`spec_mem_write`].
    fn write_mem(&mut self, address: u16, value: u16) -> (r: Result<(), FatalError>)
        requires
            wf_view(old(self).vw()),
        ensures
            final(self).vw() == spec_mem_write(old(self).vw(), address, value).0,
            r == spec_mem_write(old(self).vw(), address, value).1,
    ;

    /// The low bytes of the words from `address` up to the first zero word.
    fn c_str(&self, address: u16) -> (r: Vec<u8>)
        requires
            wf_view(self.vw()),
        ensures
            r@ == cstr_at(self.vw().mem, address as int),
    ;
}

/// The concrete machine: memory, registers, and the two console queues.
pub struct Vm {
    memory: Vec<u16>,
    registers: Vec<u16>,
    input: Vec<u8>,
    output: Vec<u8>,
}

impl VmMem for Vm {
    closed spec fn vw(&self) -> VmView {
        VmView { mem: self.memory@, regs: self.registers@, input: self.input@, output: self.output@ }
    }

    fn read_reg(&self, register: Register) -> (r: u16) {
        self.registers[register.0]
    }

    fn write_reg(&mut self, register: Register, value: u16) {
        self.registers[register.0] = value;
    }

    fn read_mem(&mut self, address: u16) -> (r: Result<u16, FatalError>) {
        if address == KBSR {
            if self.input.len() > 0 {
                Ok(0x8000)
            } else {
                Ok(0)
            }
        } else if address == KBDR {
            if self.input.len() > 0 {
                let byte = self.input.remove(0);
                proof {
                    assert(old(self).vw().input.remove(0) =~= old(self).vw().input.drop_first());
                }
                Ok(byte as u16)
            } else {
                Ok(0)
            }
        } else if address == DSR || address == DDR || address == MCR {
            Err(FatalError::UnsupportedRead { address })
        } else {
            Ok(self.memory[address as usize])
        }
    }

    fn write_mem(&mut self, address: u16, value: u16) -> (r: Result<(), FatalError>) {
        if address == KBSR || address == KBDR || address == DSR || address == DDR || address
            == MCR {
            Err(FatalError::MmioWrite { address })
        } else {
            self.memory[address as usize] = value;
            Ok(())
        }
    }

    fn c_str(&self, address: u16) -> (r: Vec<u8>) {
        let mut collected: Vec<u8> = Vec::new();
        let mut at: usize = address as usize;
        while at < MEMORY_MAX && self.memory[at] != 0
            invariant
                address as int <= at <= MEMORY_MAX,
                wf_view(self.vw()),
                self.vw().mem == self.memory@,
                cstr_at(self.vw().mem, address as int) == collected@ + cstr_at(
                    self.vw().mem,
                    at as int,
                ),
            decreases MEMORY_MAX - at,
        {
            let word = self.memory[at];
            collected.push(#[verifier::truncate] (word as u8));
            at = at + 1;
            proof {
                assert(cstr_at(self.vw().mem, address as int) =~= collected@ + cstr_at(
                    self.vw().mem,
                    at as int,
                ));
            }
        }
        proof {
            assert(cstr_at(self.vw().mem, at as int) =~= Seq::<u8>::empty());
            assert(collected@ + Seq::<u8>::empty() =~= collected@);
        }
        collected
    }
}

impl Default for Vm {
    /// A machine with zeroed memory and registers and empty console queues.
    fn default() -> (r: Self)
        ensures
            r.vw() == init_view(),
    {
        let mut memory: Vec<u16> = Vec::new();
        while memory.len() < MEMORY_MAX
            invariant
                memory@.len() <= MEMORY_MAX,
                forall|i: int| 0 <= i < memory@.len() ==> memory@[i] == 0u16,
            decreases MEMORY_MAX - memory@.len(),
        {
            memory.push(0);
        }
        let mut registers: Vec<u16> = Vec::new();
        while registers.len() < REGISTERS
            invariant
                registers@.len() <= REGISTERS,
                forall|i: int| 0 <= i < registers@.len() ==> registers@[i] == 0u16,
            decreases REGISTERS - registers@.len(),
        {
            registers.push(0);
        }
        let machine = Vm { memory, registers, input: Vec::new(), output: Vec::new() };
        proof {
            assert(machine.vw() =~= init_view());
        }
        machine
    }
}

impl Vm {
    /// Make one console byte available to the machine, behind any already
    /// waiting.
    pub fn push_input(&mut self, byte: u8)
        ensures
            final(self).vw() == (VmView {
                input: old(self).vw().input.push(byte),
                ..old(self).vw()
            }),
    {
        self.input.push(byte);
    }

    /// Hand back everything the machine has written to the console so far,
    /// leaving its output queue empty.
    pub fn take_output(&mut self) -> (r: Vec<u8>)
        ensures
            r@ == old(self).vw().output,
            final(self).vw() == (VmView { output: Seq::empty(), ..old(self).vw() }),
    {
        let mut taken: Vec<u8> = Vec::new();
        core::mem::swap(&mut taken, &mut self.output);
        taken
    }

    /// Pop the next console byte, or 0 when none waits (reading past the end
    /// of input behaves as end-of-file, not as an error).
    pub(crate) fn pop_input(&mut self) -> (r: u8)
        ensures
            old(self).vw().input.len() > 0 ==> r == old(self).vw().input.first()
                && final(self).vw() == (VmView {
                input: old(self).vw().input.drop_first(),
                ..old(self).vw()
            }),
            old(self).vw().input.len() == 0 ==> r == 0 && final(self).vw() == old(self).vw(),
    {
        if self.input.len() > 0 {
            let byte = self.input.remove(0);
            proof {
                assert(old(self).vw().input.remove(0) =~= old(self).vw().input.drop_first());
            }
            byte
        } else {
            0
        }
    }

    /// Emit one byte to the console.
    pub(crate) fn put_byte(&mut self, byte: u8)
        ensures
            final(self).vw() == (VmView {
                output: old(self).vw().output.push(byte),
                ..old(self).vw()
            }),
    {
        self.output.push(byte);
    }

    /// Emit a whole buffer to the console, in order.
    pub(crate) fn put_bytes(&mut self, buf: &Vec<u8>)
        ensures
            final(self).vw() == (VmView {
                output: old(self).vw().output + buf@,
                ..old(self).vw()
            }),
    {
        let ghost orig = self.vw();
        let mut at: usize = 0;
        while at < buf.len()
            invariant
                at <= buf@.len(),
                self.vw() == (VmView { output: orig.output + buf@.take(at as int), ..orig }),
            decreases buf@.len() - at,
        {
            self.output.push(buf[at]);
            at = at + 1;
            proof {
                assert(orig.output + buf@.take(at as int) =~= (orig.output + buf@.take(
                    at as int - 1,
                )).push(buf@[at as int - 1]));
            }
        }
        proof {
            assert(buf@.take(buf@.len() as int) =~= buf@);
        }
    }

    /// Whether any console byte is waiting in the input queue.
    pub fn has_input(&self) -> (r: bool)
        ensures
            r == (self.vw().input.len() > 0),
    {
        self.input.len() > 0
    }

    /// Read the backing store directly, without device semantics: the
    /// host-side peek, used to look at the next instruction.
    pub(crate) fn mem_at(&self, address: u16) -> (r: u16)
        requires
            wf_view(self.vw()),
        ensures
            r == self.vw().mem[address as int],
    {
        self.memory[address as usize]
    }

    /// Write `value` straight into the backing store, device addresses
    /// included: the host-side load path, which owns the hardware.
    pub(crate) fn poke(&mut self, address: u16, value: u16)
        requires
            wf_view(old(self).vw()),
        ensures
            final(self).vw() == (VmView {
                mem: old(self).vw().mem.update(address as int, value),
                ..old(self).vw()
            }),
    {
        self.memory[address as usize] = value;
    }
}

} // verus!
