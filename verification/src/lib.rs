//! An LC-3 virtual machine: a 16-bit teaching ISA with eight general-purpose
//! registers, a 64 Ki-word memory, condition codes, and a small trap vector
//! for console I/O.
//!
//! The crate is split the way the machine is: [`ops`] holds the instruction
//! types, [`ops_parse`] decodes a 16-bit word into one, [`vm`] owns memory and
//! registers and enforces the memory-mapped I/O policy, and [`vm_spec`] runs
//! the fetch-decode-execute loop. Console bytes flow through queues held in
//! the machine state, so the whole interpreter is a pure state transformer;
//! a host feeds the input queue and drains the output queue.

pub mod debug;
pub mod io;
pub mod ops;
pub mod ops_parse;
pub mod vm;
pub mod vm_spec;
