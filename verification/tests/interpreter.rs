use lc3_rust::ops::{Argument, Operation, Register};
use lc3_rust::ops_parse::ParseError;
use lc3_rust::vm::{FatalError, Vm, VmMem};
use lc3_rust::vm_spec::{
    run, TickError, VmSpec, COND_N, COND_P, COND_Z, R_COND, R_PC,
};

const FUEL: u64 = 10_000;

#[test]
fn add_immediate_sets_positive() {
    let mut vm = Vm::load(&[0x3000, 0x1225, 0xf025]).unwrap();
    assert_eq!(run(&mut vm, FUEL), Some(Ok(())));
    assert_eq!(vm.read_reg(Register(1)), 5);
    assert_eq!(vm.read_reg(Register(R_COND)), COND_P);
}

#[test]
fn add_immediate_negative_sets_n() {
    let mut vm = Vm::load(&[0x3000, 0x123f, 0xf025]).unwrap();
    assert_eq!(run(&mut vm, FUEL), Some(Ok(())));
    assert_eq!(vm.read_reg(Register(1)), 0xffff);
    assert_eq!(vm.read_reg(Register(R_COND)), COND_N);
}

#[test]
fn not_then_add_one_negates() {
    let mut vm = Vm::load(&[0x3000, 0x1025, 0x923f, 0x1261, 0xf025]).unwrap();
    assert_eq!(run(&mut vm, FUEL), Some(Ok(())));
    assert_eq!(vm.read_reg(Register(1)), 0xfffb);
    assert_eq!(vm.read_reg(Register(R_COND)), COND_N);
}

#[test]
fn brz_taken_skips_instruction() {
    let mut vm = Vm::load(&[0x3000, 0x1020, 0x0401, 0x1025, 0xf025]).unwrap();
    assert_eq!(run(&mut vm, FUEL), Some(Ok(())));
    assert_eq!(vm.read_reg(Register(0)), 0);
}

#[test]
fn puts_emits_string() {
    // LEA R0 <- PC + 2 = 0x3003, the address of 'H'; PUTS; HALT.
    let mut vm =
        Vm::load(&[0x3000, 0xe002, 0xf022, 0xf025, 0x0048, 0x0069, 0x0000]).unwrap();
    assert_eq!(run(&mut vm, FUEL), Some(Ok(())));
    assert_eq!(vm.take_output(), b"Hi".to_vec());
}

#[test]
fn illegal_opcode_fails_run() {
    let mut vm = Vm::load(&[0x3000, 0xd000]).unwrap();
    assert_eq!(
        run(&mut vm, FUEL),
        Some(Err(TickError::Parse(ParseError::IllegalOpcode { code: 0xd000 })))
    );
}

#[test]
fn add_wraps_around() {
    // R1 <- -1; R1 <- R1 + 2: wraps to 1.
    let mut vm = Vm::load(&[0x3000, 0x123f, 0x1262, 0xf025]).unwrap();
    assert_eq!(run(&mut vm, FUEL), Some(Ok(())));
    assert_eq!(vm.read_reg(Register(1)), 1);
    assert_eq!(vm.read_reg(Register(R_COND)), COND_P);
}

#[test]
fn and_masks() {
    // R1 <- R0 + 13; R1 <- R1 & 6 = 4.
    let mut vm = Vm::load(&[0x3000, 0x122d, 0x5266, 0xf025]).unwrap();
    assert_eq!(run(&mut vm, FUEL), Some(Ok(())));
    assert_eq!(vm.read_reg(Register(1)), 4);
}

#[test]
fn and_zero_sets_z() {
    // R1 <- R0 + 5; R1 <- R1 & 0.
    let mut vm = Vm::load(&[0x3000, 0x1225, 0x5260, 0xf025]).unwrap();
    assert_eq!(run(&mut vm, FUEL), Some(Ok(())));
    assert_eq!(vm.read_reg(Register(1)), 0);
    assert_eq!(vm.read_reg(Register(R_COND)), COND_Z);
}

#[test]
fn halt_leaves_machine_after_trap() {
    let mut vm = Vm::load(&[0x3000, 0x1225, 0xf025]).unwrap();
    assert_eq!(run(&mut vm, FUEL), Some(Ok(())));
    // HALT sat at 0x3001, so the saved return address and the PC sit past it.
    assert_eq!(vm.read_reg(Register(R_PC)), 0x3002);
    assert_eq!(vm.read_reg(Register(7)), 0x3002);
}

#[test]
fn getc_reads_one_byte() {
    let mut vm = Vm::load(&[0x3000, 0xf020, 0xf025]).unwrap();
    vm.push_input(b'x');
    assert_eq!(run(&mut vm, FUEL), Some(Ok(())));
    assert_eq!(vm.read_reg(Register(0)), b'x' as u16);
    // GETC leaves the condition codes alone.
    assert_eq!(vm.read_reg(Register(R_COND)), COND_Z);
}

#[test]
fn getc_at_end_of_input_reads_zero() {
    let mut vm = Vm::load(&[0x3000, 0xf020, 0xf025]).unwrap();
    assert_eq!(run(&mut vm, FUEL), Some(Ok(())));
    assert_eq!(vm.read_reg(Register(0)), 0);
}

#[test]
fn out_emits_low_byte_of_r0() {
    let mut vm = Vm::load(&[0x3000, 0x2002, 0xf021, 0xf025, 0x0041]).unwrap();
    assert_eq!(run(&mut vm, FUEL), Some(Ok(())));
    assert_eq!(vm.take_output(), b"A".to_vec());
}

#[test]
fn unknown_trap_vector_is_fatal() {
    let mut vm = Vm::load(&[0x3000, 0xf0ff]).unwrap();
    assert_eq!(
        run(&mut vm, FUEL),
        Some(Err(TickError::Fatal(FatalError::BadTrap { trap_vector: 0xff })))
    );
}

#[test]
fn rti_is_fatal() {
    let mut vm = Vm::load(&[0x3000, 0x8000]).unwrap();
    assert_eq!(run(&mut vm, FUEL), Some(Err(TickError::Fatal(FatalError::Rti))));
}

#[test]
fn load_to_unsupported_device_is_fatal() {
    // R1 <- 0xfe04 (from data); R0 <- mem[R1]: a DSR read.
    let mut vm = Vm::load(&[0x3000, 0x2202, 0x6040, 0xf025, 0xfe04]).unwrap();
    assert_eq!(
        run(&mut vm, FUEL),
        Some(Err(TickError::Fatal(FatalError::UnsupportedRead { address: 0xfe04 })))
    );
}

#[test]
fn store_to_mmio_fails_run() {
    for device in [0xfe00u16, 0xfe02, 0xfe04, 0xfe06, 0xfffe] {
        // R1 <- device address (from data); mem[R1] <- R0: refused.
        let mut vm = Vm::load(&[0x3000, 0x2202, 0x7040, 0xf025, device]).unwrap();
        assert_eq!(
            run(&mut vm, FUEL),
            Some(Err(TickError::Fatal(FatalError::MmioWrite { address: device })))
        );
    }
}

#[test]
fn run_gives_up_after_its_budget() {
    // An unconditional branch back to itself never halts.
    let mut vm = Vm::load(&[0x3000, 0x0fff]).unwrap();
    assert_eq!(run(&mut vm, 100), None);
    // The machine still runs: a further budget is consumed the same way.
    assert_eq!(run(&mut vm, 100), None);
}

#[test]
fn jmp_moves_pc() {
    // R1 <- 0x3003 (from data at 0x3005); JMP R1 skips the halt at 0x3002,
    // so the ADD at 0x3003 runs before the halt at 0x3004.
    let mut vm = Vm::load(&[0x3000, 0x2204, 0xc040, 0xf025, 0x1225, 0xf025, 0x3003]).unwrap();
    assert_eq!(run(&mut vm, FUEL), Some(Ok(())));
    assert_eq!(vm.read_reg(Register(1)), 5);
}

#[test]
fn jsr_saves_return_address() {
    // One tick of JSR +1: R7 holds the return address, the PC the target.
    let mut vm = Vm::load(&[0x3000, 0x4801]).unwrap();
    assert_eq!(vm.tick(), Ok(true));
    assert_eq!(vm.read_reg(Register(7)), 0x3001);
    assert_eq!(vm.read_reg(Register(R_PC)), 0x3002);
}

#[test]
fn ld_ldr_st_str_round_trip() {
    // R1 <- 5; ST R1 at 0x3005 (off 2); R2 <- LD from the same cell.
    let mut vm = Vm::load(&[0x3000, 0x1225, 0x3202, 0x2401, 0xf025]).unwrap();
    assert_eq!(run(&mut vm, FUEL), Some(Ok(())));
    assert_eq!(vm.read_reg(Register(2)), 5);
    assert_eq!(vm.read_mem(0x3004), Ok(5));
}

#[test]
fn ldi_follows_pointer() {
    // LDI R1: the pointer cell at 0x3002 holds 0x3003, which holds 42.
    let mut vm = Vm::load(&[0x3000, 0xa201, 0xf025, 0x3003, 0x002a]).unwrap();
    assert_eq!(run(&mut vm, FUEL), Some(Ok(())));
    assert_eq!(vm.read_reg(Register(1)), 42);
}

#[test]
fn tick_op_add_directly() {
    let mut vm = Vm::load(&[0x3000]).unwrap();
    vm.write_reg(Register(2), 40);
    vm.write_reg(Register(3), 2);
    let op = Operation::Add {
        dr: Register(1),
        sr1: Register(2),
        arg: Argument::Register(Register(3)),
    };
    assert_eq!(vm.tick_op(op), Ok(true));
    assert_eq!(vm.read_reg(Register(1)), 42);
    assert_eq!(vm.read_reg(Register(R_COND)), COND_P);
}

#[test]
fn trap_halt_signals_stop() {
    let mut vm = Vm::load(&[0x3000]).unwrap();
    assert_eq!(vm.trap(0x25), Ok(false));
}

#[test]
fn tick_reports_decode_error_without_moving_pc() {
    let mut vm = Vm::load(&[0x3000, 0xd123]).unwrap();
    assert_eq!(
        vm.tick(),
        Err(TickError::Parse(ParseError::IllegalOpcode { code: 0xd123 }))
    );
    assert_eq!(vm.read_reg(Register(R_PC)), 0x3000);
}

#[test]
fn run_with_no_budget_does_nothing() {
    let mut vm = Vm::load(&[0x3000, 0xf025]).unwrap();
    assert_eq!(run(&mut vm, 0), None);
    assert_eq!(vm.read_reg(Register(R_PC)), 0x3000);
    assert_eq!(run(&mut vm, 1), Some(Ok(())));
}
