use lc3_rust::debug::VmInt;
use lc3_rust::io::IoError;
use lc3_rust::ops::Register;
use lc3_rust::vm::{FatalError, Vm, VmMem, DDR, DSR, KBDR, KBSR, MCR};
use lc3_rust::vm_spec::{LoadError, VmSpec, COND_Z, R_COND, R_PC};

#[test]
fn load_refuses_empty_image() {
    assert!(matches!(Vm::load(&[]), Err(LoadError::EmptyProgram)));
}

#[test]
fn load_places_words_and_initializes() {
    let mut vm = Vm::load(&[0x3000, 11, 22, 33]).unwrap();
    assert_eq!(vm.read_mem(0x3000), Ok(11));
    assert_eq!(vm.read_mem(0x3001), Ok(22));
    assert_eq!(vm.read_mem(0x3002), Ok(33));
    assert_eq!(vm.read_mem(0x3003), Ok(0));
    assert_eq!(vm.read_reg(Register(R_PC)), 0x3000);
    assert_eq!(vm.read_reg(Register(R_COND)), COND_Z);
    for r in 0..8 {
        assert_eq!(vm.read_reg(Register(r)), 0);
    }
}

#[test]
fn load_wraps_addresses() {
    let mut vm = Vm::load(&[0xffff, 7, 9]).unwrap();
    assert_eq!(vm.read_mem(0xffff), Ok(7));
    assert_eq!(vm.read_mem(0x0000), Ok(9));
}

#[test]
fn registers_read_back_what_was_written() {
    let mut vm = Vm::load(&[0x3000]).unwrap();
    vm.write_reg(Register(3), 99);
    assert_eq!(vm.read_reg(Register(3)), 99);
    assert_eq!(vm.read_reg(Register(4)), 0);
}

#[test]
fn memory_reads_back_what_was_written() {
    let mut vm = Vm::load(&[0x3000]).unwrap();
    assert_eq!(vm.write_mem(0x4000, 7), Ok(()));
    assert_eq!(vm.read_mem(0x4000), Ok(7));
}

#[test]
fn kbsr_reports_pending_input() {
    let mut vm = Vm::load(&[0x3000]).unwrap();
    assert_eq!(vm.read_mem(KBSR), Ok(0));
    vm.push_input(b'a');
    assert_eq!(vm.read_mem(KBSR), Ok(0x8000));
}

#[test]
fn kbdr_consumes_one_byte() {
    let mut vm = Vm::load(&[0x3000]).unwrap();
    vm.push_input(b'A');
    vm.push_input(b'B');
    assert_eq!(vm.read_mem(KBDR), Ok(0x41));
    assert_eq!(vm.read_mem(KBDR), Ok(0x42));
    assert_eq!(vm.read_mem(KBDR), Ok(0));
    assert_eq!(vm.read_mem(KBSR), Ok(0));
}

#[test]
fn unsupported_device_reads_are_fatal() {
    let mut vm = Vm::load(&[0x3000]).unwrap();
    for address in [DSR, DDR, MCR] {
        assert_eq!(vm.read_mem(address), Err(FatalError::UnsupportedRead { address }));
    }
}

#[test]
fn mmio_writes_are_rejected() {
    let mut vm = Vm::load(&[0x3000]).unwrap();
    for address in [KBSR, KBDR, DSR, DDR, MCR] {
        assert_eq!(vm.write_mem(address, 1), Err(FatalError::MmioWrite { address }));
    }
}

#[test]
fn c_str_collects_low_bytes_until_zero() {
    let vm = Vm::load(&[0x3000, 0x0048, 0x0069, 0x0000, 0x0021]).unwrap();
    assert_eq!(vm.c_str(0x3000), b"Hi".to_vec());
    assert_eq!(vm.c_str(0x3002), Vec::<u8>::new());
    assert_eq!(vm.c_str(0x3003), b"!".to_vec());
}

#[test]
fn c_str_ignores_high_bytes() {
    let vm = Vm::load(&[0x3000, 0x4148, 0x0000]).unwrap();
    assert_eq!(vm.c_str(0x3000), b"H".to_vec());
}

#[test]
fn take_output_drains_the_queue() {
    let mut vm = Vm::load(&[0x3000]).unwrap();
    assert_eq!(vm.take_output(), Vec::<u8>::new());
}

#[test]
fn vmint_signed_reading() {
    assert_eq!(VmInt(5).signed(), 5);
    assert_eq!(VmInt(0).signed(), 0);
    assert_eq!(VmInt(0xfffb).signed(), -5);
    assert_eq!(VmInt(0x8000).signed(), -32768);
    assert_eq!(VmInt(0x7fff).signed(), 32767);
}

#[test]
fn io_error_carries_the_os_code() {
    // The core itself never fails on console work - bytes move through the
    // queues - but a host reports its own console failures with this type.
    let failure = IoError(5);
    assert_eq!(failure, IoError(5));
    assert_ne!(failure, IoError(6));
    assert_eq!(failure.0, 5);
}

#[test]
fn wants_input_only_before_getc_with_empty_queue() {
    let mut vm = Vm::load(&[0x3000, 0xf020, 0xf025]).unwrap();
    assert!(vm.wants_input());
    vm.push_input(b'q');
    assert!(!vm.wants_input());
    let mut busy = Vm::load(&[0x3000, 0x1225]).unwrap();
    assert!(!busy.wants_input());
}

#[test]
fn load_accepts_a_full_memory_image() {
    let mut image = vec![0u16; 65537];
    image[1] = 0xbeef;
    image[65536] = 0x1234;
    let mut vm = Vm::load(&image).unwrap();
    assert_eq!(vm.read_mem(0x0000), Ok(0xbeef));
    assert_eq!(vm.read_mem(0xffff), Ok(0x1234));
}

#[test]
fn load_overlong_image_wraps_and_last_write_wins() {
    let mut image = vec![0u16; 65538];
    image[1] = 0xbeef;
    image[65537] = 0x5555;
    let mut vm = Vm::load(&image).unwrap();
    // Word 65537 lands on address 0 again, over word 1.
    assert_eq!(vm.read_mem(0x0000), Ok(0x5555));
}
