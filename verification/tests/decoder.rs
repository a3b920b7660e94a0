use lc3_rust::ops::{Argument, Operation, Register};
use lc3_rust::ops_parse::{ParseError, Parser, Segment};

#[test]
fn add_immediate() {
    assert_eq!(
        Operation::parse(0x1225),
        Ok(Operation::Add {
            dr: Register(1),
            sr1: Register(0),
            arg: Argument::Immediate(5),
        })
    );
}

#[test]
fn add_immediate_sign_extended() {
    assert_eq!(
        Operation::parse(0x123f),
        Ok(Operation::Add {
            dr: Register(1),
            sr1: Register(0),
            arg: Argument::Immediate(0xffff),
        })
    );
}

#[test]
fn add_register() {
    assert_eq!(
        Operation::parse(0x1042),
        Ok(Operation::Add {
            dr: Register(0),
            sr1: Register(1),
            arg: Argument::Register(Register(2)),
        })
    );
}

#[test]
fn add_register_bad_pad() {
    assert_eq!(
        Operation::parse(0x1058),
        Err(ParseError::FixedMismatch {
            code: 0x1058,
            segment: Segment { start: 3, end: 5 },
            expected: 0,
            actual: 3,
        })
    );
}

#[test]
fn and_immediate() {
    assert_eq!(
        Operation::parse(0x5a64),
        Ok(Operation::And {
            dr: Register(5),
            sr1: Register(1),
            arg: Argument::Immediate(4),
        })
    );
}

#[test]
fn br_on_zero() {
    assert_eq!(
        Operation::parse(0x0401),
        Ok(Operation::Br { n: false, z: true, p: false, pc_offset: 1 })
    );
}

#[test]
fn br_all_conditions_negative_offset() {
    assert_eq!(
        Operation::parse(0x0fff),
        Ok(Operation::Br { n: true, z: true, p: true, pc_offset: 0xffff })
    );
}

#[test]
fn jmp() {
    assert_eq!(Operation::parse(0xc1c0), Ok(Operation::Jmp { base_r: Register(7) }));
}

#[test]
fn jmp_bad_high_pad() {
    assert_eq!(
        Operation::parse(0xc200),
        Err(ParseError::FixedMismatch {
            code: 0xc200,
            segment: Segment { start: 9, end: 12 },
            expected: 0,
            actual: 1,
        })
    );
}

#[test]
fn jsr() {
    assert_eq!(Operation::parse(0x4801), Ok(Operation::Jsr { pc_offset: 1 }));
}

#[test]
fn jsrr() {
    assert_eq!(Operation::parse(0x4040), Ok(Operation::Jsrr { base_r: Register(1) }));
}

#[test]
fn jsrr_bad_low_pad() {
    assert_eq!(
        Operation::parse(0x4070),
        Err(ParseError::FixedMismatch {
            code: 0x4070,
            segment: Segment { start: 0, end: 6 },
            expected: 0,
            actual: 48,
        })
    );
}

#[test]
fn ld() {
    assert_eq!(Operation::parse(0x2230), Ok(Operation::Ld { dr: Register(1), pc_offset: 48 }));
}

#[test]
fn ldi() {
    assert_eq!(Operation::parse(0xa030), Ok(Operation::Ldi { dr: Register(0), pc_offset: 48 }));
}

#[test]
fn ldr() {
    assert_eq!(
        Operation::parse(0x6642),
        Ok(Operation::Ldr { dr: Register(3), base_r: Register(1), offset: 2 })
    );
}

#[test]
fn ldr_negative_offset() {
    assert_eq!(
        Operation::parse(0x667e),
        Ok(Operation::Ldr { dr: Register(3), base_r: Register(1), offset: 0xfffe })
    );
}

#[test]
fn lea() {
    assert_eq!(Operation::parse(0xe003), Ok(Operation::Lea { dr: Register(0), pc_offset: 3 }));
}

#[test]
fn not() {
    assert_eq!(Operation::parse(0x927f), Ok(Operation::Not { dr: Register(1), sr: Register(1) }));
}

#[test]
fn not_bad_ones_pad() {
    assert_eq!(
        Operation::parse(0x9200),
        Err(ParseError::FixedMismatch {
            code: 0x9200,
            segment: Segment { start: 0, end: 6 },
            expected: 0b111111,
            actual: 0,
        })
    );
}

#[test]
fn rti() {
    assert_eq!(Operation::parse(0x8000), Ok(Operation::Rti));
}

#[test]
fn rti_bad_pad() {
    assert_eq!(
        Operation::parse(0x8001),
        Err(ParseError::FixedMismatch {
            code: 0x8001,
            segment: Segment { start: 0, end: 12 },
            expected: 0,
            actual: 1,
        })
    );
}

#[test]
fn st() {
    assert_eq!(Operation::parse(0x3005), Ok(Operation::St { sr: Register(0), pc_offset: 5 }));
}

#[test]
fn sti() {
    assert_eq!(Operation::parse(0xb005), Ok(Operation::Sti { sr: Register(0), pc_offset: 5 }));
}

#[test]
fn str_op() {
    assert_eq!(
        Operation::parse(0x7642),
        Ok(Operation::Str { sr: Register(3), base_r: Register(1), offset: 2 })
    );
}

#[test]
fn trap() {
    assert_eq!(Operation::parse(0xf025), Ok(Operation::Trap { trap_vector: 0x25 }));
}

#[test]
fn trap_bad_pad() {
    assert_eq!(
        Operation::parse(0xf125),
        Err(ParseError::FixedMismatch {
            code: 0xf125,
            segment: Segment { start: 8, end: 12 },
            expected: 0,
            actual: 1,
        })
    );
}

#[test]
fn illegal_opcode() {
    assert_eq!(Operation::parse(0xd000), Err(ParseError::IllegalOpcode { code: 0xd000 }));
    assert_eq!(Operation::parse(0xdfff), Err(ParseError::IllegalOpcode { code: 0xdfff }));
}

#[test]
fn every_legal_prefix_has_a_decodable_word() {
    let witnesses: [u16; 15] = [
        0x0000, 0x1000, 0x2000, 0x3000, 0x4800, 0x5000, 0x6000, 0x7000, 0x8000, 0x903f, 0xa000,
        0xb000, 0xc000, 0xe000, 0xf025,
    ];
    for w in witnesses {
        assert!(Operation::parse(w).is_ok(), "prefix {:x} should decode", w >> 12);
    }
    for low in [0x0000u16, 0x0abc, 0x0fff] {
        assert!(matches!(
            Operation::parse(0xd000 | low),
            Err(ParseError::IllegalOpcode { .. })
        ));
    }
}

#[test]
fn parser_unsigned_moves_cursor() {
    let mut parser = Parser { code: 0xabcd, position: 16 };
    assert_eq!(parser.unsigned(4), 0xa);
    assert_eq!(parser.position, 12);
    assert_eq!(parser.unsigned(4), 0xb);
    assert_eq!(parser.unsigned(8), 0xcd);
    assert_eq!(parser.position, 0);
}

#[test]
fn parser_register_reads_three_bits() {
    let mut parser = Parser { code: 0x1240, position: 12 };
    assert_eq!(parser.register(), Register(1));
    assert_eq!(parser.register(), Register(1));
}

#[test]
fn parser_fixed_reports_segment() {
    let mut parser = Parser { code: 0x00c0, position: 8 };
    assert_eq!(
        parser.fixed(2, 0),
        Err(ParseError::FixedMismatch {
            code: 0x00c0,
            segment: Segment { start: 6, end: 8 },
            expected: 0,
            actual: 3,
        })
    );
}

#[test]
fn sign_extension_width_5() {
    let mut positive = Parser { code: 0x000f, position: 5 };
    assert_eq!(positive.signed(5), 0x000f);
    let mut negative = Parser { code: 0x0010, position: 5 };
    assert_eq!(negative.signed(5), 0xfff0);
}

#[test]
fn sign_extension_width_6() {
    let mut positive = Parser { code: 0x001f, position: 6 };
    assert_eq!(positive.signed(6), 0x001f);
    let mut negative = Parser { code: 0x0020, position: 6 };
    assert_eq!(negative.signed(6), 0xffe0);
}

#[test]
fn sign_extension_width_9() {
    let mut positive = Parser { code: 0x00ff, position: 9 };
    assert_eq!(positive.signed(9), 0x00ff);
    let mut negative = Parser { code: 0x0100, position: 9 };
    assert_eq!(negative.signed(9), 0xff00);
}

#[test]
fn sign_extension_width_11() {
    let mut positive = Parser { code: 0x03ff, position: 11 };
    assert_eq!(positive.signed(11), 0x03ff);
    let mut negative = Parser { code: 0x0400, position: 11 };
    assert_eq!(negative.signed(11), 0xfc00);
}

#[test]
fn parser_argument_immediate_form() {
    // Trailing 6 bits of an ADD/AND word: mode 1, imm5 = 0x1f.
    let mut parser = Parser { code: 0x003f, position: 6 };
    assert_eq!(parser.argument(), Ok(Argument::Immediate(0xffff)));
    assert_eq!(parser.position, 0);
}

#[test]
fn parser_argument_register_form() {
    // Mode 0, zero pad, register 2.
    let mut parser = Parser { code: 0x0002, position: 6 };
    assert_eq!(parser.argument(), Ok(Argument::Register(Register(2))));
}

#[test]
fn parser_argument_bad_pad() {
    // Mode 0 but a non-zero pad.
    let mut parser = Parser { code: 0x0012, position: 6 };
    assert_eq!(
        parser.argument(),
        Err(ParseError::FixedMismatch {
            code: 0x0012,
            segment: Segment { start: 3, end: 5 },
            expected: 0,
            actual: 2,
        })
    );
}
