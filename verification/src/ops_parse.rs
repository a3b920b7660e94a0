//! The instruction decoder: a total function from a 16-bit word to an
//! [`Operation`] or a decode error.
//!
//! The top 4 bits select the opcode; the rest of the word is consumed by a
//! monotonically decreasing bit cursor ([`Parser`]). [`spec_decode`] is the
//! mathematical statement of the whole layout table; [`Operation::parse`] is
//! proved to return exactly it.

use vstd::prelude::*;

use crate::ops::{Argument, Operation, Register};

verus! {

/// A bit cursor over one instruction word. `position` is the number of bits
/// not yet consumed; fields are read downward from the high end.
pub struct Parser {
    pub code: u16,
    pub position: i32,
}

/// A half-open range of bit positions `[start, end)` inside an instruction
/// word, bit 0 being the least significant.
#[derive(Clone, Copy, Debug, PartialEq, Eq, Structural)]
pub struct Segment {
    pub start: i32,
    pub end: i32,
}

/// Why a word failed to decode.
#[derive(Clone, Copy, Debug, PartialEq, Eq, Structural)]
pub enum ParseError {
    /// A fixed-bit field did not carry the expected pattern; `segment` names
    /// the offending bits of `code`.
    FixedMismatch { code: u16, segment: Segment, expected: u16, actual: u16 },
    /// The reserved opcode prefix `0b1101`.
    IllegalOpcode { code: u16 },
}

/// The unsigned field of `width` bits of `code` whose lowest bit is bit `lo`.
pub open spec fn field(code: u16, lo: int, width: int) -> u16
    recommends
        0 <= lo,
        1 <= width <= 15,
        lo + width <= 16,
{
    (code >> (lo as u16)) & (((1u16 << (width as u16)) - 1) as u16)
}

/// A `width`-bit value widened to 16 bits by replicating its top bit
/// (bit `width - 1`) into all bits above it.
pub open spec fn sign_extend(value: u16, width: int) -> u16
    recommends
        1 <= width <= 15,
        value < (1u16 << (width as u16)),
{
    if (value >> ((width - 1) as u16)) == 1 {
        value | (0xffffu16 << (width as u16))
    } else {
        value
    }
}

/// What [`Parser::argument`] reads: the trailing 6 bits of an `ADD`/`AND`
/// word, starting at bit `pos - 1` of `code`.
pub open spec fn spec_argument(code: u16, pos: int) -> Result<Argument, ParseError>
    recommends
        pos == 6,
{
    if field(code, pos - 1, 1) == 1 {
        Ok(Argument::Immediate(sign_extend(field(code, pos - 6, 5), 5)))
    } else if field(code, pos - 3, 2) == 0 {
        Ok(Argument::Register(Register(field(code, pos - 6, 3) as usize)))
    } else {
        Err(ParseError::FixedMismatch {
            code,
            segment: Segment { start: (pos - 3) as i32, end: (pos - 1) as i32 },
            expected: 0,
            actual: field(code, pos - 3, 2),
        })
    }
}

/// The decoder as a mathematical function: the per-opcode field layout of the
/// LC-3 instruction set. Every decoded register identifier is a 3-bit field;
/// offsets and immediates are stored already sign-extended.
/// Opaque so that states mentioning a decode stay small; proofs that need
/// the layout reveal it.
#[verifier::opaque]
pub open spec fn spec_decode(code: u16) -> Result<Operation, ParseError> {
    let op = field(code, 12, 4);
    if op == 0b0001 || op == 0b0101 {
        let dr = Register(field(code, 9, 3) as usize);
        let sr1 = Register(field(code, 6, 3) as usize);
        match spec_argument(code, 6) {
            Ok(arg) => if op == 0b0001 {
                Ok(Operation::Add { dr, sr1, arg })
            } else {
                Ok(Operation::And { dr, sr1, arg })
            },
            Err(e) => Err(e),
        }
    } else if op == 0b0000 {
        Ok(Operation::Br {
            n: field(code, 11, 1) == 1,
            z: field(code, 10, 1) == 1,
            p: field(code, 9, 1) == 1,
            pc_offset: sign_extend(field(code, 0, 9), 9),
        })
    } else if op == 0b1100 {
        if field(code, 9, 3) != 0 {
            Err(ParseError::FixedMismatch {
                code,
                segment: Segment { start: 9, end: 12 },
                expected: 0,
                actual: field(code, 9, 3),
            })
        } else if field(code, 0, 6) != 0 {
            Err(ParseError::FixedMismatch {
                code,
                segment: Segment { start: 0, end: 6 },
                expected: 0,
                actual: field(code, 0, 6),
            })
        } else {
            Ok(Operation::Jmp { base_r: Register(field(code, 6, 3) as usize) })
        }
    } else if op == 0b0100 {
        if field(code, 11, 1) == 1 {
            Ok(Operation::Jsr { pc_offset: sign_extend(field(code, 0, 11), 11) })
        } else if field(code, 9, 2) != 0 {
            Err(ParseError::FixedMismatch {
                code,
                segment: Segment { start: 9, end: 11 },
                expected: 0,
                actual: field(code, 9, 2),
            })
        } else if field(code, 0, 6) != 0 {
            Err(ParseError::FixedMismatch {
                code,
                segment: Segment { start: 0, end: 6 },
                expected: 0,
                actual: field(code, 0, 6),
            })
        } else {
            Ok(Operation::Jsrr { base_r: Register(field(code, 6, 3) as usize) })
        }
    } else if op == 0b0010 {
        Ok(Operation::Ld {
            dr: Register(field(code, 9, 3) as usize),
            pc_offset: sign_extend(field(code, 0, 9), 9),
        })
    } else if op == 0b1010 {
        Ok(Operation::Ldi {
            dr: Register(field(code, 9, 3) as usize),
            pc_offset: sign_extend(field(code, 0, 9), 9),
        })
    } else if op == 0b0110 {
        Ok(Operation::Ldr {
            dr: Register(field(code, 9, 3) as usize),
            base_r: Register(field(code, 6, 3) as usize),
            offset: sign_extend(field(code, 0, 6), 6),
        })
    } else if op == 0b1110 {
        Ok(Operation::Lea {
            dr: Register(field(code, 9, 3) as usize),
            pc_offset: sign_extend(field(code, 0, 9), 9),
        })
    } else if op == 0b1001 {
        if field(code, 0, 6) != 0b111111 {
            Err(ParseError::FixedMismatch {
                code,
                segment: Segment { start: 0, end: 6 },
                expected: 0b111111,
                actual: field(code, 0, 6),
            })
        } else {
            Ok(Operation::Not {
                dr: Register(field(code, 9, 3) as usize),
                sr: Register(field(code, 6, 3) as usize),
            })
        }
    } else if op == 0b1000 {
        if field(code, 0, 12) != 0 {
            Err(ParseError::FixedMismatch {
                code,
                segment: Segment { start: 0, end: 12 },
                expected: 0,
                actual: field(code, 0, 12),
            })
        } else {
            Ok(Operation::Rti)
        }
    } else if op == 0b0011 {
        Ok(Operation::St {
            sr: Register(field(code, 9, 3) as usize),
            pc_offset: sign_extend(field(code, 0, 9), 9),
        })
    } else if op == 0b1011 {
        Ok(Operation::Sti {
            sr: Register(field(code, 9, 3) as usize),
            pc_offset: sign_extend(field(code, 0, 9), 9),
        })
    } else if op == 0b0111 {
        Ok(Operation::Str {
            sr: Register(field(code, 9, 3) as usize),
            base_r: Register(field(code, 6, 3) as usize),
            offset: sign_extend(field(code, 0, 6), 6),
        })
    } else if op == 0b1111 {
        if field(code, 8, 4) != 0 {
            Err(ParseError::FixedMismatch {
                code,
                segment: Segment { start: 8, end: 12 },
                expected: 0,
                actual: field(code, 8, 4),
            })
        } else {
            Ok(Operation::Trap { trap_vector: field(code, 0, 8) })
        }
    } else {
        // The opcode field is 4 bits wide, so this branch is exactly the
        // reserved prefix 0b1101.
        Err(ParseError::IllegalOpcode { code })
    }
}

impl Parser {
    /// Read an unsigned field of `bit_size` bits at the cursor, moving the
    /// cursor down past it.
    pub fn unsigned(&mut self, bit_size: i32) -> (r: u16)
        requires
            1 <= bit_size <= 15,
            bit_size <= old(self).position <= 16,
        ensures
            final(self).code == old(self).code,
            final(self).position == old(self).position - bit_size,
            r == field(old(self).code, old(self).position - bit_size, bit_size as int),
    {
        proof {
            assert((1u16 << (bit_size as u16)) >= 1) by (bit_vector)
                requires
                    0 <= bit_size < 16,
            ;
        }
        self.position = self.position - bit_size;
        let mask: u16 = (1u16 << (bit_size as u16)) - 1;
        (self.code >> (self.position as u16)) & mask
    }

    /// Read a fixed-bit field and demand that it carries `expected`; anything
    /// else is a [`ParseError::FixedMismatch`] naming the offending segment.
    pub fn fixed(&mut self, bit_size: i32, expected: u16) -> (r: Result<(), ParseError>)
        requires
            1 <= bit_size <= 15,
            bit_size <= old(self).position <= 16,
        ensures
            final(self).code == old(self).code,
            final(self).position == old(self).position - bit_size,
            r == (if field(old(self).code, old(self).position - bit_size, bit_size as int) == expected {
                Ok::<(), ParseError>(())
            } else {
                Err(ParseError::FixedMismatch {
                    code: old(self).code,
                    segment: Segment {
                        start: (old(self).position - bit_size) as i32,
                        end: old(self).position,
                    },
                    expected,
                    actual: field(old(self).code, old(self).position - bit_size, bit_size as int),
                })
            }),
    {
        let actual = self.unsigned(bit_size);
        if actual == expected {
            Ok(())
        } else {
            Err(ParseError::FixedMismatch {
                code: self.code,
                segment: Segment { start: self.position, end: self.position + bit_size },
                expected,
                actual,
            })
        }
    }

    /// Read a 3-bit register identifier at the cursor.
    pub fn register(&mut self) -> (r: Register)
        requires
            3 <= old(self).position <= 16,
        ensures
            final(self).code == old(self).code,
            final(self).position == old(self).position - 3,
            r == Register(field(old(self).code, old(self).position - 3, 3) as usize),
            r.0 < 8,
    {
        let raw = self.unsigned(3);
        proof {
            let c = self.code;
            let p = self.position;
            assert((c >> (p as u16)) & (((1u16 << (3i32 as u16)) - 1) as u16) < 8) by (bit_vector);
        }
        Register(raw as usize)
    }

    /// Read a signed field of `bit_size` bits at the cursor and sign-extend
    /// it to 16 bits.
    pub fn signed(&mut self, bit_size: i32) -> (r: u16)
        requires
            1 <= bit_size <= 15,
            bit_size <= old(self).position <= 16,
        ensures
            final(self).code == old(self).code,
            final(self).position == old(self).position - bit_size,
            r == sign_extend(field(old(self).code, old(self).position - bit_size, bit_size as int), bit_size as int),
    {
        let value = self.unsigned(bit_size);
        let sign = value >> ((bit_size - 1) as u16);
        if sign == 1 {
            value | (u16::MAX << (bit_size as u16))
        } else {
            value
        }
    }

    /// Read the trailing operand of `ADD`/`AND`: a mode bit, then either a
    /// 5-bit immediate or a zero pad and a register.
    pub fn argument(&mut self) -> (r: Result<Argument, ParseError>)
        requires
            6 <= old(self).position <= 16,
        ensures
            final(self).code == old(self).code,
            r == spec_argument(old(self).code, old(self).position as int),
            r is Ok ==> final(self).position == old(self).position - 6,
            r matches Ok(Argument::Register(reg)) ==> reg.0 < 8,
    {
        match self.unsigned(1) {
            1 => Ok(Argument::Immediate(self.signed(5))),
            _ => {
                self.fixed(2, 0b00)?;
                Ok(Argument::Register(self.register()))
            },
        }
    }
}

impl Operation {
    /// Decode one instruction word. Returns exactly [`spec_decode`]: an
    /// operation for every well-formed word, [`ParseError::IllegalOpcode`]
    /// for the reserved prefix, and [`ParseError::FixedMismatch`] where a
    /// pad field is non-zero (or, for `NOT`, not all ones).
    pub fn parse(code: u16) -> (r: Result<Self, ParseError>)
        ensures
            r == spec_decode(code),
            r matches Ok(op) ==> op.wf(),
    {
        proof {
            reveal(spec_decode);
        }
        let mut parser = Parser { code, position: 16 };
        match parser.unsigned(4) {
            0b0001 => {
                let dr = parser.register();
                let sr1 = parser.register();
                let arg = parser.argument()?;
                Ok(Operation::Add { dr, sr1, arg })
            },
            0b0101 => {
                let dr = parser.register();
                let sr1 = parser.register();
                let arg = parser.argument()?;
                Ok(Operation::And { dr, sr1, arg })
            },
            0b0000 => {
                let n = parser.unsigned(1) == 1;
                let z = parser.unsigned(1) == 1;
                let p = parser.unsigned(1) == 1;
                let pc_offset = parser.signed(9);
                Ok(Operation::Br { n, z, p, pc_offset })
            },
            0b1100 => {
                parser.fixed(3, 0)?;
                let base_r = parser.register();
                parser.fixed(6, 0)?;
                Ok(Operation::Jmp { base_r })
            },
            0b0100 => match parser.unsigned(1) {
                1 => {
                    let pc_offset = parser.signed(11);
                    Ok(Operation::Jsr { pc_offset })
                },
                _ => {
                    parser.fixed(2, 0)?;
                    let base_r = parser.register();
                    parser.fixed(6, 0)?;
                    Ok(Operation::Jsrr { base_r })
                },
            },
            0b0010 => {
                let dr = parser.register();
                let pc_offset = parser.signed(9);
                Ok(Operation::Ld { dr, pc_offset })
            },
            0b1010 => {
                let dr = parser.register();
                let pc_offset = parser.signed(9);
                Ok(Operation::Ldi { dr, pc_offset })
            },
            0b0110 => {
                let dr = parser.register();
                let base_r = parser.register();
                let offset = parser.signed(6);
                Ok(Operation::Ldr { dr, base_r, offset })
            },
            0b1110 => {
                let dr = parser.register();
                let pc_offset = parser.signed(9);
                Ok(Operation::Lea { dr, pc_offset })
            },
            0b1001 => {
                let dr = parser.register();
                let sr = parser.register();
                parser.fixed(6, 0b111111)?;
                Ok(Operation::Not { dr, sr })
            },
            0b1000 => {
                parser.fixed(12, 0)?;
                Ok(Operation::Rti)
            },
            0b0011 => {
                let sr = parser.register();
                let pc_offset = parser.signed(9);
                Ok(Operation::St { sr, pc_offset })
            },
            0b1011 => {
                let sr = parser.register();
                let pc_offset = parser.signed(9);
                Ok(Operation::Sti { sr, pc_offset })
            },
            0b0111 => {
                let sr = parser.register();
                let base_r = parser.register();
                let offset = parser.signed(6);
                Ok(Operation::Str { sr, base_r, offset })
            },
            0b1111 => {
                parser.fixed(4, 0)?;
                let trap_vector = parser.unsigned(8);
                Ok(Operation::Trap { trap_vector })
            },
            _ => Err(ParseError::IllegalOpcode { code }),
        }
    }
}

/// Sign-extension law. For each offset width the decoder uses, a field whose
/// top bit is clear comes out unchanged, and one whose top bit is set comes
/// out with all ones above it — numerically, it grows by `2^16 - 2^width`.
pub proof fn lemma_sign_extension(value: u16, width: u16)
    requires
        (width == 5 && value < 32) || (width == 6 && value < 64) || (width == 9 && value < 512)
            || (width == 11 && value < 2048),
    ensures
        sign_extend(value, width as int) == (if value >> ((width - 1) as u16) == 0 {
            value as int
        } else {
            (value | (0xffffu16 << width)) as int
        }),
        value >> ((width - 1) as u16) == 0 || value >> ((width - 1) as u16) == 1,
        width == 5 ==> sign_extend(value, width as int) == (if value < 16 {
            value as int
        } else {
            value + 65504
        }),
        width == 6 ==> sign_extend(value, width as int) == (if value < 32 {
            value as int
        } else {
            value + 65472
        }),
        width == 9 ==> sign_extend(value, width as int) == (if value < 256 {
            value as int
        } else {
            value + 65024
        }),
        width == 11 ==> sign_extend(value, width as int) == (if value < 1024 {
            value as int
        } else {
            value + 63488
        }),
{
    assert(value >> ((width - 1) as u16) == 0 || value >> ((width - 1) as u16) == 1) by (bit_vector)
        requires
            (width == 5 && value < 32) || (width == 6 && value < 64) || (width == 9 && value < 512)
                || (width == 11 && value < 2048),
    ;
    if width == 5 {
        assert(((value >> ((width - 1) as u16) == 1) <==> value >= 16) && (value >= 16 ==> (value
            | (0xffffu16 << width)) == value + 65504)) by (bit_vector)
            requires
                width == 5 && value < 32,
        ;
    } else if width == 6 {
        assert(((value >> ((width - 1) as u16) == 1) <==> value >= 32) && (value >= 32 ==> (value
            | (0xffffu16 << width)) == value + 65472)) by (bit_vector)
            requires
                width == 6 && value < 64,
        ;
    } else if width == 9 {
        assert(((value >> ((width - 1) as u16) == 1) <==> value >= 256) && (value >= 256 ==> (value
            | (0xffffu16 << width)) == value + 65024)) by (bit_vector)
            requires
                width == 9 && value < 512,
        ;
    } else {
        assert(((value >> ((width - 1) as u16) == 1) <==> value >= 1024) && (value >= 1024 ==> (
        value | (0xffffu16 << width)) == value + 63488)) by (bit_vector)
            requires
                width == 11 && value < 2048,
        ;
    }
}

/// Whatever the decoder accepts is well-formed: register fields are 3 bits
/// wide, so every decoded register identifier is below 8.
pub proof fn lemma_decode_wf(code: u16)
    ensures
        spec_decode(code) matches Ok(op) ==> op.wf(),
{
    reveal(spec_decode);
    assert((code >> 9u16) & (((1u16 << 3u16) - 1) as u16) < 8 && (code >> 6u16) & (((1u16 << 3u16)
        - 1) as u16) < 8 && (code >> 0u16) & (((1u16 << 3u16) - 1) as u16) < 8) by (bit_vector);
}

/// Some word with the given 4-bit opcode prefix decodes successfully.
pub open spec fn prefix_decodable(prefix: u16) -> bool {
    exists|code: u16| code >> 12u16 == prefix && (#[trigger] spec_decode(code)) is Ok
}

/// Decoder totality over legal opcodes: the reserved prefix `0b1101` always
/// fails with [`ParseError::IllegalOpcode`], and for every other 4-bit prefix
/// at least one word decodes successfully.
pub proof fn lemma_decoder_totality()
    ensures
        forall|code: u16|
            code >> 12u16 == 0b1101 ==> spec_decode(code) == Err::<Operation, ParseError>(
                ParseError::IllegalOpcode { code },
            ),
        forall|prefix: u16| prefix < 16 && prefix != 0b1101 ==> #[trigger] prefix_decodable(prefix),
{
    assert forall|code: u16| code >> 12u16 == 0b1101 implies spec_decode(code) == Err::<
        Operation,
        ParseError,
    >(ParseError::IllegalOpcode { code }) by {
        reveal(spec_decode);
        assert((code >> 12u16) & (((1u16 << 4u16) - 1) as u16) == 13) by (bit_vector)
            requires
                code >> 12u16 == 13,
        ;
    }
    reveal(spec_decode);
    assert((0x0000u16 >> 12u16) & (((1u16 << 4u16) - 1) as u16) == 0 && 0x0000u16 >> 12u16 == 0) by (bit_vector);
    assert(spec_decode(0x0000u16) is Ok);
    assert(prefix_decodable(0u16));
    assert((0x1000u16 >> 12u16) & (((1u16 << 4u16) - 1) as u16) == 1 && (0x1000u16 >> 5u16) & (((1u16 << 1u16) - 1) as u16) == 0 && (0x1000u16 >> 3u16) & (((1u16 << 2u16) - 1) as u16) == 0 && 0x1000u16 >> 12u16 == 1) by (bit_vector);
    assert(spec_decode(0x1000u16) is Ok);
    assert(prefix_decodable(1u16));
    assert((0x2000u16 >> 12u16) & (((1u16 << 4u16) - 1) as u16) == 2 && 0x2000u16 >> 12u16 == 2) by (bit_vector);
    assert(spec_decode(0x2000u16) is Ok);
    assert(prefix_decodable(2u16));
    assert((0x3000u16 >> 12u16) & (((1u16 << 4u16) - 1) as u16) == 3 && 0x3000u16 >> 12u16 == 3) by (bit_vector);
    assert(spec_decode(0x3000u16) is Ok);
    assert(prefix_decodable(3u16));
    assert((0x4800u16 >> 12u16) & (((1u16 << 4u16) - 1) as u16) == 4 && (0x4800u16 >> 11u16) & (((1u16 << 1u16) - 1) as u16) == 1 && 0x4800u16 >> 12u16 == 4) by (bit_vector);
    assert(spec_decode(0x4800u16) is Ok);
    assert(prefix_decodable(4u16));
    assert((0x5000u16 >> 12u16) & (((1u16 << 4u16) - 1) as u16) == 5 && (0x5000u16 >> 5u16) & (((1u16 << 1u16) - 1) as u16) == 0 && (0x5000u16 >> 3u16) & (((1u16 << 2u16) - 1) as u16) == 0 && 0x5000u16 >> 12u16 == 5) by (bit_vector);
    assert(spec_decode(0x5000u16) is Ok);
    assert(prefix_decodable(5u16));
    assert((0x6000u16 >> 12u16) & (((1u16 << 4u16) - 1) as u16) == 6 && 0x6000u16 >> 12u16 == 6) by (bit_vector);
    assert(spec_decode(0x6000u16) is Ok);
    assert(prefix_decodable(6u16));
    assert((0x7000u16 >> 12u16) & (((1u16 << 4u16) - 1) as u16) == 7 && 0x7000u16 >> 12u16 == 7) by (bit_vector);
    assert(spec_decode(0x7000u16) is Ok);
    assert(prefix_decodable(7u16));
    assert((0x8000u16 >> 12u16) & (((1u16 << 4u16) - 1) as u16) == 8 && (0x8000u16 >> 0u16) & (((1u16 << 12u16) - 1) as u16) == 0 && 0x8000u16 >> 12u16 == 8) by (bit_vector);
    assert(spec_decode(0x8000u16) is Ok);
    assert(prefix_decodable(8u16));
    assert((0x903fu16 >> 12u16) & (((1u16 << 4u16) - 1) as u16) == 9 && (0x903fu16 >> 0u16) & (((1u16 << 6u16) - 1) as u16) == 63 && 0x903fu16 >> 12u16 == 9) by (bit_vector);
    assert(spec_decode(0x903fu16) is Ok);
    assert(prefix_decodable(9u16));
    assert((0xa000u16 >> 12u16) & (((1u16 << 4u16) - 1) as u16) == 10 && 0xa000u16 >> 12u16 == 10) by (bit_vector);
    assert(spec_decode(0xa000u16) is Ok);
    assert(prefix_decodable(10u16));
    assert((0xb000u16 >> 12u16) & (((1u16 << 4u16) - 1) as u16) == 11 && 0xb000u16 >> 12u16 == 11) by (bit_vector);
    assert(spec_decode(0xb000u16) is Ok);
    assert(prefix_decodable(11u16));
    assert((0xc000u16 >> 12u16) & (((1u16 << 4u16) - 1) as u16) == 12 && (0xc000u16 >> 9u16) & (((1u16 << 3u16) - 1) as u16) == 0 && (0xc000u16 >> 0u16) & (((1u16 << 6u16) - 1) as u16) == 0 && 0xc000u16 >> 12u16 == 12) by (bit_vector);
    assert(spec_decode(0xc000u16) is Ok);
    assert(prefix_decodable(12u16));
    assert((0xe000u16 >> 12u16) & (((1u16 << 4u16) - 1) as u16) == 14 && 0xe000u16 >> 12u16 == 14) by (bit_vector);
    assert(spec_decode(0xe000u16) is Ok);
    assert(prefix_decodable(14u16));
    assert((0xf025u16 >> 12u16) & (((1u16 << 4u16) - 1) as u16) == 15 && (0xf025u16 >> 8u16) & (((1u16 << 4u16) - 1) as u16) == 0 && 0xf025u16 >> 12u16 == 15) by (bit_vector);
    assert(spec_decode(0xf025u16) is Ok);
    assert(prefix_decodable(15u16));
}

} // verus!
