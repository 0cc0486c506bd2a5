//! From two bytes of program text to an instruction, and back.

use vstd::prelude::*;
use crate::logic::instruction::{ByteOrVReg, Instruction};
use crate::mem::register::VRegister;
use crate::text;

verus! {

/// The two bytes at the program counter are no instruction.
#[derive(Copy, Clone, Debug, PartialEq, Eq, Structural)]
pub struct MalformedInstructionError {
    /// First byte of the word that was refused.
    pub msb: u8,
    /// Second byte of the word that was refused.
    pub lsb: u8,
}

impl MalformedInstructionError {
    /// The error for the word `msb`, `lsb`.
    pub fn new(msb: u8, lsb: u8) -> (error: MalformedInstructionError)
        ensures
            error == (MalformedInstructionError { msb, lsb }),
    {
        MalformedInstructionError { msb, lsb }
    }

    /// The message: the two bytes in hexadecimal, letters in upper case and
    /// no leading zeros.
    pub open spec fn spec_message(self) -> Seq<char> {
        "Malformed instruction received, (msb, lsb): ("@ + text::hex_upper(self.msb) + ", "@
            + text::hex_upper(self.lsb) + ")"@
    }

    /// What happened, in words.
    pub fn message(&self) -> (text: String)
        ensures
            text@ == self.spec_message(),
    {
        let mut text = "Malformed instruction received, (msb, lsb): (".to_owned();
        text::push_hex_upper(&mut text, self.msb);
        text.push_str(", ");
        text::push_hex_upper(&mut text, self.lsb);
        text.push_str(")");
        text
    }
}

/// The twelve-bit address made of three nibbles, most significant first.
pub open spec fn addr_of_nybbles(f: u8, s: u8, t: u8) -> int {
    f * 256 + s * 16 + t
}

/// What the word `msb`, `lsb` means: `a = msb / 16` selects the group,
/// `x = msb % 16` and `y = lsb / 16` name registers, `n = lsb % 16` and
/// `kk = lsb` are constants, `nnn` is the low twelve bits of the word.
/// Every word outside the table is malformed.
pub open spec fn spec_decode(msb: u8, lsb: u8) -> Result<Instruction, MalformedInstructionError> {
    let a = msb as int / 16;
    let x = VRegister::at(msb as int % 16);
    let y = VRegister::at(lsb as int / 16);
    let n = (lsb as int % 16) as u8;
    let nnn = ((msb as int % 16) * 256 + lsb as int) as u16;
    let malformed = Err(MalformedInstructionError { msb, lsb });
    if a == 0x0 {
        if msb == 0x00 && lsb == 0xE0 {
            Ok(Instruction::CLS)
        } else if msb == 0x00 && lsb == 0xEE {
            Ok(Instruction::RET)
        } else {
            malformed
        }
    } else if a == 0x1 {
        Ok(Instruction::JP(nnn))
    } else if a == 0x2 {
        Ok(Instruction::CALL(nnn))
    } else if a == 0x3 {
        Ok(Instruction::SE(x, ByteOrVReg::Byte(lsb)))
    } else if a == 0x4 {
        Ok(Instruction::SNE(x, ByteOrVReg::Byte(lsb)))
    } else if a == 0x5 {
        if n == 0 {
            Ok(Instruction::SE(x, ByteOrVReg::Register(y)))
        } else {
            malformed
        }
    } else if a == 0x6 {
        Ok(Instruction::LD(x, ByteOrVReg::Byte(lsb)))
    } else if a == 0x7 {
        Ok(Instruction::ADD(x, ByteOrVReg::Byte(lsb)))
    } else if a == 0x8 {
        if n == 0x0 {
            Ok(Instruction::LD(x, ByteOrVReg::Register(y)))
        } else if n == 0x1 {
            Ok(Instruction::OR(x, y))
        } else if n == 0x2 {
            Ok(Instruction::AND(x, y))
        } else if n == 0x3 {
            Ok(Instruction::XOR(x, y))
        } else if n == 0x4 {
            Ok(Instruction::ADD(x, ByteOrVReg::Register(y)))
        } else if n == 0x5 {
            Ok(Instruction::SUB(x, y))
        } else if n == 0x6 {
            Ok(Instruction::SHR(x))
        } else if n == 0x7 {
            Ok(Instruction::SUBN(x, y))
        } else if n == 0xE {
            Ok(Instruction::SHL(x))
        } else {
            malformed
        }
    } else if a == 0x9 {
        if n == 0 {
            Ok(Instruction::SNE(x, ByteOrVReg::Register(y)))
        } else {
            malformed
        }
    } else if a == 0xA {
        Ok(Instruction::LDI(nnn))
    } else if a == 0xB {
        Ok(Instruction::JPV0(nnn))
    } else if a == 0xC {
        Ok(Instruction::RND(x, lsb))
    } else if a == 0xD {
        Ok(Instruction::DRW(x, y, n))
    } else if a == 0xE {
        if lsb == 0x9E {
            Ok(Instruction::SKP(x))
        } else if lsb == 0xA1 {
            Ok(Instruction::SKNP(x))
        } else {
            malformed
        }
    } else {
        if lsb == 0x07 {
            Ok(Instruction::LD_FROM_DT(x))
        } else if lsb == 0x0A {
            Ok(Instruction::LDK(x))
        } else if lsb == 0x15 {
            Ok(Instruction::LD_TO_DT(x))
        } else if lsb == 0x18 {
            Ok(Instruction::LDST(x))
        } else if lsb == 0x1E {
            Ok(Instruction::ADDI(x))
        } else if lsb == 0x29 {
            Ok(Instruction::LDF(x))
        } else if lsb == 0x33 {
            Ok(Instruction::LDBCD(x))
        } else if lsb == 0x55 {
            Ok(Instruction::LDARR(x))
        } else if lsb == 0x65 {
            Ok(Instruction::RDARR(x))
        } else {
            malformed
        }
    }
}

/// The word of two register nibbles behind a group nibble: `group x`, `y low`.
#[verifier::opaque]
pub open spec fn word_xy(group: int, x: VRegister, y: VRegister, low: int) -> (u8, u8) {
    ((group * 16 + x.index()) as u8, (y.index() * 16 + low) as u8)
}

/// The word of a register nibble and a constant byte behind a group nibble.
#[verifier::opaque]
pub open spec fn word_xkk(group: int, x: VRegister, kk: u8) -> (u8, u8) {
    ((group * 16 + x.index()) as u8, kk)
}

/// The word of a group nibble and the low twelve bits of an address.
#[verifier::opaque]
pub open spec fn word_nnn(group: int, addr: u16) -> (u8, u8) {
    ((group * 16 + (addr as int % 4096) / 256) as u8, (addr as int % 256) as u8)
}

/// The word of an instruction whose second operand is a constant or a
/// register: with a constant it is `byte_group x kk`, with a register
/// `register_group x y low`.
pub open spec fn word_either(
    byte_group: int,
    register_group: int,
    low: int,
    x: VRegister,
    other: ByteOrVReg,
) -> (u8, u8) {
    match other {
        ByteOrVReg::Byte(kk) => word_xkk(byte_group, x, kk),
        ByteOrVReg::Register(y) => word_xy(register_group, x, y, low),
    }
}

/// The word that stands for `instruction`. The shifts name one register only,
/// so their unused nibble is written as zero; an address gives its low twelve
/// bits and a sprite height its low four.
pub open spec fn spec_encode(instruction: Instruction) -> (u8, u8) {
    match instruction {
        Instruction::CLS => (0x00u8, 0xE0u8),
        Instruction::RET => (0x00u8, 0xEEu8),
        Instruction::JP(addr) => word_nnn(0x1, addr),
        Instruction::CALL(addr) => word_nnn(0x2, addr),
        Instruction::SE(x, other) => word_either(0x3, 0x5, 0x0, x, other),
        Instruction::SNE(x, other) => word_either(0x4, 0x9, 0x0, x, other),
        Instruction::LD(x, other) => word_either(0x6, 0x8, 0x0, x, other),
        Instruction::ADD(x, other) => word_either(0x7, 0x8, 0x4, x, other),
        Instruction::OR(x, y) => word_xy(0x8, x, y, 0x1),
        Instruction::AND(x, y) => word_xy(0x8, x, y, 0x2),
        Instruction::XOR(x, y) => word_xy(0x8, x, y, 0x3),
        Instruction::SUB(x, y) => word_xy(0x8, x, y, 0x5),
        Instruction::SHR(x) => word_xkk(0x8, x, 0x06),
        Instruction::SUBN(x, y) => word_xy(0x8, x, y, 0x7),
        Instruction::SHL(x) => word_xkk(0x8, x, 0x0E),
        Instruction::LDI(addr) => word_nnn(0xA, addr),
        Instruction::JPV0(addr) => word_nnn(0xB, addr),
        Instruction::RND(x, kk) => word_xkk(0xC, x, kk),
        Instruction::DRW(x, y, n) => word_xy(0xD, x, y, n as int % 16),
        Instruction::SKP(x) => word_xkk(0xE, x, 0x9E),
        Instruction::SKNP(x) => word_xkk(0xE, x, 0xA1),
        Instruction::LD_FROM_DT(x) => word_xkk(0xF, x, 0x07),
        Instruction::LDK(x) => word_xkk(0xF, x, 0x0A),
        Instruction::LD_TO_DT(x) => word_xkk(0xF, x, 0x15),
        Instruction::LDST(x) => word_xkk(0xF, x, 0x18),
        Instruction::ADDI(x) => word_xkk(0xF, x, 0x1E),
        Instruction::LDF(x) => word_xkk(0xF, x, 0x29),
        Instruction::LDBCD(x) => word_xkk(0xF, x, 0x33),
        Instruction::LDARR(x) => word_xkk(0xF, x, 0x55),
        Instruction::RDARR(x) => word_xkk(0xF, x, 0x65),
    }
}

/// A word is the word of its own group, register nibble and low byte.
proof fn lemma_word_xkk(msb: u8, lsb: u8)
    ensures
        word_xkk(msb as int / 16, VRegister::at(msb as int % 16), lsb) == (msb, lsb),
{
    reveal(word_xkk);
    VRegister::lemma_at_index(msb as int % 16);
}

/// A word is the word of its own four nibbles.
proof fn lemma_word_xy(msb: u8, lsb: u8)
    ensures
        word_xy(
            msb as int / 16,
            VRegister::at(msb as int % 16),
            VRegister::at(lsb as int / 16),
            lsb as int % 16,
        ) == (msb, lsb),
{
    reveal(word_xy);
    VRegister::lemma_at_index(msb as int % 16);
    VRegister::lemma_at_index(lsb as int / 16);
}

/// A word is the word of its own group nibble and low twelve bits.
proof fn lemma_word_nnn(msb: u8, lsb: u8)
    ensures
        word_nnn(msb as int / 16, ((msb as int % 16) * 256 + lsb as int) as u16) == (msb, lsb),
{
    reveal(word_nnn);
    let nnn = (msb as int % 16) * 256 + lsb as int;
    assert(0 <= nnn < 4096);
    assert(nnn / 256 == msb as int % 16);
    assert(nnn % 256 == lsb as int);
}

/// Decoding a word and encoding the instruction gives the word back. The two
/// shifts ignore their second register nibble, so for them this holds of the
/// words that carry zero there.
pub proof fn lemma_encode_decode(msb: u8, lsb: u8)
    requires
        spec_decode(msb, lsb) is Ok,
        spec_decode(msb, lsb)->Ok_0 is SHR || spec_decode(msb, lsb)->Ok_0 is SHL ==> lsb / 16 == 0,
    ensures
        spec_encode(spec_decode(msb, lsb)->Ok_0) == (msb, lsb),
{
    lemma_word_xkk(msb, lsb);
    lemma_word_xy(msb, lsb);
    lemma_word_nnn(msb, lsb);
    let a = msb as int / 16;
    let n = lsb as int % 16;
    let x = VRegister::at(msb as int % 16);
    let y = VRegister::at(lsb as int / 16);
    if a == 0x8 && (n == 0x6 || n == 0xE) {
        assert(lsb as int == n);
        assert(word_xkk(0x8, x, lsb) == (msb, lsb));
    } else if a == 0xD {
        assert((n as u8) as int % 16 == n);
    }
}

/// The word of a register nibble and a byte decodes to that register and byte.
proof fn lemma_fields_xkk(group: int, x: VRegister, kk: u8)
    requires
        0 <= group < 16,
    ensures
        ({
            let (msb, lsb) = word_xkk(group, x, kk);
            msb as int / 16 == group && VRegister::at(msb as int % 16) == x && lsb == kk
        }),
{
    reveal(word_xkk);
    x.lemma_index_at();
}

/// The word of two register nibbles decodes to those registers.
proof fn lemma_fields_xy(group: int, x: VRegister, y: VRegister, low: int)
    requires
        0 <= group < 16,
        0 <= low < 16,
    ensures
        ({
            let (msb, lsb) = word_xy(group, x, y, low);
            msb as int / 16 == group && VRegister::at(msb as int % 16) == x && VRegister::at(
                lsb as int / 16,
            ) == y && lsb as int % 16 == low
        }),
{
    reveal(word_xy);
    x.lemma_index_at();
    y.lemma_index_at();
}

/// The word of an address decodes to that address.
proof fn lemma_fields_nnn(group: int, addr: u16)
    requires
        0 <= group < 16,
        addr < 4096,
    ensures
        ({
            let (msb, lsb) = word_nnn(group, addr);
            msb as int / 16 == group && (msb as int % 16) * 256 + lsb as int == addr
        }),
{
    reveal(word_nnn);
}

/// The round trip for the instructions that carry an address, and for the two
/// that carry nothing.
proof fn lemma_decode_encode_address(instruction: Instruction)
    requires
        instruction.wf(),
        instruction is CLS || instruction is RET || instruction is JP || instruction is CALL
            || instruction is LDI || instruction is JPV0,
    ensures
        spec_decode(spec_encode(instruction).0, spec_encode(instruction).1) == Ok::<
            Instruction,
            MalformedInstructionError,
        >(instruction),
{
    match instruction {
        Instruction::JP(addr) => lemma_fields_nnn(0x1, addr),
        Instruction::CALL(addr) => lemma_fields_nnn(0x2, addr),
        Instruction::LDI(addr) => lemma_fields_nnn(0xA, addr),
        Instruction::JPV0(addr) => lemma_fields_nnn(0xB, addr),
        _ => {},
    }
}

/// The round trip for the instructions whose second operand is a constant or
/// a register, and for the random number and the draw.
proof fn lemma_decode_encode_operand(instruction: Instruction)
    requires
        instruction.wf(),
        instruction is SE || instruction is SNE || instruction is LD || instruction is ADD
            || instruction is RND || instruction is DRW,
    ensures
        spec_decode(spec_encode(instruction).0, spec_encode(instruction).1) == Ok::<
            Instruction,
            MalformedInstructionError,
        >(instruction),
{
    match instruction {
        Instruction::SE(x, other) => match other {
            ByteOrVReg::Byte(kk) => lemma_fields_xkk(0x3, x, kk),
            ByteOrVReg::Register(y) => lemma_fields_xy(0x5, x, y, 0x0),
        },
        Instruction::SNE(x, other) => match other {
            ByteOrVReg::Byte(kk) => lemma_fields_xkk(0x4, x, kk),
            ByteOrVReg::Register(y) => lemma_fields_xy(0x9, x, y, 0x0),
        },
        Instruction::LD(x, other) => match other {
            ByteOrVReg::Byte(kk) => lemma_fields_xkk(0x6, x, kk),
            ByteOrVReg::Register(y) => lemma_fields_xy(0x8, x, y, 0x0),
        },
        Instruction::ADD(x, other) => match other {
            ByteOrVReg::Byte(kk) => lemma_fields_xkk(0x7, x, kk),
            ByteOrVReg::Register(y) => lemma_fields_xy(0x8, x, y, 0x4),
        },
        Instruction::RND(x, kk) => lemma_fields_xkk(0xC, x, kk),
        Instruction::DRW(x, y, n) => lemma_fields_xy(0xD, x, y, n as int % 16),
        _ => {},
    }
}

/// The round trip for the instructions of the group 8 that are no load and no add.
proof fn lemma_decode_encode_alu(instruction: Instruction)
    requires
        instruction is OR || instruction is AND || instruction is XOR || instruction is SUB
            || instruction is SHR || instruction is SUBN || instruction is SHL,
    ensures
        spec_decode(spec_encode(instruction).0, spec_encode(instruction).1) == Ok::<
            Instruction,
            MalformedInstructionError,
        >(instruction),
{
    match instruction {
        Instruction::OR(x, y) => lemma_fields_xy(0x8, x, y, 0x1),
        Instruction::AND(x, y) => lemma_fields_xy(0x8, x, y, 0x2),
        Instruction::XOR(x, y) => lemma_fields_xy(0x8, x, y, 0x3),
        Instruction::SUB(x, y) => lemma_fields_xy(0x8, x, y, 0x5),
        Instruction::SUBN(x, y) => lemma_fields_xy(0x8, x, y, 0x7),
        Instruction::SHR(x) => lemma_fields_xkk(0x8, x, 0x06),
        Instruction::SHL(x) => lemma_fields_xkk(0x8, x, 0x0E),
        _ => {},
    }
}

/// The round trip for the instructions of the groups E and F.
proof fn lemma_decode_encode_single(instruction: Instruction)
    requires
        instruction is SKP || instruction is SKNP || instruction is LD_FROM_DT || instruction is LDK
            || instruction is LD_TO_DT || instruction is LDST || instruction is ADDI
            || instruction is LDF || instruction is LDBCD || instruction is LDARR
            || instruction is RDARR,
    ensures
        spec_decode(spec_encode(instruction).0, spec_encode(instruction).1) == Ok::<
            Instruction,
            MalformedInstructionError,
        >(instruction),
{
    match instruction {
        Instruction::SKP(x) => lemma_fields_xkk(0xE, x, 0x9E),
        Instruction::SKNP(x) => lemma_fields_xkk(0xE, x, 0xA1),
        Instruction::LD_FROM_DT(x) => lemma_fields_xkk(0xF, x, 0x07),
        Instruction::LDK(x) => lemma_fields_xkk(0xF, x, 0x0A),
        Instruction::LD_TO_DT(x) => lemma_fields_xkk(0xF, x, 0x15),
        Instruction::LDST(x) => lemma_fields_xkk(0xF, x, 0x18),
        Instruction::ADDI(x) => lemma_fields_xkk(0xF, x, 0x1E),
        Instruction::LDF(x) => lemma_fields_xkk(0xF, x, 0x29),
        Instruction::LDBCD(x) => lemma_fields_xkk(0xF, x, 0x33),
        Instruction::LDARR(x) => lemma_fields_xkk(0xF, x, 0x55),
        Instruction::RDARR(x) => lemma_fields_xkk(0xF, x, 0x65),
        _ => {},
    }
}

/// Encoding an instruction whose operands fit and decoding the word gives the
/// instruction back.
pub proof fn lemma_decode_encode(instruction: Instruction)
    requires
        instruction.wf(),
    ensures
        spec_decode(spec_encode(instruction).0, spec_encode(instruction).1) == Ok::<
            Instruction,
            MalformedInstructionError,
        >(instruction),
{
    if instruction is CLS || instruction is RET || instruction is JP || instruction is CALL
        || instruction is LDI || instruction is JPV0 {
        lemma_decode_encode_address(instruction);
    } else if instruction is SE || instruction is SNE || instruction is LD || instruction is ADD
        || instruction is RND || instruction is DRW {
        lemma_decode_encode_operand(instruction);
    } else if instruction is OR || instruction is AND || instruction is XOR || instruction is SUB
        || instruction is SHR || instruction is SUBN || instruction is SHL {
        lemma_decode_encode_alu(instruction);
    } else {
        lemma_decode_encode_single(instruction);
    }
}

/// The word `group x`, `y low`.
fn encode_xy(group: u8, x: VRegister, y: VRegister, low: u8) -> (word: (u8, u8))
    requires
        group < 16,
        low < 16,
    ensures
        word == word_xy(group as int, x, y, low as int),
{
    reveal(word_xy);
    (group * 16 + x.position() as u8, y.position() as u8 * 16 + low)
}

/// The word `group x`, `kk`.
fn encode_xkk(group: u8, x: VRegister, kk: u8) -> (word: (u8, u8))
    requires
        group < 16,
    ensures
        word == word_xkk(group as int, x, kk),
{
    reveal(word_xkk);
    (group * 16 + x.position() as u8, kk)
}

/// The word of `group` and the low twelve bits of `addr`.
fn encode_nnn(group: u8, addr: u16) -> (word: (u8, u8))
    requires
        group < 16,
    ensures
        word == word_nnn(group as int, addr),
{
    reveal(word_nnn);
    (group * 16 + ((addr % 4096) / 256) as u8, (addr % 256) as u8)
}

/// The word of an instruction whose second operand is a constant or a register.
fn encode_either(byte_group: u8, register_group: u8, low: u8, x: VRegister, other: ByteOrVReg) -> (word:
    (u8, u8))
    requires
        byte_group < 16,
        register_group < 16,
        low < 16,
    ensures
        word == word_either(byte_group as int, register_group as int, low as int, x, other),
{
    match other {
        ByteOrVReg::Byte(kk) => encode_xkk(byte_group, x, kk),
        ByteOrVReg::Register(y) => encode_xy(register_group, x, y, low),
    }
}

/// Encodes `instruction` as a big-endian word, first byte first.
pub fn encode_instruction(instruction: Instruction) -> (word: (u8, u8))
    ensures
        word == spec_encode(instruction),
{
    match instruction {
        Instruction::CLS => (0x00, 0xE0),
        Instruction::RET => (0x00, 0xEE),
        Instruction::JP(addr) => encode_nnn(0x1, addr),
        Instruction::CALL(addr) => encode_nnn(0x2, addr),
        Instruction::SE(x, other) => encode_either(0x3, 0x5, 0x0, x, other),
        Instruction::SNE(x, other) => encode_either(0x4, 0x9, 0x0, x, other),
        Instruction::LD(x, other) => encode_either(0x6, 0x8, 0x0, x, other),
        Instruction::ADD(x, other) => encode_either(0x7, 0x8, 0x4, x, other),
        Instruction::LDI(addr) => encode_nnn(0xA, addr),
        Instruction::JPV0(addr) => encode_nnn(0xB, addr),
        Instruction::RND(x, kk) => encode_xkk(0xC, x, kk),
        Instruction::DRW(x, y, n) => encode_xy(0xD, x, y, n % 16),
        Instruction::OR(_, _)
        | Instruction::AND(_, _)
        | Instruction::XOR(_, _)
        | Instruction::SUB(_, _)
        | Instruction::SHR(_)
        | Instruction::SUBN(_, _)
        | Instruction::SHL(_) => encode_alu(instruction),
        _ => encode_single(instruction),
    }
}

/// Encodes an instruction of the group 8 that is no load and no add.
fn encode_alu(instruction: Instruction) -> (word: (u8, u8))
    requires
        instruction is OR || instruction is AND || instruction is XOR || instruction is SUB
            || instruction is SHR || instruction is SUBN || instruction is SHL,
    ensures
        word == spec_encode(instruction),
{
    match instruction {
        Instruction::OR(x, y) => encode_xy(0x8, x, y, 0x1),
        Instruction::AND(x, y) => encode_xy(0x8, x, y, 0x2),
        Instruction::XOR(x, y) => encode_xy(0x8, x, y, 0x3),
        Instruction::SUB(x, y) => encode_xy(0x8, x, y, 0x5),
        Instruction::SHR(x) => encode_xkk(0x8, x, 0x06),
        Instruction::SUBN(x, y) => encode_xy(0x8, x, y, 0x7),
        Instruction::SHL(x) => encode_xkk(0x8, x, 0x0E),
        _ => (0x00, 0x00),
    }
}

/// Encodes an instruction of the groups E and F.
fn encode_single(instruction: Instruction) -> (word: (u8, u8))
    requires
        instruction is SKP || instruction is SKNP || instruction is LD_FROM_DT || instruction is LDK
            || instruction is LD_TO_DT || instruction is LDST || instruction is ADDI
            || instruction is LDF || instruction is LDBCD || instruction is LDARR
            || instruction is RDARR,
    ensures
        word == spec_encode(instruction),
{
    match instruction {
        Instruction::SKP(x) => encode_xkk(0xE, x, 0x9E),
        Instruction::SKNP(x) => encode_xkk(0xE, x, 0xA1),
        Instruction::LD_FROM_DT(x) => encode_xkk(0xF, x, 0x07),
        Instruction::LDK(x) => encode_xkk(0xF, x, 0x0A),
        Instruction::LD_TO_DT(x) => encode_xkk(0xF, x, 0x15),
        Instruction::LDST(x) => encode_xkk(0xF, x, 0x18),
        Instruction::ADDI(x) => encode_xkk(0xF, x, 0x1E),
        Instruction::LDF(x) => encode_xkk(0xF, x, 0x29),
        Instruction::LDBCD(x) => encode_xkk(0xF, x, 0x33),
        Instruction::LDARR(x) => encode_xkk(0xF, x, 0x55),
        Instruction::RDARR(x) => encode_xkk(0xF, x, 0x65),
        _ => (0x00, 0x00),
    }
}

/// The address made of three nibbles, most significant first.
fn create_addr_from_nybbles(f: u8, s: u8, t: u8) -> (addr: u16)
    requires
        f < 16,
        s < 16,
        t < 16,
    ensures
        addr == addr_of_nybbles(f, s, t),
        addr < 4096,
{
    assert(((f as u16) << 8) == f * 256 && ((s as u16) << 4) == s * 16) by (bit_vector)
        requires
            f < 16,
            s < 16,
    ;
    ((f as u16) << 8) + ((s as u16) << 4) + t as u16
}

/// The register that a nibble names.
pub(crate) fn nybble_to_vregister(x: u8) -> (register: VRegister)
    requires
        x < 16,
    ensures
        register == VRegister::at(x as int),
        register.index() == x,
{
    match x {
        0x0 => VRegister::V0,
        0x1 => VRegister::V1,
        0x2 => VRegister::V2,
        0x3 => VRegister::V3,
        0x4 => VRegister::V4,
        0x5 => VRegister::V5,
        0x6 => VRegister::V6,
        0x7 => VRegister::V7,
        0x8 => VRegister::V8,
        0x9 => VRegister::V9,
        0xA => VRegister::VA,
        0xB => VRegister::VB,
        0xC => VRegister::VC,
        0xD => VRegister::VD,
        0xE => VRegister::VE,
        _ => VRegister::VF,
    }
}

/// Decodes the big-endian word `msb`, `lsb`.
pub fn decode_instruction(msb: u8, lsb: u8) -> (decoded: Result<
    Instruction,
    MalformedInstructionError,
>)
    ensures
        decoded == spec_decode(msb, lsb),
{
    let first_nybble = (msb & 0xF0) >> 4;
    let second_nybble = msb & 0x0F;
    let third_nybble = (lsb & 0xF0) >> 4;
    let fourth_nybble = lsb & 0x0F;
    assert((msb & 0xF0) >> 4 == msb / 16 && msb & 0x0F == msb % 16) by (bit_vector);
    assert((lsb & 0xF0) >> 4 == lsb / 16 && lsb & 0x0F == lsb % 16) by (bit_vector);

    let instruction = match first_nybble {
        0x0 => {
            if msb == 0x00 && lsb == 0xE0 {
                Instruction::CLS
            } else if msb == 0x00 && lsb == 0xEE {
                Instruction::RET
            } else {
                return Err(MalformedInstructionError::new(msb, lsb));
            }
        },
        0x1 => Instruction::JP(
            create_addr_from_nybbles(second_nybble, third_nybble, fourth_nybble),
        ),
        0x2 => Instruction::CALL(
            create_addr_from_nybbles(second_nybble, third_nybble, fourth_nybble),
        ),
        0x3 => Instruction::SE(nybble_to_vregister(second_nybble), ByteOrVReg::Byte(lsb)),
        0x4 => Instruction::SNE(nybble_to_vregister(second_nybble), ByteOrVReg::Byte(lsb)),
        0x5 => match fourth_nybble {
            0x0 => Instruction::SE(
                nybble_to_vregister(second_nybble),
                ByteOrVReg::Register(nybble_to_vregister(third_nybble)),
            ),
            _ => {
                return Err(MalformedInstructionError::new(msb, lsb));
            },
        },
        0x6 => Instruction::LD(nybble_to_vregister(second_nybble), ByteOrVReg::Byte(lsb)),
        0x7 => Instruction::ADD(nybble_to_vregister(second_nybble), ByteOrVReg::Byte(lsb)),
        0x8 => match fourth_nybble {
            0x0 => Instruction::LD(
                nybble_to_vregister(second_nybble),
                ByteOrVReg::Register(nybble_to_vregister(third_nybble)),
            ),
            0x1 => Instruction::OR(
                nybble_to_vregister(second_nybble),
                nybble_to_vregister(third_nybble),
            ),
            0x2 => Instruction::AND(
                nybble_to_vregister(second_nybble),
                nybble_to_vregister(third_nybble),
            ),
            0x3 => Instruction::XOR(
                nybble_to_vregister(second_nybble),
                nybble_to_vregister(third_nybble),
            ),
            0x4 => Instruction::ADD(
                nybble_to_vregister(second_nybble),
                ByteOrVReg::Register(nybble_to_vregister(third_nybble)),
            ),
            0x5 => Instruction::SUB(
                nybble_to_vregister(second_nybble),
                nybble_to_vregister(third_nybble),
            ),
            0x6 => Instruction::SHR(nybble_to_vregister(second_nybble)),
            0x7 => Instruction::SUBN(
                nybble_to_vregister(second_nybble),
                nybble_to_vregister(third_nybble),
            ),
            0xE => Instruction::SHL(nybble_to_vregister(second_nybble)),
            _ => {
                return Err(MalformedInstructionError::new(msb, lsb));
            },
        },
        0x9 => match fourth_nybble {
            0x0 => Instruction::SNE(
                nybble_to_vregister(second_nybble),
                ByteOrVReg::Register(nybble_to_vregister(third_nybble)),
            ),
            _ => {
                return Err(MalformedInstructionError::new(msb, lsb));
            },
        },
        0xA => Instruction::LDI(
            create_addr_from_nybbles(second_nybble, third_nybble, fourth_nybble),
        ),
        0xB => Instruction::JPV0(
            create_addr_from_nybbles(second_nybble, third_nybble, fourth_nybble),
        ),
        0xC => Instruction::RND(nybble_to_vregister(second_nybble), lsb),
        0xD => Instruction::DRW(
            nybble_to_vregister(second_nybble),
            nybble_to_vregister(third_nybble),
            fourth_nybble,
        ),
        0xE => match lsb {
            0x9E => Instruction::SKP(nybble_to_vregister(second_nybble)),
            0xA1 => Instruction::SKNP(nybble_to_vregister(second_nybble)),
            _ => {
                return Err(MalformedInstructionError::new(msb, lsb));
            },
        },
        _ => match lsb {
            0x07 => Instruction::LD_FROM_DT(nybble_to_vregister(second_nybble)),
            0x0A => Instruction::LDK(nybble_to_vregister(second_nybble)),
            0x15 => Instruction::LD_TO_DT(nybble_to_vregister(second_nybble)),
            0x18 => Instruction::LDST(nybble_to_vregister(second_nybble)),
            0x1E => Instruction::ADDI(nybble_to_vregister(second_nybble)),
            0x29 => Instruction::LDF(nybble_to_vregister(second_nybble)),
            0x33 => Instruction::LDBCD(nybble_to_vregister(second_nybble)),
            0x55 => Instruction::LDARR(nybble_to_vregister(second_nybble)),
            0x65 => Instruction::RDARR(nybble_to_vregister(second_nybble)),
            _ => {
                return Err(MalformedInstructionError::new(msb, lsb));
            },
        },
    };

    Ok(instruction)
}

} // verus!
