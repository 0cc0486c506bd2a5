//! The instructions of the machine, one variant per opcode.
#![allow(non_camel_case_types)]

use vstd::prelude::*;
use crate::mem::register::VRegister;

verus! {

/// A memory address; opcodes carry twelve bits of it.
pub type Addr = u16;

/// A four-bit operand.
pub type Nibble = u8;

/// An eight-bit operand.
pub type Byte = u8;

/// Second operand of the instructions that take either a constant or a register.
#[derive(Copy, Clone, Debug, PartialEq, Eq, Structural)]
pub enum ByteOrVReg {
    Byte(Byte),
    Register(VRegister),
}

/// One decoded instruction.
#[derive(Copy, Clone, Debug, PartialEq, Eq, Structural)]
pub enum Instruction {
    CLS,
    RET,
    JP(Addr),
    CALL(Addr),
    SE(VRegister, ByteOrVReg),
    SNE(VRegister, ByteOrVReg),
    LD(VRegister, ByteOrVReg),
    ADD(VRegister, ByteOrVReg),
    ADDI(VRegister),
    OR(VRegister, VRegister),
    AND(VRegister, VRegister),
    XOR(VRegister, VRegister),
    SUB(VRegister, VRegister),
    SHR(VRegister),
    SUBN(VRegister, VRegister),
    SHL(VRegister),
    LDI(Addr),
    JPV0(Addr),
    RND(VRegister, Byte),
    DRW(VRegister, VRegister, Nibble),
    SKP(VRegister),
    SKNP(VRegister),
    LDK(VRegister),
    LDF(VRegister),
    LD_TO_DT(VRegister),
    LD_FROM_DT(VRegister),
    LDST(VRegister),
    LDBCD(VRegister),
    LDARR(VRegister),
    RDARR(VRegister),
}

impl Instruction {
    /// The instruction leaves the program counter where it put it: the cycle
    /// adds nothing after a jump, a call or a return.
    pub open spec fn sets_pc(self) -> bool {
        self is JP || self is JPV0 || self is CALL || self is RET
    }

    /// The operands fit the fields of an opcode: an address has twelve bits
    /// and the height of a sprite four.
    pub open spec fn wf(self) -> bool {
        match self {
            Instruction::JP(addr)
            | Instruction::CALL(addr)
            | Instruction::LDI(addr)
            | Instruction::JPV0(addr) => addr < 4096,
            Instruction::DRW(_, _, n) => n < 16,
            _ => true,
        }
    }

    /// The instruction asks the keyboard: a skip on a key, or a wait for one.
    pub open spec fn asks_keyboard(self) -> bool {
        self is SKP || self is SKNP || self is LDK
    }

    /// Tells whether the cycle must leave the program counter as the
    /// instruction set it.
    pub fn keeps_pc(&self) -> (keeps: bool)
        ensures
            keeps == self.sets_pc(),
    {
        match self {
            Instruction::JP(_) | Instruction::JPV0(_) | Instruction::CALL(_) | Instruction::RET => true,
            _ => false,
        }
    }
}

} // verus!
