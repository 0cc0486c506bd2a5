//! The register file: V0..VF, I, PC, SP and the two timers.
#![allow(non_snake_case)]

use vstd::prelude::*;

verus! {

/// Any register of the machine.
#[derive(Debug, Copy, Clone)]
pub enum Register {
    V(VRegister),
    Other(OtherRegister),
}

/// One of the sixteen general-purpose 8-bit registers.
#[derive(Debug, Copy, Clone, PartialEq, Eq, Structural)]
pub enum VRegister {
    V0,
    V1,
    V2,
    V3,
    V4,
    V5,
    V6,
    V7,
    V8,
    V9,
    VA,
    VB,
    VC,
    VD,
    VE,
    VF,
}

/// A register that is not general-purpose and is 8 or 16 bits wide.
#[derive(Debug, Copy, Clone)]
pub enum OtherRegister {
    DT,
    ST,
    I,
}

impl VRegister {
    /// Position of the register in the file: 0 for V0 up to 15 for VF.
    pub open spec fn index(self) -> int {
        match self {
            VRegister::V0 => 0,
            VRegister::V1 => 1,
            VRegister::V2 => 2,
            VRegister::V3 => 3,
            VRegister::V4 => 4,
            VRegister::V5 => 5,
            VRegister::V6 => 6,
            VRegister::V7 => 7,
            VRegister::V8 => 8,
            VRegister::V9 => 9,
            VRegister::VA => 10,
            VRegister::VB => 11,
            VRegister::VC => 12,
            VRegister::VD => 13,
            VRegister::VE => 14,
            VRegister::VF => 15,
        }
    }

    /// The register at position `i`; VF for every position past 14.
    pub open spec fn at(i: int) -> VRegister {
        if i <= 0 {
            VRegister::V0
        } else if i == 1 {
            VRegister::V1
        } else if i == 2 {
            VRegister::V2
        } else if i == 3 {
            VRegister::V3
        } else if i == 4 {
            VRegister::V4
        } else if i == 5 {
            VRegister::V5
        } else if i == 6 {
            VRegister::V6
        } else if i == 7 {
            VRegister::V7
        } else if i == 8 {
            VRegister::V8
        } else if i == 9 {
            VRegister::V9
        } else if i == 10 {
            VRegister::VA
        } else if i == 11 {
            VRegister::VB
        } else if i == 12 {
            VRegister::VC
        } else if i == 13 {
            VRegister::VD
        } else if i == 14 {
            VRegister::VE
        } else {
            VRegister::VF
        }
    }

    /// `index` followed by `at` gives the register back.
    pub proof fn lemma_index_at(self)
        ensures
            0 <= self.index() < 16,
            VRegister::at(self.index()) == self,
    {
    }

    /// `at` followed by `index` gives the position back.
    pub proof fn lemma_at_index(i: int)
        requires
            0 <= i < 16,
        ensures
            VRegister::at(i).index() == i,
    {
    }

    /// Position of the register as a machine integer.
    pub fn position(self) -> (i: usize)
        ensures
            i == self.index(),
            i < 16,
    {
        match self {
            VRegister::V0 => 0,
            VRegister::V1 => 1,
            VRegister::V2 => 2,
            VRegister::V3 => 3,
            VRegister::V4 => 4,
            VRegister::V5 => 5,
            VRegister::V6 => 6,
            VRegister::V7 => 7,
            VRegister::V8 => 8,
            VRegister::V9 => 9,
            VRegister::VA => 10,
            VRegister::VB => 11,
            VRegister::VC => 12,
            VRegister::VD => 13,
            VRegister::VE => 14,
            VRegister::VF => 15,
        }
    }
}

/// What a register file holds, as mathematical values.
pub struct Registers {
    /// V0..VF, in order; always sixteen values.
    pub v: Seq<u8>,
    pub i: u16,
    pub pc: u16,
    pub sp: u8,
    pub dt: u8,
    pub st: u8,
}

impl Registers {
    /// The file holds exactly sixteen general registers.
    pub open spec fn wf(self) -> bool {
        self.v.len() == 16
    }

    /// Value of general register `name`.
    pub open spec fn get(self, name: VRegister) -> u8 {
        self.v[name.index()]
    }

    /// The file with general register `name` holding `val`.
    pub open spec fn set(self, name: VRegister, val: u8) -> Registers {
        Registers { v: self.v.update(name.index(), val), ..self }
    }

    /// The file with the program counter at `pc`.
    pub open spec fn with_pc(self, pc: u16) -> Registers {
        Registers { pc, ..self }
    }

    /// The file right after power-on: everything zero.
    pub open spec fn zeroed() -> Registers {
        Registers { v: Seq::new(16, |k: int| 0u8), i: 0, pc: 0, sp: 0, dt: 0, st: 0 }
    }
}

/// The registers of the machine.
#[derive(Debug, Copy, Clone)]
pub struct RegisterFile {
    pub v: [u8; 16],
    pub I: u16,
    pub PC: u16,
    pub SP: u8,
    pub DT: u8,
    pub ST: u8,
}

impl View for RegisterFile {
    type V = Registers;

    open spec fn view(&self) -> Registers {
        Registers { v: self.v@, i: self.I, pc: self.PC, sp: self.SP, dt: self.DT, st: self.ST }
    }
}

impl RegisterFile {
    /// Reads general register `name`.
    pub fn get_v_register(&self, name: VRegister) -> (val: u8)
        ensures
            val == self@.get(name),
    {
        self.v[name.position()]
    }

    /// Writes `val` to general register `name`; VF may be written like any other.
    pub fn set_v_register(&mut self, name: VRegister, val: u8)
        ensures
            final(self)@ == old(self)@.set(name, val),
    {
        self.v[name.position()] = val;
    }

    /// A register file with every register at zero.
    pub fn new() -> (file: RegisterFile)
        ensures
            file@ == Registers::zeroed(),
    {
        let file = RegisterFile { v: [0; 16], I: 0, PC: 0, SP: 0, DT: 0, ST: 0 };
        assert(file@.v =~= Registers::zeroed().v);
        file
    }
}

} // verus!
