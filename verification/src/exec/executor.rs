//! What each instruction does to the registers, the RAM and the screen.

use vstd::prelude::*;
use rand::RngCore;
use crate::exec::cpu::{RAMOutOfBoundsError, DIGIT_SPRITE_SIZE, RAM_DIGIT_SPRITE_START};
use crate::io::keys::{Key, Keyboard};
use crate::io::screen::{InvalidSpriteSizeError, Screen, ScreenView};
use crate::logic::decoder::{nybble_to_vregister, MalformedInstructionError};
use crate::logic::instruction::{ByteOrVReg, Instruction};
use crate::mem::register::{RegisterFile, Registers, VRegister};
use crate::mem::{RAM, RAM_SIZE};

verus! {

/// The stack pointer does not allow the push or pop that was asked for.
#[derive(Copy, Clone, Debug, PartialEq, Eq, Structural)]
pub struct InvalidStackPointerError {
    /// True for a push on a full stack, false for a pop from an empty one.
    pub overflowed: bool,
}

impl InvalidStackPointerError {
    /// The error of a push on a full stack.
    pub fn overflow() -> (error: InvalidStackPointerError)
        ensures
            error == (InvalidStackPointerError { overflowed: true }),
    {
        InvalidStackPointerError { overflowed: true }
    }

    /// The error of a pop from an empty stack.
    pub fn negative() -> (error: InvalidStackPointerError)
        ensures
            error == (InvalidStackPointerError { overflowed: false }),
    {
        InvalidStackPointerError { overflowed: false }
    }

    /// The message: which end of the stack was met.
    pub open spec fn spec_message(self) -> Seq<char> {
        if self.overflowed {
            "Stack overflow, up to 16 layers of functions can used"@
        } else {
            "Attempted pop of empty stack"@
        }
    }

    /// What happened, in words.
    pub fn message(&self) -> (text: &'static str)
        ensures
            text@ == self.spec_message(),
    {
        if self.overflowed {
            "Stack overflow, up to 16 layers of functions can used"
        } else {
            "Attempted pop of empty stack"
        }
    }
}

/// Why a cycle of the machine failed.
#[derive(Copy, Clone, Debug, PartialEq, Eq, Structural)]
pub enum ExecutionError {
    /// A fetch or a data access went past the end of RAM.
    OutOfBoundsMemory(RAMOutOfBoundsError),
    /// The word at the program counter is no instruction.
    MalformedInstruction(MalformedInstructionError),
    /// A call with a full stack or a return with an empty one.
    InvalidStackPointer(InvalidStackPointerError),
    /// A draw of a sprite with more rows than a sprite can have.
    InvalidSpriteSize(InvalidSpriteSizeError),
}

impl ExecutionError {
    /// The message of the error that this one holds.
    pub open spec fn spec_message(self) -> Seq<char> {
        match self {
            ExecutionError::OutOfBoundsMemory(error) => error.spec_message(),
            ExecutionError::MalformedInstruction(error) => error.spec_message(),
            ExecutionError::InvalidStackPointer(error) => error.spec_message(),
            ExecutionError::InvalidSpriteSize(error) => error.spec_message(),
        }
    }

    /// What happened, in words.
    pub fn message(&self) -> (text: String)
        ensures
            text@ == self.spec_message(),
    {
        match self {
            ExecutionError::OutOfBoundsMemory(error) => error.message().to_owned(),
            ExecutionError::MalformedInstruction(error) => error.message(),
            ExecutionError::InvalidStackPointer(error) => error.message().to_owned(),
            ExecutionError::InvalidSpriteSize(error) => error.message(),
        }
    }
}

/// Return addresses that the stack can hold.
pub const MAX_STACK_FRAMES: usize = 16;

/// Bytes of a return address on the stack.
pub const STACK_FRAME_SIZE: usize = 2;

/// Bytes of RAM, from address 0, that the stack may fill.
pub const STACK_SIZE: usize = MAX_STACK_FRAMES * STACK_FRAME_SIZE;

/// What an instruction acts on, as mathematical values.
pub struct Machine {
    pub regs: Registers,
    /// The 4096 bytes of RAM.
    pub ram: Seq<u8>,
    pub screen: ScreenView,
}

/// The machine made of a register file, a RAM and a screen.
pub open spec fn machine(register_file: RegisterFile, ram: RAM, screen: Screen) -> Machine {
    Machine { regs: register_file@, ram: ram@, screen: screen@ }
}

/// The machine with other registers.
pub open spec fn with_regs(m: Machine, regs: Registers) -> Machine {
    Machine { regs, ..m }
}

/// The program counter two bytes on, in 16-bit arithmetic.
pub open spec fn advance(pc: u16) -> u16 {
    ((pc + 2) % 0x1_0000) as u16
}

/// The program counter two bytes back, in 16-bit arithmetic.
pub open spec fn retreat(pc: u16) -> u16 {
    ((pc - 2) % 0x1_0000) as u16
}

/// 1 for true and 0 for false, as a flag is kept in VF.
pub open spec fn flag(b: bool) -> u8 {
    if b {
        1
    } else {
        0
    }
}

/// The value of a second operand: the constant, or what the register holds.
pub open spec fn operand(byte_or_register: ByteOrVReg, regs: Registers) -> u8 {
    match byte_or_register {
        ByteOrVReg::Byte(val) => val,
        ByteOrVReg::Register(reg) => regs.get(reg),
    }
}

/// The registers after a skip instruction whose condition is `holds`.
pub open spec fn skip_if(regs: Registers, holds: bool) -> Registers {
    if holds {
        regs.with_pc(advance(regs.pc))
    } else {
        regs
    }
}

/// The registers after an instruction of arithmetic or logic; any other
/// instruction leaves them as they are. The flag goes to VF after the result
/// went to Vx, so with Vx being VF the flag is what stays.
pub open spec fn alu(regs: Registers, instruction: Instruction) -> Registers {
    match instruction {
        Instruction::ADD(x, ByteOrVReg::Byte(kk)) => regs.set(x, ((regs.get(x) + kk) % 256) as u8),
        Instruction::ADD(x, ByteOrVReg::Register(y)) => {
            let sum = regs.get(x) + regs.get(y);
            regs.set(x, (sum % 256) as u8).set(VRegister::VF, flag(sum > 255))
        },
        Instruction::SUB(x, y) => {
            let (a, b) = (regs.get(x), regs.get(y));
            regs.set(x, ((a - b) % 256) as u8).set(VRegister::VF, flag(a >= b))
        },
        Instruction::SUBN(x, y) => {
            let (a, b) = (regs.get(x), regs.get(y));
            regs.set(x, ((b - a) % 256) as u8).set(VRegister::VF, flag(b >= a))
        },
        Instruction::OR(x, y) => regs.set(x, regs.get(x) | regs.get(y)),
        Instruction::AND(x, y) => regs.set(x, regs.get(x) & regs.get(y)),
        Instruction::XOR(x, y) => regs.set(x, regs.get(x) ^ regs.get(y)),
        Instruction::SHR(x) => {
            let a = regs.get(x);
            regs.set(x, a / 2).set(VRegister::VF, a % 2)
        },
        Instruction::SHL(x) => {
            let a = regs.get(x);
            regs.set(x, ((a * 2) % 256) as u8).set(VRegister::VF, a / 128)
        },
        _ => regs,
    }
}

/// The registers after an instruction that loads a register, jumps, or skips
/// on the value of a register; any other instruction leaves them as they are.
pub open spec fn transfer(regs: Registers, instruction: Instruction) -> Registers {
    match instruction {
        Instruction::JP(addr) => regs.with_pc(addr),
        Instruction::JPV0(addr) => regs.with_pc(((addr + regs.get(VRegister::V0)) % 4096) as u16),
        Instruction::SE(x, other) => skip_if(regs, regs.get(x) == operand(other, regs)),
        Instruction::SNE(x, other) => skip_if(regs, regs.get(x) != operand(other, regs)),
        Instruction::LD(x, other) => regs.set(x, operand(other, regs)),
        Instruction::LDI(addr) => Registers { i: addr % 4096, ..regs },
        Instruction::ADDI(x) => Registers { i: ((regs.i + regs.get(x)) % 0x1_0000) as u16, ..regs },
        Instruction::LDF(x) => Registers {
            i: (RAM_DIGIT_SPRITE_START + DIGIT_SPRITE_SIZE * (regs.get(x) % 16)) as u16,
            ..regs
        },
        Instruction::LD_TO_DT(x) => Registers { dt: regs.get(x), ..regs },
        Instruction::LD_FROM_DT(x) => regs.set(x, regs.dt),
        Instruction::LDST(x) => Registers { st: regs.get(x), ..regs },
        _ => regs,
    }
}

/// The registers after an instruction that asks the keyboard, which answered
/// `key`; any other instruction leaves them as they are. For a skip, `key`
/// is some key where the key in Vx was reported down, and none where it was
/// not. For a wait, it is the key that was found down; with none found the
/// program counter moves two bytes back, so that the cycle ends on the same
/// instruction again.
pub open spec fn keyed(regs: Registers, instruction: Instruction, key: Option<Key>) -> Registers {
    match instruction {
        Instruction::SKP(_) => skip_if(regs, key is Some),
        Instruction::SKNP(_) => skip_if(regs, key is None),
        Instruction::LDK(x) => match key {
            Some(found) => regs.set(x, found),
            None => regs.with_pc(retreat(regs.pc)),
        },
        _ => regs,
    }
}

/// RAM after the 16-bit word `pc` was pushed at `sp`, high byte first.
pub open spec fn pushed(ram: Seq<u8>, sp: u8, pc: u16) -> Seq<u8> {
    ram.update(sp as int, (pc / 256) as u8).update(sp + 1, (pc % 256) as u8)
}

/// The 16-bit word on top of a stack whose pointer is `sp`.
pub open spec fn top(ram: Seq<u8>, sp: u8) -> u16 {
    (ram[sp - 2] * 256 + ram[sp - 1]) as u16
}

/// Registers and RAM after a call to `addr`: the address of the next
/// instruction is pushed, and the program counter is at `addr`.
pub open spec fn call(regs: Registers, ram: Seq<u8>, addr: u16) -> Result<
    (Registers, Seq<u8>),
    ExecutionError,
> {
    if regs.sp >= 32 {
        Err(ExecutionError::InvalidStackPointer(InvalidStackPointerError { overflowed: true }))
    } else {
        Ok(
            (
                Registers { sp: (regs.sp + 2) as u8, pc: addr, ..regs },
                pushed(ram, regs.sp, advance(regs.pc)),
            ),
        )
    }
}

/// The registers after a return: the program counter is the word popped.
pub open spec fn ret(regs: Registers, ram: Seq<u8>) -> Result<Registers, ExecutionError> {
    if regs.sp < 2 {
        Err(ExecutionError::InvalidStackPointer(InvalidStackPointerError { overflowed: false }))
    } else {
        Ok(Registers { sp: (regs.sp - 2) as u8, pc: top(ram, regs.sp), ..regs })
    }
}

/// The three decimal digits of `val`: hundreds, tens, ones.
pub open spec fn bcd(val: u8) -> Seq<u8> {
    seq![(val / 100) as u8, ((val / 10) % 10) as u8, (val % 10) as u8]
}

/// `ram` with `bytes` written from address `at` on.
pub open spec fn stored(ram: Seq<u8>, at: int, bytes: Seq<u8>) -> Seq<u8> {
    Seq::new(
        ram.len(),
        |a: int|
            if at <= a < at + bytes.len() {
                bytes[a - at]
            } else {
                ram[a]
            },
    )
}

/// The general registers with the first `bytes.len()` of them replaced by `bytes`.
pub open spec fn loaded(v: Seq<u8>, bytes: Seq<u8>) -> Seq<u8> {
    Seq::new(
        v.len(),
        |k: int|
            if k < bytes.len() {
                bytes[k]
            } else {
                v[k]
            },
    )
}

/// RAM after an instruction that writes to it from address I on: the digits
/// of Vx, or V0 to Vx. I stays as it is. Any other instruction leaves RAM as
/// it is.
pub open spec fn store(regs: Registers, ram: Seq<u8>, instruction: Instruction) -> Result<
    Seq<u8>,
    ExecutionError,
> {
    match instruction {
        Instruction::LDBCD(x) => if regs.i + 2 >= 4096 {
            Err(ExecutionError::OutOfBoundsMemory(RAMOutOfBoundsError {  }))
        } else {
            Ok(stored(ram, regs.i as int, bcd(regs.get(x))))
        },
        Instruction::LDARR(x) => if regs.i + x.index() >= 4096 {
            Err(ExecutionError::OutOfBoundsMemory(RAMOutOfBoundsError {  }))
        } else {
            Ok(stored(ram, regs.i as int, regs.v.take(x.index() + 1)))
        },
        _ => Ok(ram),
    }
}

/// The registers after V0 to Vx were read from address I on. I stays as it is.
pub open spec fn load(regs: Registers, ram: Seq<u8>, x: VRegister) -> Result<
    Registers,
    ExecutionError,
> {
    if regs.i + x.index() >= 4096 {
        Err(ExecutionError::OutOfBoundsMemory(RAMOutOfBoundsError {  }))
    } else {
        Ok(Registers { v: loaded(regs.v, ram.subrange(regs.i as int, regs.i + x.index() + 1)), ..regs })
    }
}

/// The `n` bytes of `ram` from address `at` on.
pub open spec fn sprite_at(ram: Seq<u8>, at: int, n: int) -> Seq<u8> {
    Seq::new(n as nat, |k: int| ram[at + k])
}

/// Registers and screen after a draw of `n` rows from address I at column Vx
/// and row Vy: VF tells whether a pixel went off.
pub open spec fn draw(m: Machine, x: VRegister, y: VRegister, n: u8) -> Result<
    (Registers, ScreenView),
    ExecutionError,
> {
    if n > 0 && m.regs.i + n > 4096 {
        Err(ExecutionError::OutOfBoundsMemory(RAMOutOfBoundsError {  }))
    } else if n > 15 {
        Err(ExecutionError::InvalidSpriteSize(InvalidSpriteSizeError { size: n as usize }))
    } else {
        let sprite = sprite_at(m.ram, m.regs.i as int, n as int);
        let (col, row) = (m.regs.get(x) as int, m.regs.get(y) as int);
        Ok(
            (
                m.regs.set(VRegister::VF, flag(m.screen.collides(col, row, sprite))),
                m.screen.draw(col, row, sprite),
            ),
        )
    }
}

/// What `instruction` makes of the machine `m`, when the keyboard answers
/// `key` and the random byte of this cycle is `random`. The program counter
/// is moved by jumps, calls, returns and skips only, and two bytes back by a
/// wait for a key that finds none: what the cycle adds afterwards is not in
/// here.
pub open spec fn execute(m: Machine, instruction: Instruction, key: Option<Key>, random: u8) -> Result<
    Machine,
    ExecutionError,
> {
    match instruction {
        Instruction::CLS => Ok(Machine { screen: m.screen.clear(), ..m }),
        Instruction::DRW(x, y, n) => match draw(m, x, y, n) {
            Ok((regs, screen)) => Ok(Machine { regs, screen, ..m }),
            Err(error) => Err(error),
        },
        Instruction::CALL(addr) => match call(m.regs, m.ram, addr) {
            Ok((regs, ram)) => Ok(Machine { regs, ram, ..m }),
            Err(error) => Err(error),
        },
        Instruction::RET => match ret(m.regs, m.ram) {
            Ok(regs) => Ok(Machine { regs, ..m }),
            Err(error) => Err(error),
        },
        Instruction::LDBCD(_) | Instruction::LDARR(_) => match store(m.regs, m.ram, instruction) {
            Ok(ram) => Ok(Machine { ram, ..m }),
            Err(error) => Err(error),
        },
        Instruction::RDARR(x) => match load(m.regs, m.ram, x) {
            Ok(regs) => Ok(Machine { regs, ..m }),
            Err(error) => Err(error),
        },
        Instruction::RND(x, kk) => Ok(Machine { regs: m.regs.set(x, random & kk), ..m }),
        Instruction::SKP(_) | Instruction::SKNP(_) | Instruction::LDK(_) => Ok(
            Machine { regs: keyed(m.regs, instruction, key), ..m },
        ),
        Instruction::ADD(_, _)
        | Instruction::SUB(_, _)
        | Instruction::SUBN(_, _)
        | Instruction::OR(_, _)
        | Instruction::AND(_, _)
        | Instruction::XOR(_, _)
        | Instruction::SHR(_)
        | Instruction::SHL(_) => Ok(Machine { regs: alu(m.regs, instruction), ..m }),
        _ => Ok(Machine { regs: transfer(m.regs, instruction), ..m }),
    }
}

/// `after` and `outcome` are what `instruction` leaves of `before`: on
/// success the machine that `execute` gives, on an error the machine as it was.
pub open spec fn executes(
    before: Machine,
    instruction: Instruction,
    key: Option<Key>,
    random: u8,
    after: Machine,
    outcome: Result<(), ExecutionError>,
) -> bool {
    match execute(before, instruction, key, random) {
        Ok(m) => outcome is Ok && after == m,
        Err(error) => outcome == Err::<(), ExecutionError>(error) && after == before,
    }
}

impl Machine {
    /// Sixteen general registers, 4096 bytes of RAM and a screen of 32 rows of 64.
    pub open spec fn wf(self) -> bool {
        self.regs.wf() && self.ram.len() == 4096 && self.screen.wf()
    }
}

/// What an instruction leaves is a machine again: as many registers, as much
/// RAM and as large a screen as before.
pub proof fn lemma_execute_wf(m: Machine, instruction: Instruction, key: Option<Key>, random: u8)
    requires
        m.wf(),
    ensures
        execute(m, instruction, key, random) matches Ok(after) ==> after.wf(),
{
    match instruction {
        Instruction::SKP(_) | Instruction::SKNP(_) | Instruction::LDK(_) => {
            assert(keyed(m.regs, instruction, key).wf());
        },
        Instruction::ADD(_, _)
        | Instruction::SUB(_, _)
        | Instruction::SUBN(_, _)
        | Instruction::OR(_, _)
        | Instruction::AND(_, _)
        | Instruction::XOR(_, _)
        | Instruction::SHR(_)
        | Instruction::SHL(_) => {
            assert(alu(m.regs, instruction).wf());
        },
        Instruction::CLS
        | Instruction::DRW(_, _, _)
        | Instruction::CALL(_)
        | Instruction::RET
        | Instruction::LDBCD(_)
        | Instruction::LDARR(_)
        | Instruction::RDARR(_)
        | Instruction::RND(_, _) => {},
        _ => {
            assert(transfer(m.regs, instruction).wf());
        },
    }
}

/// Only a clear and a draw touch the screen, and only a call and the two
/// stores write to RAM.
pub proof fn lemma_untouched(m: Machine, instruction: Instruction, key: Option<Key>, random: u8)
    ensures
        execute(m, instruction, key, random) matches Ok(after) ==> (!(instruction is CLS)
            && !(instruction is DRW) ==> after.screen == m.screen) && (!(instruction is CALL)
            && !(instruction is LDBCD) && !(instruction is LDARR) ==> after.ram == m.ram),
{
}

/// An add of a constant leaves the flag register alone, unless the flag
/// register is the one added to.
pub proof fn lemma_add_byte_keeps_flag(
    m: Machine,
    x: VRegister,
    kk: u8,
    key: Option<Key>,
    random: u8,
)
    requires
        m.regs.wf(),
        x != VRegister::VF,
    ensures
        execute(m, Instruction::ADD(x, ByteOrVReg::Byte(kk)), key, random) matches Ok(after)
            && after.regs.get(VRegister::VF) == m.regs.get(VRegister::VF) && after.regs.get(x) == (
        m.regs.get(x) + kk) % 256,
{
}

/// The registers with the values of `x` and `y` changed over.
pub open spec fn swapped(regs: Registers, x: VRegister, y: VRegister) -> Registers {
    regs.set(x, regs.get(y)).set(y, regs.get(x))
}

/// SUBN is SUB with the operands changed over. `SUBN Vx, Vy` leaves in Vx
/// and in VF what `SUB Vx, Vy` leaves there when the two registers have
/// changed their values before. It also leaves in VF what `SUB Vy, Vx`
/// leaves there, and, where neither register is VF, in Vx what `SUB Vy, Vx`
/// leaves in Vy.
pub proof fn lemma_subn_is_sub_swapped(
    m: Machine,
    x: VRegister,
    y: VRegister,
    key: Option<Key>,
    random: u8,
)
    requires
        m.regs.wf(),
    ensures
        execute(m, Instruction::SUBN(x, y), key, random) matches Ok(subn) && (execute(
            with_regs(m, swapped(m.regs, x, y)),
            Instruction::SUB(x, y),
            key,
            random,
        ) matches Ok(sub) && subn.regs.get(x) == sub.regs.get(x) && subn.regs.get(VRegister::VF)
            == sub.regs.get(VRegister::VF)),
        execute(m, Instruction::SUBN(x, y), key, random) matches Ok(subn) && (execute(
            m,
            Instruction::SUB(y, x),
            key,
            random,
        ) matches Ok(sub) && subn.regs.get(VRegister::VF) == sub.regs.get(VRegister::VF) && (x
            != VRegister::VF && y != VRegister::VF ==> subn.regs.get(x) == sub.regs.get(y))),
{
}

/// A call that the stack has room for, followed at once by a return, leaves
/// the registers as they were but for the program counter, which stands at
/// the instruction after the call; the screen as it was; and RAM as it was
/// but for the two bytes at the stack pointer. Those lie below address 32,
/// where the stack is, unless the stack pointer was 31.
pub proof fn lemma_call_then_ret(m: Machine, addr: u16, key: Option<Key>, random: u8)
    requires
        m.regs.wf(),
        m.ram.len() == 4096,
        m.regs.sp < 32,
    ensures
        execute(m, Instruction::CALL(addr), key, random) matches Ok(called) && (execute(
            called,
            Instruction::RET,
            key,
            random,
        ) matches Ok(back) && back.regs == m.regs.with_pc(advance(m.regs.pc)) && back.screen
            == m.screen && back.ram.len() == 4096 && (forall|a: int|
            0 <= a < 4096 && a != m.regs.sp && a != m.regs.sp + 1 ==> back.ram[a] == m.ram[a]) && (
        m.regs.sp != 31 ==> forall|a: int| 32 <= a < 4096 ==> back.ram[a] == m.ram[a])),
{
    let called = execute(m, Instruction::CALL(addr), key, random)->Ok_0;
    let next = advance(m.regs.pc);
    assert(top(called.ram, called.regs.sp) == next) by {
        assert(called.ram[m.regs.sp as int] == (next / 256) as u8);
        assert(called.ram[m.regs.sp + 1] == (next % 256) as u8);
        assert((next / 256) * 256 + next % 256 == next);
    }
}

/// Pushes `pc` on the stack, high byte first, if the stack has room.
fn push_pc(ram: &mut RAM, sp: &mut u8, pc: u16) -> (pushed: Result<(), InvalidStackPointerError>)
    ensures
        *old(sp) >= 32 ==> pushed == Err::<(), InvalidStackPointerError>(
            InvalidStackPointerError { overflowed: true },
        ) && *final(ram) == *old(ram) && *final(sp) == *old(sp),
        *old(sp) < 32 ==> pushed is Ok && final(ram)@ == self::pushed(old(ram)@, *old(sp), pc)
            && *final(sp) == *old(sp) + 2,
{
    if *sp as usize >= STACK_SIZE {
        return Err(InvalidStackPointerError::overflow());
    }
    let pc_msb = ((pc & 0xFF00) >> 8) as u8;
    let pc_lsb = (pc & 0x00FF) as u8;
    assert((pc & 0xFF00) >> 8 == pc / 256 && pc & 0x00FF == pc % 256) by (bit_vector);
    ram[*sp as usize] = pc_msb;
    ram[(*sp + 1) as usize] = pc_lsb;
    *sp += 2;

    Ok(())
}

/// Pops the word on top of the stack, if there is one.
fn pop_pc(ram: &RAM, sp: &mut u8) -> (popped: Result<u16, InvalidStackPointerError>)
    ensures
        *old(sp) < 2 ==> popped == Err::<u16, InvalidStackPointerError>(
            InvalidStackPointerError { overflowed: false },
        ) && *final(sp) == *old(sp),
        *old(sp) >= 2 ==> popped == Ok::<u16, InvalidStackPointerError>(top(ram@, *old(sp)))
            && *final(sp) == *old(sp) - 2,
{
    if *sp < 2 {
        return Err(InvalidStackPointerError::negative());
    }
    let pc_lsb = ram[(*sp - 1) as usize];
    let pc_msb = ram[(*sp - 2) as usize];
    *sp -= 2;

    assert(((pc_msb as u16) << 8) == pc_msb * 256) by (bit_vector);
    let pc = ((pc_msb as u16) << 8) + pc_lsb as u16;

    Ok(pc)
}

/// The value of a second operand.
fn get_val_from_byte_or_v_register(byte_or_register: ByteOrVReg, register_file: &RegisterFile) -> (val:
    u8)
    ensures
        val == operand(byte_or_register, register_file@),
{
    match byte_or_register {
        ByteOrVReg::Byte(val) => val,
        ByteOrVReg::Register(reg) => register_file.get_v_register(reg),
    }
}

/// The lowest key of the keypad that `keyboard` reports down, if it reports any.
fn get_pressed_key<K: Keyboard>(keyboard: &K) -> (key: Option<Key>)
    ensures
        key matches Some(found) ==> found <= 0xF,
{
    let mut key: Key = 0x0;
    while key <= 0xF
        invariant
            key <= 0x10,
        decreases 0x10 - key,
    {
        if keyboard.is_key_pressed(key) {
            return Some(key);
        }
        key += 1;
    }

    None
}

/// The registers from V0 up to `end`, in order.
fn get_v_register_range(end: VRegister) -> (range: Vec<VRegister>)
    ensures
        range@.len() == end.index() + 1,
        forall|k: int| 0 <= k < range@.len() ==> (#[trigger] range@[k]).index() == k,
{
    let last = end.position();
    let mut range: Vec<VRegister> = Vec::new();
    let mut k: u8 = 0;
    while k as usize <= last
        invariant
            last < 16,
            k <= last + 1,
            range@.len() == k,
            forall|j: int| 0 <= j < range@.len() ==> (#[trigger] range@[j]).index() == j,
        decreases last + 1 - k,
    {
        range.push(nybble_to_vregister(k));
        k += 1;
    }
    range
}

/// A word from the generator that `rand::thread_rng` hands to this thread,
/// by `RngCore::next_u32`. Nothing is claimed of the word: each call may give
/// any value. The generator is seeded by the system when the thread first
/// asks for it, and `rand` panics if the system gives it no seed.
#[verifier::external_body]
fn random_word() -> u32 {
    rand::thread_rng().next_u32()
}

/// 1 for true and 0 for false.
fn flag_of(b: bool) -> (val: u8)
    ensures
        val == flag(b),
{
    if b {
        1
    } else {
        0
    }
}

/// Runs an instruction of arithmetic or logic; any other does nothing.
fn execute_alu(instruction: Instruction, register_file: &mut RegisterFile)
    ensures
        final(register_file)@ == alu(old(register_file)@, instruction),
{
    match instruction {
        Instruction::ADD(reg, byte_or_reg) => {
            let reg_val = register_file.get_v_register(reg);
            let val = get_val_from_byte_or_v_register(byte_or_reg, register_file);

            let result = reg_val.wrapping_add(val);
            let carry = reg_val as u16 + val as u16 > 0xFF;

            register_file.set_v_register(reg, result);
            match byte_or_reg {
                ByteOrVReg::Byte(_) => {},
                ByteOrVReg::Register(_) => {
                    register_file.set_v_register(VRegister::VF, flag_of(carry));
                },
            }
        },
        Instruction::SUB(reg_a, reg_b) => {
            let reg_a_val = register_file.get_v_register(reg_a);
            let reg_b_val = register_file.get_v_register(reg_b);

            let result = reg_a_val.wrapping_sub(reg_b_val);
            let borrow = reg_a_val < reg_b_val;

            register_file.set_v_register(reg_a, result);
            register_file.set_v_register(VRegister::VF, flag_of(!borrow));
        },
        Instruction::SUBN(reg_a, reg_b) => {
            let reg_a_val = register_file.get_v_register(reg_a);
            let reg_b_val = register_file.get_v_register(reg_b);

            let result = reg_b_val.wrapping_sub(reg_a_val);
            let borrow = reg_b_val < reg_a_val;

            register_file.set_v_register(reg_a, result);
            register_file.set_v_register(VRegister::VF, flag_of(!borrow));
        },
        Instruction::OR(reg_a, reg_b) => {
            let reg_a_val = register_file.get_v_register(reg_a);
            let reg_b_val = register_file.get_v_register(reg_b);

            let result = reg_a_val | reg_b_val;
            register_file.set_v_register(reg_a, result);
        },
        Instruction::AND(reg_a, reg_b) => {
            let reg_a_val = register_file.get_v_register(reg_a);
            let reg_b_val = register_file.get_v_register(reg_b);

            let result = reg_a_val & reg_b_val;
            register_file.set_v_register(reg_a, result);
        },
        Instruction::XOR(reg_a, reg_b) => {
            let reg_a_val = register_file.get_v_register(reg_a);
            let reg_b_val = register_file.get_v_register(reg_b);

            let result = reg_a_val ^ reg_b_val;
            register_file.set_v_register(reg_a, result);
        },
        Instruction::SHL(reg) => {
            let reg_val = register_file.get_v_register(reg);

            assert((reg_val & 0x7F) << 1 == (reg_val * 2) % 256 && reg_val >> 7 == reg_val / 128)
                by (bit_vector);
            let result = (reg_val & 0x7F) << 1;
            let out_bit = reg_val >> 7;

            register_file.set_v_register(reg, result);
            register_file.set_v_register(VRegister::VF, out_bit);
        },
        Instruction::SHR(reg) => {
            let reg_val = register_file.get_v_register(reg);

            assert(reg_val >> 1 == reg_val / 2 && reg_val & 0x01 == reg_val % 2) by (bit_vector);
            let result = reg_val >> 1;
            let out_bit = reg_val & 0x01;

            register_file.set_v_register(reg, result);
            register_file.set_v_register(VRegister::VF, out_bit);
        },
        _ => {},
    }
}

/// Runs an instruction that loads a register, jumps, or skips on the value
/// of a register; any other does nothing.
fn execute_transfer(instruction: Instruction, register_file: &mut RegisterFile)
    ensures
        final(register_file)@ == transfer(old(register_file)@, instruction),
{
    match instruction {
        Instruction::LD(reg, byte_or_reg) => {
            let val = get_val_from_byte_or_v_register(byte_or_reg, register_file);
            register_file.set_v_register(reg, val);
        },
        Instruction::LDI(addr) => {
            assert(addr & 0x0FFF == addr % 4096) by (bit_vector);
            register_file.I = addr & 0x0FFF;
        },
        Instruction::LDF(reg) => {
            let val = register_file.get_v_register(reg);
            assert(val & 0x0F == val % 16) by (bit_vector);
            register_file.I = (RAM_DIGIT_SPRITE_START + (DIGIT_SPRITE_SIZE * ((val & 0x0F) as usize)))
                as u16;
        },
        Instruction::JP(addr) => {
            register_file.PC = addr;
        },
        Instruction::SE(reg, byte_or_reg) => {
            let reg_val = register_file.get_v_register(reg);
            let val = get_val_from_byte_or_v_register(byte_or_reg, register_file);

            if reg_val == val {
                register_file.PC = register_file.PC.wrapping_add(2);
            }
        },
        Instruction::SNE(reg, byte_or_reg) => {
            let reg_val = register_file.get_v_register(reg);
            let val = get_val_from_byte_or_v_register(byte_or_reg, register_file);

            if reg_val != val {
                register_file.PC = register_file.PC.wrapping_add(2);
            }
        },
        Instruction::JPV0(addr) => {
            let v0_val = register_file.get_v_register(VRegister::V0);

            let target = ((v0_val as u32 + addr as u32) % 0x1000) as u16;

            register_file.PC = target;
        },
        Instruction::LD_FROM_DT(reg) => {
            let val = register_file.DT;

            register_file.set_v_register(reg, val);
        },
        Instruction::LD_TO_DT(reg) => {
            let val = register_file.get_v_register(reg);

            register_file.DT = val;
        },
        Instruction::LDST(reg) => {
            let val = register_file.get_v_register(reg);

            register_file.ST = val;
        },
        Instruction::ADDI(reg) => {
            let val = register_file.get_v_register(reg);

            let result = (val as u16).wrapping_add(register_file.I);

            register_file.I = result;
        },
        _ => {},
    }
}

/// Runs an instruction that asks the keyboard, which answered `key`; any
/// other does nothing.
fn execute_keyed(instruction: Instruction, key: Option<Key>, register_file: &mut RegisterFile)
    ensures
        final(register_file)@ == keyed(old(register_file)@, instruction, key),
{
    match instruction {
        Instruction::LDK(reg) => {
            match key {
                Some(found) => register_file.set_v_register(reg, found),
                None => register_file.PC = register_file.PC.wrapping_sub(2),
            }
        },
        Instruction::SKP(_) => {
            if key.is_some() {
                register_file.PC = register_file.PC.wrapping_add(2);
            }
        },
        Instruction::SKNP(_) => {
            if key.is_none() {
                register_file.PC = register_file.PC.wrapping_add(2);
            }
        },
        _ => {},
    }
}

/// What the keyboard answers to `instruction`: for a skip, the key in Vx if
/// it is reported down; for a wait, the lowest key of the keypad that is
/// reported down; for any other instruction nothing is asked.
fn ask_keyboard<K: Keyboard>(instruction: Instruction, register_file: &RegisterFile, keyboard: &K) -> (key:
    Option<Key>)
    ensures
        !instruction.asks_keyboard() ==> key is None,
        instruction is LDK ==> (key matches Some(found) ==> found <= 0xF),
        instruction matches Instruction::SKP(reg) ==> (key matches Some(found) ==> found
            == register_file@.get(reg)),
        instruction matches Instruction::SKNP(reg) ==> (key matches Some(found) ==> found
            == register_file@.get(reg)),
{
    match instruction {
        Instruction::LDK(_) => get_pressed_key(keyboard),
        Instruction::SKP(reg) | Instruction::SKNP(reg) => {
            let val = register_file.get_v_register(reg);
            if keyboard.is_key_pressed(val) {
                Some(val)
            } else {
                None
            }
        },
        _ => None,
    }
}

/// Runs an instruction that writes to RAM from address I on; any other does
/// nothing.
fn execute_store(instruction: Instruction, register_file: &RegisterFile, ram: &mut RAM) -> (outcome:
    Result<(), ExecutionError>)
    ensures
        match store(register_file@, old(ram)@, instruction) {
            Ok(after) => outcome is Ok && final(ram)@ == after,
            Err(error) => outcome == Err::<(), ExecutionError>(error) && final(ram)@ == old(ram)@,
        },
{
    match instruction {
        Instruction::LDARR(end_reg) => {
            let registers = get_v_register_range(end_reg);
            let start = register_file.I as usize;
            if start + registers.len() > RAM_SIZE {
                return Err(ExecutionError::OutOfBoundsMemory(RAMOutOfBoundsError::new()));
            }
            assert(ram@ =~= stored(old(ram)@, start as int, register_file@.v.take(0)));
            let mut i: usize = 0;
            while i < registers.len()
                invariant
                    i <= registers@.len() <= 16,
                    start + registers@.len() <= 4096,
                    forall|k: int|
                        0 <= k < registers@.len() ==> (#[trigger] registers@[k]).index() == k,
                    ram@ == stored(old(ram)@, start as int, register_file@.v.take(i as int)),
                decreases registers@.len() - i,
            {
                let val = register_file.get_v_register(registers[i]);
                let dest_addr = start + i;
                ram[dest_addr] = val;
                assert(ram@ =~= stored(old(ram)@, start as int, register_file@.v.take(i + 1)));
                i += 1;
            }
        },
        Instruction::LDBCD(reg) => {
            let val = register_file.get_v_register(reg);
            let hundreds = val / 100;
            let tens = (val - hundreds * 100) / 10;
            let ones = val - hundreds * 100 - tens * 10;

            let i_val = register_file.I as usize;
            if i_val + 2 >= RAM_SIZE {
                return Err(ExecutionError::OutOfBoundsMemory(RAMOutOfBoundsError::new()));
            }
            ram[i_val] = hundreds;
            ram[i_val + 1] = tens;
            ram[i_val + 2] = ones;
            assert(ram@ =~= stored(old(ram)@, i_val as int, bcd(val)));
        },
        _ => {},
    }
    Ok(())
}

/// Reads V0 to `end_reg` from address I on.
fn execute_load(end_reg: VRegister, register_file: &mut RegisterFile, ram: &RAM) -> (outcome: Result<
    (),
    ExecutionError,
>)
    ensures
        match load(old(register_file)@, ram@, end_reg) {
            Ok(after) => outcome is Ok && final(register_file)@ == after,
            Err(error) => outcome == Err::<(), ExecutionError>(error) && final(register_file)@
                == old(register_file)@,
        },
{
    let registers = get_v_register_range(end_reg);
    let start = register_file.I as usize;
    if start + registers.len() > RAM_SIZE {
        return Err(ExecutionError::OutOfBoundsMemory(RAMOutOfBoundsError::new()));
    }
    assert(register_file@.v =~= loaded(register_file@.v, ram@.subrange(start as int, start as int)));
    let mut i: usize = 0;
    while i < registers.len()
        invariant
            i <= registers@.len() <= 16,
            start + registers@.len() <= 4096,
            start == old(register_file).I,
            forall|k: int| 0 <= k < registers@.len() ==> (#[trigger] registers@[k]).index() == k,
            register_file@ == (Registers {
                v: loaded(old(register_file)@.v, ram@.subrange(start as int, start + i)),
                ..old(register_file)@
            }),
        decreases registers@.len() - i,
    {
        let src_addr = start + i;
        register_file.set_v_register(registers[i], ram[src_addr]);
        assert(register_file@.v =~= loaded(
            old(register_file)@.v,
            ram@.subrange(start as int, start + i + 1),
        ));
        i += 1;
    }
    Ok(())
}

/// Draws `n` rows from address I at column `reg_a`, row `reg_b`, and puts
/// the collision in VF.
fn execute_draw(
    reg_a: VRegister,
    reg_b: VRegister,
    n: u8,
    register_file: &mut RegisterFile,
    ram: &RAM,
    screen: &mut Screen,
) -> (outcome: Result<(), ExecutionError>)
    ensures
        match draw(machine(*old(register_file), *ram, *old(screen)), reg_a, reg_b, n) {
            Ok((regs, pixels)) => outcome is Ok && final(register_file)@ == regs && final(screen)@
                == pixels,
            Err(error) => outcome == Err::<(), ExecutionError>(error) && final(register_file)@
                == old(register_file)@ && final(screen)@ == old(screen)@,
        },
{
    let start = register_file.I as usize;
    let rows = n as usize;
    if rows > 0 && start + rows > RAM_SIZE {
        return Err(ExecutionError::OutOfBoundsMemory(RAMOutOfBoundsError::new()));
    }
    let mut sprite: Vec<u8> = Vec::new();
    let mut i: usize = 0;
    while i < rows
        invariant
            i <= rows,
            rows > 0 ==> start + rows <= 4096,
            sprite@ =~= sprite_at(ram@, start as int, i as int),
        decreases rows - i,
    {
        let addr = start + i;
        sprite.push(ram[addr]);
        i += 1;
    }
    let x = register_file.get_v_register(reg_a);
    let y = register_file.get_v_register(reg_b);
    match screen.draw(x, y, sprite) {
        Ok(vf_val) => {
            register_file.set_v_register(VRegister::VF, flag_of(vf_val));
            Ok(())
        },
        Err(error) => Err(ExecutionError::InvalidSpriteSize(error)),
    }
}

/// Executes `instruction`, given what the world outside answered in this
/// cycle: `random_byte` is the random byte, which only RND looks at, and
/// `key` is the answer of the keyboard, which only the skips on a key and
/// the wait for a key look at. On an error nothing has changed.
pub fn execute_instruction_with(
    instruction: Instruction,
    random_byte: u8,
    key: Option<Key>,
    register_file: &mut RegisterFile,
    ram: &mut RAM,
    screen: &mut Screen,
) -> (outcome: Result<(), ExecutionError>)
    ensures
        executes(
            machine(*old(register_file), *old(ram), *old(screen)),
            instruction,
            key,
            random_byte,
            machine(*final(register_file), *final(ram), *final(screen)),
            outcome,
        ),
{
    match instruction {
        Instruction::CLS => {
            screen.clear();
        },
        Instruction::DRW(reg_a, reg_b, n) => {
            return execute_draw(reg_a, reg_b, n, register_file, ram, screen);
        },
        Instruction::CALL(addr) => {
            let next = register_file.PC.wrapping_add(2);
            match push_pc(ram, &mut register_file.SP, next) {
                Ok(()) => {},
                Err(error) => {
                    return Err(ExecutionError::InvalidStackPointer(error));
                },
            }
            register_file.PC = addr;
        },
        Instruction::RET => {
            match pop_pc(ram, &mut register_file.SP) {
                Ok(pc) => {
                    register_file.PC = pc;
                },
                Err(error) => {
                    return Err(ExecutionError::InvalidStackPointer(error));
                },
            }
        },
        Instruction::LDBCD(_) | Instruction::LDARR(_) => {
            return execute_store(instruction, register_file, ram);
        },
        Instruction::RDARR(end_reg) => {
            return execute_load(end_reg, register_file, ram);
        },
        Instruction::RND(reg, byte) => {
            let result = random_byte & byte;
            register_file.set_v_register(reg, result);
        },
        Instruction::SKP(_) | Instruction::SKNP(_) | Instruction::LDK(_) => {
            execute_keyed(instruction, key, register_file);
        },
        Instruction::ADD(_, _)
        | Instruction::SUB(_, _)
        | Instruction::SUBN(_, _)
        | Instruction::OR(_, _)
        | Instruction::AND(_, _)
        | Instruction::XOR(_, _)
        | Instruction::SHR(_)
        | Instruction::SHL(_) => {
            execute_alu(instruction, register_file);
        },
        _ => {
            execute_transfer(instruction, register_file);
        },
    };
    Ok(())
}

/// Executes `instruction`. RND takes its byte from the random generator of
/// the thread, and the skips on a key and the wait for a key ask `keyboard`:
/// of these the contract says that the outcome is the one for some byte and
/// some answer, and that a wait takes a key of the keypad. For every other
/// instruction the outcome is exact.
pub fn execute_instruction<K: Keyboard>(
    instruction: Instruction,
    register_file: &mut RegisterFile,
    ram: &mut RAM,
    keyboard: &K,
    screen: &mut Screen,
) -> (outcome: Result<(), ExecutionError>)
    ensures
        exists|random: u8, key: Option<Key>| #[trigger]
            executes(
                machine(*old(register_file), *old(ram), *old(screen)),
                instruction,
                key,
                random,
                machine(*final(register_file), *final(ram), *final(screen)),
                outcome,
            ) && (instruction is LDK ==> (key matches Some(found) ==> found <= 0xF)),
        !instruction.asks_keyboard() && !(instruction is RND) ==> executes(
            machine(*old(register_file), *old(ram), *old(screen)),
            instruction,
            None,
            0,
            machine(*final(register_file), *final(ram), *final(screen)),
            outcome,
        ),
{
    let random_byte = match instruction {
        Instruction::RND(_, _) => {
            let word = random_word();
            #[verifier::truncate]
            (word as u8)
        },
        _ => 0,
    };
    let key = ask_keyboard(instruction, register_file, keyboard);
    let outcome = execute_instruction_with(instruction, random_byte, key, register_file, ram, screen);
    assert(executes(
        machine(*old(register_file), *old(ram), *old(screen)),
        instruction,
        key,
        random_byte,
        machine(*register_file, *ram, *screen),
        outcome,
    ));
    outcome
}

} // verus!
