//! The processor: registers and RAM, and the fetch, decode, execute cycle.

use vstd::prelude::*;
use crate::exec::executor;
use crate::exec::executor::{ExecutionError, Machine};
use crate::io::keys::{Key, Keyboard};
use crate::io::screen::{Screen, ScreenView};
use crate::logic::decoder;
use crate::logic::instruction::Instruction;
use crate::mem::register::{RegisterFile, Registers, VRegister};
use crate::mem::{RAM, RAM_SIZE};

verus! {

/// Where a program is loaded.
pub const RAM_PROG_START: usize = 0x200;

/// Where the sprites of the sixteen hex digits are kept.
pub const RAM_DIGIT_SPRITE_START: usize = 0xFF;

/// Rows of a digit sprite.
pub const DIGIT_SPRITE_SIZE: usize = 5;

/// An access went past the end of RAM.
#[derive(Copy, Clone, Debug, PartialEq, Eq, Structural)]
pub struct RAMOutOfBoundsError {}

impl RAMOutOfBoundsError {
    /// The error; there is only one.
    pub fn new() -> (error: RAMOutOfBoundsError)
        ensures
            error == (RAMOutOfBoundsError {  }),
    {
        RAMOutOfBoundsError {  }
    }

    /// The message.
    pub open spec fn spec_message(self) -> Seq<char> {
        "Attempted access to out of bounds region of RAM"@
    }

    /// What happened, in words.
    pub fn message(&self) -> (text: &'static str)
        ensures
            text@ == self.spec_message(),
    {
        "Attempted access to out of bounds region of RAM"
    }
}

/// The sprite of the hex digit `digit`: five rows, four pixels wide, in the
/// high half of each byte.
pub open spec fn digit_sprite(digit: int) -> Seq<u8> {
    if digit == 0x0 {
        seq![0xF0u8, 0x90u8, 0x90u8, 0x90u8, 0xF0u8]
    } else if digit == 0x1 {
        seq![0x20u8, 0x60u8, 0x20u8, 0x20u8, 0x70u8]
    } else if digit == 0x2 {
        seq![0xF0u8, 0x10u8, 0xF0u8, 0x80u8, 0xF0u8]
    } else if digit == 0x3 {
        seq![0xF0u8, 0x10u8, 0xF0u8, 0x10u8, 0xF0u8]
    } else if digit == 0x4 {
        seq![0x90u8, 0x90u8, 0xF0u8, 0x10u8, 0x10u8]
    } else if digit == 0x5 {
        seq![0xF0u8, 0x80u8, 0xF0u8, 0x10u8, 0xF0u8]
    } else if digit == 0x6 {
        seq![0xF0u8, 0x80u8, 0xF0u8, 0x90u8, 0xF0u8]
    } else if digit == 0x7 {
        seq![0xF0u8, 0x10u8, 0x20u8, 0x40u8, 0x40u8]
    } else if digit == 0x8 {
        seq![0xF0u8, 0x90u8, 0xF0u8, 0x90u8, 0xF0u8]
    } else if digit == 0x9 {
        seq![0xF0u8, 0x90u8, 0xF0u8, 0x10u8, 0xF0u8]
    } else if digit == 0xA {
        seq![0xF0u8, 0x90u8, 0xF0u8, 0x90u8, 0x90u8]
    } else if digit == 0xB {
        seq![0xE0u8, 0x90u8, 0xE0u8, 0x90u8, 0xE0u8]
    } else if digit == 0xC {
        seq![0xF0u8, 0x80u8, 0x80u8, 0x80u8, 0xF0u8]
    } else if digit == 0xD {
        seq![0xE0u8, 0x90u8, 0x90u8, 0x90u8, 0xE0u8]
    } else if digit == 0xE {
        seq![0xF0u8, 0x80u8, 0xF0u8, 0x80u8, 0xF0u8]
    } else {
        seq![0xF0u8, 0x80u8, 0xF0u8, 0x80u8, 0x80u8]
    }
}

/// RAM with the sprites of the digits below `count` in their places: digit
/// `d` fills the five bytes from `0xFF + 5 * d` on.
pub open spec fn with_digit_sprites(ram: Seq<u8>, count: int) -> Seq<u8> {
    Seq::new(
        ram.len(),
        |a: int|
            if 0xFF <= a < 0xFF + 5 * count {
                digit_sprite((a - 0xFF) / 5)[(a - 0xFF) % 5]
            } else {
                ram[a]
            },
    )
}

/// The timers one tick later: each goes down by one until it is zero.
pub open spec fn ticked(regs: Registers) -> Registers {
    Registers {
        dt: if regs.dt > 0 {
            (regs.dt - 1) as u8
        } else {
            0
        },
        st: if regs.st > 0 {
            (regs.st - 1) as u8
        } else {
            0
        },
        ..regs
    }
}

/// The registers after `k` ticks of the timers.
pub open spec fn ticked_by(regs: Registers, k: nat) -> Registers
    decreases k,
{
    if k == 0 {
        regs
    } else {
        ticked(ticked_by(regs, (k - 1) as nat))
    }
}

/// After `k` ticks a timer that stood at `v` stands at `v - k`, and at zero
/// once `k` has reached `v`. Nothing else in the registers has moved.
pub proof fn lemma_ticked_by(regs: Registers, k: nat)
    ensures
        ticked_by(regs, k).dt == if regs.dt >= k {
            regs.dt - k
        } else {
            0
        },
        ticked_by(regs, k).st == if regs.st >= k {
            regs.st - k
        } else {
            0
        },
        ticked_by(regs, k) == (Registers {
            dt: ticked_by(regs, k).dt,
            st: ticked_by(regs, k).st,
            ..regs
        }),
    decreases k,
{
    if k > 0 {
        lemma_ticked_by(regs, (k - 1) as nat);
    }
}

/// What a processor holds, as mathematical values.
pub struct CpuView {
    pub regs: Registers,
    /// The 4096 bytes of RAM.
    pub ram: Seq<u8>,
}

impl CpuView {
    /// Sixteen general registers and 4096 bytes of RAM.
    pub open spec fn wf(self) -> bool {
        self.regs.wf() && self.ram.len() == 4096
    }

    /// The processor at power-on: RAM and registers zero, the program
    /// counter at the start of the program area.
    pub open spec fn reset() -> CpuView {
        CpuView {
            regs: Registers::zeroed().with_pc(0x200),
            ram: Seq::new(4096, |a: int| 0u8),
        }
    }

    /// The machine made of this processor and `screen`.
    pub open spec fn with_screen(self, screen: ScreenView) -> Machine {
        Machine { regs: self.regs, ram: self.ram, screen }
    }

    /// The two bytes at the program counter. Both must lie in RAM.
    pub open spec fn next_bytes(self) -> Result<(u8, u8), RAMOutOfBoundsError> {
        if self.regs.pc + 1 >= 4096 {
            Err(RAMOutOfBoundsError {  })
        } else {
            Ok((self.ram[self.regs.pc as int], self.ram[self.regs.pc + 1]))
        }
    }

    /// The instruction at the program counter.
    pub open spec fn next_instruction(self) -> Result<Instruction, ExecutionError> {
        match self.next_bytes() {
            Err(error) => Err(ExecutionError::OutOfBoundsMemory(error)),
            Ok((msb, lsb)) => match decoder::spec_decode(msb, lsb) {
                Err(error) => Err(ExecutionError::MalformedInstruction(error)),
                Ok(instruction) => Ok(instruction),
            },
        }
    }
}

/// The machine after one cycle: the instruction at the program counter is
/// fetched, decoded and executed, and unless it was a jump, a call or a
/// return the program counter then moves two bytes on.
pub open spec fn cycle(m: Machine, key: Option<Key>, random: u8) -> Result<Machine, ExecutionError> {
    match (CpuView { regs: m.regs, ram: m.ram }).next_instruction() {
        Err(error) => Err(error),
        Ok(instruction) => match executor::execute(m, instruction, key, random) {
            Err(error) => Err(error),
            Ok(after) => Ok(
                if instruction.sets_pc() {
                    after
                } else {
                    Machine { regs: after.regs.with_pc(executor::advance(after.regs.pc)), ..after }
                },
            ),
        },
    }
}

/// The next instruction, if there is one, asks neither the keyboard nor the
/// random generator.
pub open spec fn asks_nothing(next: Result<Instruction, ExecutionError>) -> bool {
    next matches Ok(instruction) ==> !instruction.asks_keyboard() && !(instruction is RND)
}

/// `after` and `outcome` are what one cycle leaves of `before`: on success
/// the machine that `cycle` gives, on an error the machine as it was.
pub open spec fn cycles(
    before: Machine,
    key: Option<Key>,
    random: u8,
    after: Machine,
    outcome: Result<(), ExecutionError>,
) -> bool {
    match cycle(before, key, random) {
        Ok(m) => outcome is Ok && after == m,
        Err(error) => outcome == Err::<(), ExecutionError>(error) && after == before,
    }
}

/// A cycle that waits for a key and is given none leaves the machine as it
/// was, the program counter too: the next cycle waits again. Given a key, it
/// puts the key in the register and moves on to the next instruction.
pub proof fn lemma_wait_for_key(m: Machine, x: VRegister, key: Option<Key>, random: u8)
    requires
        (CpuView { regs: m.regs, ram: m.ram }).next_instruction() == Ok::<
            Instruction,
            ExecutionError,
        >(Instruction::LDK(x)),
    ensures
        key is None ==> cycle(m, key, random) == Ok::<Machine, ExecutionError>(m),
        key matches Some(found) ==> cycle(m, key, random) == Ok::<Machine, ExecutionError>(
            Machine { regs: m.regs.set(x, found).with_pc((m.regs.pc + 2) as u16), ..m },
        ),
{
}

/// The processor: the register file and the RAM.
pub struct CPU {
    register_file: RegisterFile,
    ram: RAM,
}

impl View for CPU {
    type V = CpuView;

    closed spec fn view(&self) -> CpuView {
        CpuView { regs: self.register_file@, ram: self.ram@ }
    }
}

/// The rows of the sprite of a hex digit.
fn digit_sprite_rows(digit: usize) -> (rows: Vec<u8>)
    requires
        digit < 16,
    ensures
        rows@ == digit_sprite(digit as int),
{
    let rows = match digit {
        0x0 => vec![0xF0, 0x90, 0x90, 0x90, 0xF0],
        0x1 => vec![0x20, 0x60, 0x20, 0x20, 0x70],
        0x2 => vec![0xF0, 0x10, 0xF0, 0x80, 0xF0],
        0x3 => vec![0xF0, 0x10, 0xF0, 0x10, 0xF0],
        0x4 => vec![0x90, 0x90, 0xF0, 0x10, 0x10],
        0x5 => vec![0xF0, 0x80, 0xF0, 0x10, 0xF0],
        0x6 => vec![0xF0, 0x80, 0xF0, 0x90, 0xF0],
        0x7 => vec![0xF0, 0x10, 0x20, 0x40, 0x40],
        0x8 => vec![0xF0, 0x90, 0xF0, 0x90, 0xF0],
        0x9 => vec![0xF0, 0x90, 0xF0, 0x10, 0xF0],
        0xA => vec![0xF0, 0x90, 0xF0, 0x90, 0x90],
        0xB => vec![0xE0, 0x90, 0xE0, 0x90, 0xE0],
        0xC => vec![0xF0, 0x80, 0x80, 0x80, 0xF0],
        0xD => vec![0xE0, 0x90, 0x90, 0x90, 0xE0],
        0xE => vec![0xF0, 0x80, 0xF0, 0x80, 0xF0],
        _ => vec![0xF0, 0x80, 0xF0, 0x80, 0x80],
    };
    assert(rows@ =~= digit_sprite(digit as int));
    rows
}

impl CPU {
    /// Every processor has sixteen general registers and 4096 bytes of RAM.
    pub proof fn lemma_wf(&self)
        ensures
            self@.wf(),
    {
    }

    /// A processor at power-on.
    pub fn new() -> (cpu: CPU)
        ensures
            cpu@ == CpuView::reset(),
    {
        let mut cpu = CPU { register_file: RegisterFile::new(), ram: [0;RAM_SIZE] };

        cpu.register_file.PC = RAM_PROG_START as u16;

        assert(cpu@.ram =~= CpuView::reset().ram);
        cpu
    }

    /// Copies `data` into RAM from address `start` on. Data that would reach
    /// past the end of RAM is refused, and nothing is written.
    pub fn map_data(&mut self, data: Vec<u8>, start: usize) -> (mapped: Result<
        (),
        RAMOutOfBoundsError,
    >)
        ensures
            start + data@.len() > 4096 ==> mapped == Err::<(), RAMOutOfBoundsError>(
                RAMOutOfBoundsError {  },
            ) && final(self)@ == old(self)@,
            start + data@.len() <= 4096 ==> mapped is Ok && final(self)@ == (CpuView {
                ram: executor::stored(old(self)@.ram, start as int, data@),
                ..old(self)@
            }),
    {
        let data_length = data.len();
        if start > RAM_SIZE || data_length > RAM_SIZE - start {
            return Err(RAMOutOfBoundsError::new());
        }
        assert(self.ram@ =~= executor::stored(old(self).ram@, start as int, data@.take(0)));
        let mut i: usize = 0;
        while i < data_length
            invariant
                i <= data_length == data@.len(),
                start + data_length <= 4096,
                self.register_file == old(self).register_file,
                self.ram@ == executor::stored(old(self).ram@, start as int, data@.take(i as int)),
            decreases data_length - i,
        {
            self.ram[start + i] = data[i];
            assert(self.ram@ =~= executor::stored(
                old(self).ram@,
                start as int,
                data@.take(i + 1),
            ));
            i += 1;
        }
        assert(data@.take(data_length as int) =~= data@);

        Ok(())
    }

    /// Loads `program` at the start of the program area, if it fits.
    pub fn map_program(&mut self, program: Vec<u8>) -> (mapped: Result<(), RAMOutOfBoundsError>)
        ensures
            program@.len() > 4096 - 0x200 ==> mapped == Err::<(), RAMOutOfBoundsError>(
                RAMOutOfBoundsError {  },
            ) && final(self)@ == old(self)@,
            program@.len() <= 4096 - 0x200 ==> mapped is Ok && final(self)@ == (CpuView {
                ram: executor::stored(old(self)@.ram, 0x200, program@),
                ..old(self)@
            }),
    {
        self.map_data(program, RAM_PROG_START)
    }

    /// Puts the sprites of the sixteen hex digits where LDF looks for them.
    pub fn map_digit_sprites(&mut self)
        ensures
            final(self)@ == (CpuView {
                ram: with_digit_sprites(old(self)@.ram, 16),
                ..old(self)@
            }),
    {
        assert(self.ram@ =~= with_digit_sprites(old(self).ram@, 0));
        let mut i: usize = 0;
        while i < 16
            invariant
                i <= 16,
                self.register_file@ == old(self).register_file@,
                self.ram@ == with_digit_sprites(old(self).ram@, i as int),
            decreases 16 - i,
        {
            let digit = digit_sprite_rows(i);
            let ghost before = self@;
            let mapped = self.map_data(digit, RAM_DIGIT_SPRITE_START + (i * DIGIT_SPRITE_SIZE));
            assert(mapped is Ok);
            assert(self.ram@ =~= with_digit_sprites(old(self).ram@, i + 1)) by {
                assert forall|a: int| 0 <= a < 4096 implies #[trigger] self.ram@[a]
                    == with_digit_sprites(old(self).ram@, i + 1)[a] by {
                    if 0xFF + 5 * i <= a < 0xFF + 5 * i + 5 {
                        assert((a - 0xFF) / 5 == i);
                        assert((a - 0xFF) % 5 == a - (0xFF + 5 * i));
                    }
                }
            }
            i += 1;
        }
    }

    /// The two bytes at the program counter, if both lie in RAM.
    fn get_next_instruction_bytes(&self) -> (bytes: Result<(u8, u8), RAMOutOfBoundsError>)
        ensures
            bytes == self@.next_bytes(),
    {
        let msb_address = self.register_file.PC as usize;
        let lsb_address = msb_address + 1;
        if lsb_address >= RAM_SIZE {
            return Err(RAMOutOfBoundsError::new());
        }
        Ok((self.ram[msb_address], self.ram[lsb_address]))
    }

    /// Runs one cycle, given what the world outside answers in it:
    /// `random_byte` is the random byte, which only RND looks at, and `key`
    /// is the answer of the keyboard, which only the skips on a key and the
    /// wait for a key look at. On an error nothing has changed.
    pub fn execute_cycle_with(&mut self, random_byte: u8, key: Option<Key>, screen: &mut Screen) -> (outcome:
        Result<(), ExecutionError>)
        ensures
            cycles(
                old(self)@.with_screen(old(screen)@),
                key,
                random_byte,
                final(self)@.with_screen(final(screen)@),
                outcome,
            ),
    {
        let instruction = match self.inspect_next_instruction() {
            Ok(instruction) => instruction,
            Err(error) => {
                return Err(error);
            },
        };

        match executor::execute_instruction_with(
            instruction,
            random_byte,
            key,
            &mut self.register_file,
            &mut self.ram,
            screen,
        ) {
            Ok(()) => {},
            Err(error) => {
                return Err(error);
            },
        }

        if !instruction.keeps_pc() {
            self.register_file.PC = self.register_file.PC.wrapping_add(2);
        }

        Ok(())
    }

    /// Runs one cycle: fetch, decode, execute, and the step to the next
    /// instruction. RND takes its byte from the random generator of the
    /// thread, and the skips on a key and the wait for a key ask `keyboard`:
    /// of a cycle that runs one of these the contract says that the outcome
    /// is the one for some byte and some answer. Every other cycle it states
    /// exactly.
    pub fn execute_cycle(&mut self, keyboard: impl Keyboard, screen: &mut Screen) -> (outcome: Result<
        (),
        ExecutionError,
    >)
        ensures
            exists|random: u8, key: Option<Key>| #[trigger]
                cycles(
                    old(self)@.with_screen(old(screen)@),
                    key,
                    random,
                    final(self)@.with_screen(final(screen)@),
                    outcome,
                ),
            asks_nothing(old(self)@.next_instruction()) ==> cycles(
                old(self)@.with_screen(old(screen)@),
                None,
                0,
                final(self)@.with_screen(final(screen)@),
                outcome,
            ),
    {
        let ghost before = self@.with_screen(screen@);
        let instruction = match self.inspect_next_instruction() {
            Ok(instruction) => instruction,
            Err(error) => {
                assert(cycles(before, None, 0, before, Err(error)));
                return Err(error);
            },
        };

        let executed = executor::execute_instruction(
            instruction,
            &mut self.register_file,
            &mut self.ram,
            &keyboard,
            screen,
        );
        let ghost (random, key) = choose|random: u8, key: Option<Key>| #[trigger]
            executor::executes(
                before,
                instruction,
                key,
                random,
                self@.with_screen(screen@),
                executed,
            );
        match executed {
            Ok(()) => {},
            Err(error) => {
                assert(cycles(before, key, random, before, Err(error)));
                return Err(error);
            },
        }

        if !instruction.keeps_pc() {
            self.register_file.PC = self.register_file.PC.wrapping_add(2);
        }
        assert(cycles(before, key, random, self@.with_screen(screen@), Ok(())));

        Ok(())
    }

    /// A copy of the registers.
    pub fn inspect_register_file(&self) -> (file: RegisterFile)
        ensures
            file@ == self@.regs,
    {
        self.register_file
    }

    /// The instruction that the next cycle will run, decoded but not run.
    pub fn inspect_next_instruction(&self) -> (next: Result<Instruction, ExecutionError>)
        ensures
            next == self@.next_instruction(),
    {
        let (msb, lsb) = match self.get_next_instruction_bytes() {
            Ok(bytes) => bytes,
            Err(error) => {
                return Err(ExecutionError::OutOfBoundsMemory(error));
            },
        };
        match decoder::decode_instruction(msb, lsb) {
            Ok(instruction) => Ok(instruction),
            Err(error) => Err(ExecutionError::MalformedInstruction(error)),
        }
    }

    /// The RAM.
    pub fn inspect_memory(&self) -> (ram: &RAM)
        ensures
            ram@ == self@.ram,
    {
        &self.ram
    }

    /// One tick of the 60 Hz clock: each timer that is not zero goes down by one.
    pub fn tick_timers(&mut self)
        ensures
            final(self)@ == (CpuView { regs: ticked(old(self)@.regs), ..old(self)@ }),
    {
        if self.register_file.DT > 0 {
            self.register_file.DT -= 1;
        }
        if self.register_file.ST > 0 {
            self.register_file.ST -= 1;
        }
    }
}

} // verus!
