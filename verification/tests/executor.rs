use rip8::exec::cpu::RAMOutOfBoundsError;
use rip8::exec::executor::{
    execute_instruction, execute_instruction_with, ExecutionError, InvalidStackPointerError,
    MAX_STACK_FRAMES, STACK_FRAME_SIZE, STACK_SIZE,
};
use rip8::io::keys::{Key, Keyboard};
use rip8::io::screen::{InvalidSpriteSizeError, Screen};
use rip8::logic::instruction::{ByteOrVReg, Instruction};
use rip8::mem::register::{RegisterFile, VRegister};
use rip8::mem::{RAM, RAM_SIZE};

use rip8::mem::register::VRegister::{V0, V1, V2, V3, V5, VA, VE, VF};

struct Keys {
    down: Vec<Key>,
}

impl Keyboard for Keys {
    fn is_key_pressed(&self, key: Key) -> bool {
        self.down.contains(&key)
    }
}

struct Machine {
    regs: RegisterFile,
    ram: RAM,
    screen: Screen,
}

impl Machine {
    fn new() -> Machine {
        Machine { regs: RegisterFile::new(), ram: [0; RAM_SIZE], screen: Screen::new() }
    }

    fn with(values: &[(VRegister, u8)]) -> Machine {
        let mut machine = Machine::new();
        for (register, value) in values {
            machine.regs.set_v_register(*register, *value);
        }
        machine
    }

    fn run(&mut self, instruction: Instruction) -> Result<(), ExecutionError> {
        execute_instruction_with(instruction, 0, None, &mut self.regs, &mut self.ram, &mut self.screen)
    }

    fn run_with_key(&mut self, instruction: Instruction, key: Option<Key>) -> Result<(), ExecutionError> {
        execute_instruction_with(instruction, 0, key, &mut self.regs, &mut self.ram, &mut self.screen)
    }

    fn run_on(&mut self, instruction: Instruction, down: &[Key]) -> Result<(), ExecutionError> {
        let keys = Keys { down: down.to_vec() };
        execute_instruction(instruction, &mut self.regs, &mut self.ram, &keys, &mut self.screen)
    }

    fn v(&self, register: VRegister) -> u8 {
        self.regs.get_v_register(register)
    }
}

fn out_of_bounds() -> Result<(), ExecutionError> {
    Err(ExecutionError::OutOfBoundsMemory(RAMOutOfBoundsError::new()))
}

#[test]
fn stack_holds_sixteen_frames_of_two_bytes() {
    assert_eq!((MAX_STACK_FRAMES, STACK_FRAME_SIZE, STACK_SIZE), (16, 2, 32));
}

#[test]
fn ld_copies_a_byte_or_a_register() {
    let mut m = Machine::with(&[(V1, 0x33)]);
    m.run(Instruction::LD(V0, ByteOrVReg::Byte(0x12))).unwrap();
    assert_eq!(m.v(V0), 0x12);
    m.run(Instruction::LD(V2, ByteOrVReg::Register(V1))).unwrap();
    assert_eq!(m.v(V2), 0x33);
    assert_eq!(m.regs.PC, 0);
}

#[test]
fn add_byte_wraps_and_leaves_the_flag() {
    let mut m = Machine::with(&[(V0, 0xFF), (VF, 0x5A)]);
    m.run(Instruction::ADD(V0, ByteOrVReg::Byte(0x02))).unwrap();
    assert_eq!(m.v(V0), 0x01);
    assert_eq!(m.v(VF), 0x5A);
}

#[test]
fn add_byte_to_the_flag_register_changes_it() {
    let mut m = Machine::with(&[(VF, 0x10)]);
    m.run(Instruction::ADD(VF, ByteOrVReg::Byte(0x01))).unwrap();
    assert_eq!(m.v(VF), 0x11);
}

#[test]
fn add_register_sets_the_carry() {
    let mut m = Machine::with(&[(V0, 0xF0), (V1, 0x20), (VF, 0x5A)]);
    m.run(Instruction::ADD(V0, ByteOrVReg::Register(V1))).unwrap();
    assert_eq!((m.v(V0), m.v(VF)), (0x10, 1));
    m.run(Instruction::ADD(V0, ByteOrVReg::Register(V1))).unwrap();
    assert_eq!((m.v(V0), m.v(VF)), (0x30, 0));
}

#[test]
fn add_to_the_flag_register_keeps_the_carry() {
    let mut m = Machine::with(&[(VF, 0x90)]);
    m.run(Instruction::ADD(VF, ByteOrVReg::Register(VF))).unwrap();
    assert_eq!(m.v(VF), 1);
    let mut m = Machine::with(&[(VF, 0x10)]);
    m.run(Instruction::ADD(VF, ByteOrVReg::Register(VF))).unwrap();
    assert_eq!(m.v(VF), 0);
}

#[test]
fn sub_sets_the_flag_where_nothing_is_borrowed() {
    let mut m = Machine::with(&[(V0, 0x10), (V1, 0x01)]);
    m.run(Instruction::SUB(V0, V1)).unwrap();
    assert_eq!((m.v(V0), m.v(VF)), (0x0F, 1));
    let mut m = Machine::with(&[(V0, 0x01), (V1, 0x10)]);
    m.run(Instruction::SUB(V0, V1)).unwrap();
    assert_eq!((m.v(V0), m.v(VF)), (0xF1, 0));
    let mut m = Machine::with(&[(V0, 0x07), (V1, 0x07)]);
    m.run(Instruction::SUB(V0, V1)).unwrap();
    assert_eq!((m.v(V0), m.v(VF)), (0x00, 1));
}

#[test]
fn subn_subtracts_the_other_way() {
    let mut m = Machine::with(&[(V0, 0x01), (V1, 0x10)]);
    m.run(Instruction::SUBN(V0, V1)).unwrap();
    assert_eq!((m.v(V0), m.v(V1), m.v(VF)), (0x0F, 0x10, 1));
    let mut m = Machine::with(&[(V0, 0x10), (V1, 0x01)]);
    m.run(Instruction::SUBN(V0, V1)).unwrap();
    assert_eq!((m.v(V0), m.v(VF)), (0xF1, 0));
}

#[test]
fn subn_is_sub_with_the_operands_changed_over() {
    for (a, b) in [(0u8, 0u8), (1, 2), (2, 1), (0xFF, 0), (0, 0xFF), (0x80, 0x80)] {
        let mut subn = Machine::with(&[(V3, a), (V5, b)]);
        let mut sub = Machine::with(&[(V3, a), (V5, b)]);
        subn.run(Instruction::SUBN(V3, V5)).unwrap();
        sub.run(Instruction::SUB(V5, V3)).unwrap();
        assert_eq!(subn.v(V3), sub.v(V5));
        assert_eq!(subn.v(VF), sub.v(VF));
    }
}

#[test]
fn subn_is_sub_after_the_values_changed_over() {
    for (x, y) in [(V3, V5), (V5, V3), (VF, V1), (V1, VF), (V2, V2), (VF, VF)] {
        for (a, b) in [(0u8, 0u8), (1, 2), (2, 1), (0xFF, 0), (0, 0xFF), (0x80, 0x7F)] {
            let mut subn = Machine::with(&[(x, a), (y, b)]);
            let (a, b) = (subn.v(x), subn.v(y));
            let mut sub = Machine::with(&[(x, b), (y, a)]);
            subn.run(Instruction::SUBN(x, y)).unwrap();
            sub.run(Instruction::SUB(x, y)).unwrap();
            assert_eq!(subn.v(x), sub.v(x));
            assert_eq!(subn.v(VF), sub.v(VF));
        }
    }
}

#[test]
fn logic_instructions_leave_the_flag() {
    let mut m = Machine::with(&[(V0, 0b1100), (V1, 0b1010), (VF, 0x5A)]);
    m.run(Instruction::OR(V0, V1)).unwrap();
    assert_eq!(m.v(V0), 0b1110);
    m.run(Instruction::AND(V0, V1)).unwrap();
    assert_eq!(m.v(V0), 0b1010);
    m.regs.set_v_register(V0, 0b1100);
    m.run(Instruction::XOR(V0, V1)).unwrap();
    assert_eq!(m.v(V0), 0b0110);
    assert_eq!(m.v(VF), 0x5A);
}

#[test]
fn shr_puts_the_low_bit_in_the_flag() {
    let mut m = Machine::with(&[(V0, 0b0000_0101)]);
    m.run(Instruction::SHR(V0)).unwrap();
    assert_eq!((m.v(V0), m.v(VF)), (0b0000_0010, 1));
    m.run(Instruction::SHR(V0)).unwrap();
    assert_eq!((m.v(V0), m.v(VF)), (0b0000_0001, 0));
}

#[test]
fn shl_puts_the_high_bit_in_the_flag() {
    let mut m = Machine::with(&[(V0, 0b1100_0001)]);
    m.run(Instruction::SHL(V0)).unwrap();
    assert_eq!((m.v(V0), m.v(VF)), (0b1000_0010, 1));
    let mut m = Machine::with(&[(V0, 0b0100_0001)]);
    m.run(Instruction::SHL(V0)).unwrap();
    assert_eq!((m.v(V0), m.v(VF)), (0b1000_0010, 0));
}

#[test]
fn shift_of_the_flag_register_keeps_the_bit_shifted_out() {
    let mut m = Machine::with(&[(VF, 0b0000_0110)]);
    m.run(Instruction::SHR(VF)).unwrap();
    assert_eq!(m.v(VF), 0);
    let mut m = Machine::with(&[(VF, 0b1000_0000)]);
    m.run(Instruction::SHL(VF)).unwrap();
    assert_eq!(m.v(VF), 1);
}

#[test]
fn ldi_keeps_twelve_bits() {
    let mut m = Machine::new();
    m.run(Instruction::LDI(0x0ABC)).unwrap();
    assert_eq!(m.regs.I, 0x0ABC);
    m.run(Instruction::LDI(0xFABC)).unwrap();
    assert_eq!(m.regs.I, 0x0ABC);
}

#[test]
fn addi_wraps_at_sixteen_bits_and_leaves_the_flag() {
    let mut m = Machine::with(&[(V0, 0x10), (VF, 0x5A)]);
    m.regs.I = 0x0FF8;
    m.run(Instruction::ADDI(V0)).unwrap();
    assert_eq!(m.regs.I, 0x1008);
    m.regs.I = 0xFFF8;
    m.run(Instruction::ADDI(V0)).unwrap();
    assert_eq!(m.regs.I, 0x0008);
    assert_eq!(m.v(VF), 0x5A);
}

#[test]
fn jp_sets_the_program_counter() {
    let mut m = Machine::new();
    m.regs.PC = 0x200;
    m.run(Instruction::JP(0x456)).unwrap();
    assert_eq!(m.regs.PC, 0x456);
}

#[test]
fn jpv0_adds_v0_modulo_the_address_space() {
    let mut m = Machine::with(&[(V0, 0x10)]);
    m.run(Instruction::JPV0(0x300)).unwrap();
    assert_eq!(m.regs.PC, 0x310);
    m.regs.set_v_register(V0, 0xFF);
    m.run(Instruction::JPV0(0xFFF)).unwrap();
    assert_eq!(m.regs.PC, 0x0FE);
}

#[test]
fn skips_move_the_program_counter_by_two() {
    let mut m = Machine::with(&[(V0, 7), (V1, 7), (V2, 8)]);
    m.regs.PC = 0x200;
    m.run(Instruction::SE(V0, ByteOrVReg::Byte(7))).unwrap();
    assert_eq!(m.regs.PC, 0x202);
    m.run(Instruction::SE(V0, ByteOrVReg::Byte(8))).unwrap();
    assert_eq!(m.regs.PC, 0x202);
    m.run(Instruction::SE(V0, ByteOrVReg::Register(V1))).unwrap();
    assert_eq!(m.regs.PC, 0x204);
    m.run(Instruction::SE(V0, ByteOrVReg::Register(V2))).unwrap();
    assert_eq!(m.regs.PC, 0x204);
    m.run(Instruction::SNE(V0, ByteOrVReg::Byte(8))).unwrap();
    assert_eq!(m.regs.PC, 0x206);
    m.run(Instruction::SNE(V0, ByteOrVReg::Byte(7))).unwrap();
    assert_eq!(m.regs.PC, 0x206);
    m.run(Instruction::SNE(V0, ByteOrVReg::Register(V2))).unwrap();
    assert_eq!(m.regs.PC, 0x208);
    m.run(Instruction::SNE(V0, ByteOrVReg::Register(V1))).unwrap();
    assert_eq!(m.regs.PC, 0x208);
}

#[test]
fn skip_wraps_the_program_counter_at_sixteen_bits() {
    let mut m = Machine::new();
    m.regs.PC = 0xFFFF;
    m.run(Instruction::SE(V0, ByteOrVReg::Byte(0))).unwrap();
    assert_eq!(m.regs.PC, 0x0001);
}

#[test]
fn call_pushes_the_next_address_and_jumps() {
    let mut m = Machine::new();
    m.regs.PC = 0x2FE;
    m.run(Instruction::CALL(0x456)).unwrap();
    assert_eq!(m.regs.PC, 0x456);
    assert_eq!(m.regs.SP, 2);
    assert_eq!(&m.ram[0..2], &[0x03, 0x00]);
}

#[test]
fn ret_pops_the_address() {
    let mut m = Machine::new();
    m.ram[4] = 0x0A;
    m.ram[5] = 0xBC;
    m.regs.SP = 6;
    m.run(Instruction::RET).unwrap();
    assert_eq!(m.regs.PC, 0x0ABC);
    assert_eq!(m.regs.SP, 4);
}

#[test]
fn call_then_ret_changes_the_program_counter_only() {
    let mut m = Machine::with(&[(V0, 1), (V5, 9), (VF, 3)]);
    m.regs.PC = 0x200;
    m.regs.I = 0x321;
    m.regs.SP = 6;
    m.regs.DT = 4;
    m.regs.ST = 5;
    for (address, byte) in m.ram.iter_mut().enumerate() {
        *byte = (address % 251) as u8;
    }
    let ram = m.ram;
    m.run(Instruction::CALL(0x300)).unwrap();
    m.run(Instruction::RET).unwrap();
    assert_eq!(m.regs.PC, 0x202);
    assert_eq!((m.regs.SP, m.regs.I, m.regs.DT, m.regs.ST), (6, 0x321, 4, 5));
    assert_eq!((m.v(V0), m.v(V5), m.v(VF)), (1, 9, 3));
    assert_eq!(&m.ram[32..], &ram[32..]);
    assert_eq!(&m.ram[..6], &ram[..6]);
    assert_eq!(&m.ram[8..], &ram[8..]);
}

#[test]
fn sixteen_calls_fill_the_stack() {
    let mut m = Machine::new();
    for depth in 0..16 {
        assert_eq!(m.regs.SP, 2 * depth);
        m.run(Instruction::CALL(0x300)).unwrap();
    }
    assert_eq!(m.regs.SP, 32);
    let before = (m.regs.PC, m.ram);
    assert_eq!(
        m.run(Instruction::CALL(0x400)),
        Err(ExecutionError::InvalidStackPointer(InvalidStackPointerError::overflow()))
    );
    assert_eq!((m.regs.PC, m.ram), before);
    assert_eq!(m.regs.SP, 32);
}

#[test]
fn ret_on_an_empty_stack_fails() {
    let mut m = Machine::new();
    m.regs.PC = 0x200;
    assert_eq!(
        m.run(Instruction::RET),
        Err(ExecutionError::InvalidStackPointer(InvalidStackPointerError::negative()))
    );
    assert_eq!((m.regs.PC, m.regs.SP), (0x200, 0));
    m.regs.SP = 1;
    assert_eq!(
        m.run(Instruction::RET),
        Err(ExecutionError::InvalidStackPointer(InvalidStackPointerError::negative()))
    );
}

#[test]
fn stack_errors_tell_which_end() {
    assert!(InvalidStackPointerError::overflow().overflowed);
    assert!(!InvalidStackPointerError::negative().overflowed);
}

#[test]
fn timers_are_loaded_and_read() {
    let mut m = Machine::with(&[(V0, 0x21)]);
    m.run(Instruction::LD_TO_DT(V0)).unwrap();
    assert_eq!(m.regs.DT, 0x21);
    m.run(Instruction::LDST(V0)).unwrap();
    assert_eq!(m.regs.ST, 0x21);
    m.regs.DT = 0x42;
    m.run(Instruction::LD_FROM_DT(V1)).unwrap();
    assert_eq!(m.v(V1), 0x42);
}

#[test]
fn ldf_points_at_the_sprite_of_the_low_nibble() {
    let mut m = Machine::with(&[(V0, 0x0), (V1, 0xF), (V2, 0x3A)]);
    m.run(Instruction::LDF(V0)).unwrap();
    assert_eq!(m.regs.I, 0xFF);
    m.run(Instruction::LDF(V1)).unwrap();
    assert_eq!(m.regs.I, 0xFF + 75);
    m.run(Instruction::LDF(V2)).unwrap();
    assert_eq!(m.regs.I, 0xFF + 50);
}

#[test]
fn ldbcd_writes_three_digits() {
    let mut m = Machine::with(&[(V0, 254), (V1, 7), (V2, 40)]);
    m.regs.I = 0x300;
    m.run(Instruction::LDBCD(V0)).unwrap();
    assert_eq!(&m.ram[0x300..0x303], &[2, 5, 4]);
    m.run(Instruction::LDBCD(V1)).unwrap();
    assert_eq!(&m.ram[0x300..0x303], &[0, 0, 7]);
    m.run(Instruction::LDBCD(V2)).unwrap();
    assert_eq!(&m.ram[0x300..0x303], &[0, 4, 0]);
    assert_eq!(m.regs.I, 0x300);
}

#[test]
fn ldbcd_needs_three_bytes_of_ram() {
    let mut m = Machine::with(&[(V0, 123)]);
    m.regs.I = 4093;
    m.run(Instruction::LDBCD(V0)).unwrap();
    assert_eq!(&m.ram[4093..], &[1, 2, 3]);
    for i in [4094u16, 4095, 4096, 0xFFFF] {
        let mut m = Machine::with(&[(V0, 123)]);
        m.regs.I = i;
        assert_eq!(m.run(Instruction::LDBCD(V0)), out_of_bounds());
        assert_eq!(m.ram, [0; RAM_SIZE]);
    }
}

#[test]
fn ldarr_stores_the_registers_up_to_the_named_one() {
    let mut m = Machine::with(&[(V0, 10), (V1, 11), (V2, 12), (V3, 13)]);
    m.regs.I = 0x400;
    m.ram[0x403] = 0xEE;
    m.run(Instruction::LDARR(V2)).unwrap();
    assert_eq!(&m.ram[0x400..0x404], &[10, 11, 12, 0xEE]);
    assert_eq!(m.regs.I, 0x400);
    m.run(Instruction::LDARR(V0)).unwrap();
    assert_eq!(&m.ram[0x400..0x404], &[10, 11, 12, 0xEE]);
}

#[test]
fn ldarr_stores_all_sixteen_registers() {
    let mut m = Machine::new();
    for (i, register) in m.regs.v.iter_mut().enumerate() {
        *register = 0x50 + i as u8;
    }
    m.regs.I = 4080;
    m.run(Instruction::LDARR(VF)).unwrap();
    let expected: Vec<u8> = (0x50..0x60).collect();
    assert_eq!(&m.ram[4080..], expected.as_slice());
}

#[test]
fn ldarr_past_the_end_of_ram_fails() {
    let mut m = Machine::new();
    m.regs.I = 4081;
    assert_eq!(m.run(Instruction::LDARR(VF)), out_of_bounds());
    assert_eq!(m.ram, [0; RAM_SIZE]);
    m.run(Instruction::LDARR(VE)).unwrap();
    m.regs.I = 4096;
    assert_eq!(m.run(Instruction::LDARR(V0)), out_of_bounds());
}

#[test]
fn rdarr_loads_the_registers_up_to_the_named_one() {
    let mut m = Machine::with(&[(V3, 0x77)]);
    m.regs.I = 0x400;
    m.ram[0x400..0x404].copy_from_slice(&[1, 2, 3, 4]);
    m.run(Instruction::RDARR(V2)).unwrap();
    assert_eq!((m.v(V0), m.v(V1), m.v(V2), m.v(V3)), (1, 2, 3, 0x77));
    assert_eq!(m.regs.I, 0x400);
}

#[test]
fn rdarr_past_the_end_of_ram_fails() {
    let mut m = Machine::with(&[(V0, 9)]);
    m.regs.I = 4095;
    m.ram[4095] = 0x44;
    assert_eq!(m.run(Instruction::RDARR(V1)), out_of_bounds());
    assert_eq!(m.v(V0), 9);
    m.run(Instruction::RDARR(V0)).unwrap();
    assert_eq!(m.v(V0), 0x44);
}

#[test]
fn rnd_masks_the_random_byte() {
    let mut m = Machine::with(&[(VF, 0x5A)]);
    execute_instruction_with(
        Instruction::RND(V0, 0x0F),
        0xA7,
        None,
        &mut m.regs,
        &mut m.ram,
        &mut m.screen,
    )
    .unwrap();
    assert_eq!(m.v(V0), 0x07);
    assert_eq!(m.v(VF), 0x5A);
}

#[test]
fn rnd_from_the_generator_stays_within_the_mask() {
    let mut m = Machine::new();
    let mut seen = [false; 4];
    for _ in 0..400 {
        m.run_on(Instruction::RND(V0, 0x03), &[]).unwrap();
        assert!(m.v(V0) <= 0x03);
        seen[m.v(V0) as usize] = true;
    }
    assert_eq!(seen, [true; 4]);
    m.run_on(Instruction::RND(V0, 0x00), &[]).unwrap();
    assert_eq!(m.v(V0), 0);
}

#[test]
fn cls_clears_the_screen() {
    let mut m = Machine::new();
    m.screen.draw(0, 0, vec![0xFF]).unwrap();
    m.screen.reset_changed();
    m.run(Instruction::CLS).unwrap();
    assert!(m.screen.inspect_screen().iter().all(|row| row.iter().all(|pixel| !pixel)));
    assert!(m.screen.has_changed());
}

#[test]
fn drw_draws_the_sprite_at_i() {
    let mut m = Machine::with(&[(V0, 4), (V1, 2), (VF, 0x5A)]);
    m.regs.I = 0x300;
    m.ram[0x300] = 0xC0;
    m.ram[0x301] = 0x80;
    m.run(Instruction::DRW(V0, V1, 2)).unwrap();
    assert_eq!(m.v(VF), 0);
    assert!(m.screen.inspect_screen()[2][4]);
    assert!(m.screen.inspect_screen()[2][5]);
    assert!(m.screen.inspect_screen()[3][4]);
    assert!(!m.screen.inspect_screen()[3][5]);
    assert_eq!(m.screen.inspect_last_drawn_sprite(), Some(vec![0xC0, 0x80]));
    assert_eq!(m.regs.I, 0x300);
}

#[test]
fn drw_reports_a_collision_in_the_flag() {
    let mut m = Machine::new();
    m.regs.I = 0x300;
    m.ram[0x300] = 0x80;
    m.run(Instruction::DRW(V0, V0, 1)).unwrap();
    assert_eq!(m.v(VF), 0);
    m.run(Instruction::DRW(V0, V0, 1)).unwrap();
    assert_eq!(m.v(VF), 1);
    m.run(Instruction::DRW(V0, V0, 1)).unwrap();
    assert_eq!(m.v(VF), 0);
}

#[test]
fn drw_with_the_flag_register_as_coordinate_reads_it_first() {
    let mut m = Machine::with(&[(VF, 8)]);
    m.regs.I = 0x300;
    m.ram[0x300] = 0x80;
    m.run(Instruction::DRW(VF, VF, 1)).unwrap();
    assert!(m.screen.inspect_screen()[8][8]);
    assert_eq!(m.v(VF), 0);
}

#[test]
fn drw_past_the_end_of_ram_fails() {
    let mut m = Machine::new();
    m.regs.I = 4094;
    m.run(Instruction::DRW(V0, V0, 2)).unwrap();
    m.screen.reset_changed();
    assert_eq!(m.run(Instruction::DRW(V0, V0, 3)), out_of_bounds());
    assert!(!m.screen.has_changed());
    m.regs.I = 4096;
    assert_eq!(m.run(Instruction::DRW(V0, V0, 1)), out_of_bounds());
}

#[test]
fn drw_of_no_rows_reads_no_ram() {
    let mut m = Machine::with(&[(VF, 0x5A)]);
    m.regs.I = 0xFFFF;
    m.run(Instruction::DRW(V0, V0, 0)).unwrap();
    assert_eq!(m.v(VF), 0);
    assert_eq!(m.screen.inspect_last_drawn_sprite(), Some(vec![]));
}

#[test]
fn drw_of_more_than_fifteen_rows_fails() {
    let mut m = Machine::with(&[(VF, 0x5A)]);
    m.regs.I = 0x300;
    assert_eq!(
        m.run(Instruction::DRW(V0, V0, 16)),
        Err(ExecutionError::InvalidSpriteSize(InvalidSpriteSizeError::new(16)))
    );
    assert_eq!(m.v(VF), 0x5A);
    assert!(!m.screen.has_changed());
    m.regs.I = 4000;
    assert_eq!(m.run(Instruction::DRW(V0, V0, 200)), out_of_bounds());
}

#[test]
fn skp_skips_where_the_key_is_down() {
    let mut m = Machine::with(&[(VA, 0x7)]);
    m.regs.PC = 0x200;
    m.run_on(Instruction::SKP(VA), &[0x7]).unwrap();
    assert_eq!(m.regs.PC, 0x202);
    m.run_on(Instruction::SKP(VA), &[0x6, 0x8]).unwrap();
    assert_eq!(m.regs.PC, 0x202);
    m.run_on(Instruction::SKP(VA), &[]).unwrap();
    assert_eq!(m.regs.PC, 0x202);
}

#[test]
fn sknp_skips_where_the_key_is_up() {
    let mut m = Machine::with(&[(VA, 0x7)]);
    m.regs.PC = 0x200;
    m.run_on(Instruction::SKNP(VA), &[0x7]).unwrap();
    assert_eq!(m.regs.PC, 0x200);
    m.run_on(Instruction::SKNP(VA), &[0x6, 0x8]).unwrap();
    assert_eq!(m.regs.PC, 0x202);
    m.run_on(Instruction::SKNP(VA), &[]).unwrap();
    assert_eq!(m.regs.PC, 0x204);
}

#[test]
fn skips_on_a_key_follow_the_answer_given() {
    let mut m = Machine::new();
    m.regs.PC = 0x200;
    m.run_with_key(Instruction::SKP(V0), Some(0)).unwrap();
    assert_eq!(m.regs.PC, 0x202);
    m.run_with_key(Instruction::SKP(V0), None).unwrap();
    assert_eq!(m.regs.PC, 0x202);
    m.run_with_key(Instruction::SKNP(V0), Some(0)).unwrap();
    assert_eq!(m.regs.PC, 0x202);
    m.run_with_key(Instruction::SKNP(V0), None).unwrap();
    assert_eq!(m.regs.PC, 0x204);
}

#[test]
fn ldk_takes_the_key_that_is_down() {
    for key in 0x0..=0xFu8 {
        let mut m = Machine::with(&[(V5, 0xEE)]);
        m.regs.PC = 0x202;
        m.run_on(Instruction::LDK(V5), &[key]).unwrap();
        assert_eq!(m.v(V5), key);
        assert_eq!(m.regs.PC, 0x202);
    }
}

#[test]
fn ldk_takes_the_lowest_of_several_keys() {
    let mut m = Machine::new();
    m.run_on(Instruction::LDK(V0), &[0xF, 0x3, 0x9]).unwrap();
    assert_eq!(m.v(V0), 0x3);
}

#[test]
fn ldk_without_a_key_steps_back() {
    let mut m = Machine::with(&[(V5, 0xEE)]);
    m.regs.PC = 0x202;
    m.run_on(Instruction::LDK(V5), &[]).unwrap();
    assert_eq!(m.v(V5), 0xEE);
    assert_eq!(m.regs.PC, 0x200);
    m.run_on(Instruction::LDK(V5), &[0x10, 0xFF]).unwrap();
    assert_eq!(m.regs.PC, 0x1FE);
}

#[test]
fn ldk_without_a_key_wraps_below_zero() {
    let mut m = Machine::new();
    m.regs.PC = 0x0001;
    m.run_with_key(Instruction::LDK(V0), None).unwrap();
    assert_eq!(m.regs.PC, 0xFFFF);
}

#[test]
fn instructions_that_ask_nothing_ignore_keyboard_and_random_byte() {
    let mut plain = Machine::with(&[(V0, 3), (V1, 4)]);
    let mut asked = Machine::with(&[(V0, 3), (V1, 4)]);
    let instruction = Instruction::ADD(V0, ByteOrVReg::Register(V1));
    plain.run(instruction).unwrap();
    asked.run_on(instruction, &[0x1, 0x2]).unwrap();
    assert_eq!(plain.regs.v, asked.regs.v);
    execute_instruction_with(
        instruction,
        0xFF,
        Some(0xA),
        &mut asked.regs,
        &mut asked.ram,
        &mut asked.screen,
    )
    .unwrap();
    plain.run(instruction).unwrap();
    assert_eq!(plain.regs.v, asked.regs.v);
}
