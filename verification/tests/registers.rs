use rip8::io::keys::pc_key;
use rip8::mem::register::{RegisterFile, VRegister};
use rip8::mem::RAM_SIZE;

const ALL: [VRegister; 16] = [
    VRegister::V0,
    VRegister::V1,
    VRegister::V2,
    VRegister::V3,
    VRegister::V4,
    VRegister::V5,
    VRegister::V6,
    VRegister::V7,
    VRegister::V8,
    VRegister::V9,
    VRegister::VA,
    VRegister::VB,
    VRegister::VC,
    VRegister::VD,
    VRegister::VE,
    VRegister::VF,
];

#[test]
fn new_register_file_is_zero() {
    let file = RegisterFile::new();
    for register in ALL {
        assert_eq!(file.get_v_register(register), 0);
    }
    assert_eq!((file.I, file.PC, file.SP, file.DT, file.ST), (0, 0, 0, 0, 0));
}

#[test]
fn set_changes_one_register_only() {
    for (i, register) in ALL.iter().enumerate() {
        let mut file = RegisterFile::new();
        file.set_v_register(*register, 0xA0 + i as u8);
        for (j, other) in ALL.iter().enumerate() {
            let expected = if i == j { 0xA0 + i as u8 } else { 0 };
            assert_eq!(file.get_v_register(*other), expected);
        }
        assert_eq!((file.I, file.PC, file.SP, file.DT, file.ST), (0, 0, 0, 0, 0));
    }
}

#[test]
fn flag_register_can_be_written() {
    let mut file = RegisterFile::new();
    file.set_v_register(VRegister::VF, 0x7E);
    assert_eq!(file.get_v_register(VRegister::VF), 0x7E);
}

#[test]
fn register_positions_run_from_zero_to_fifteen() {
    for (i, register) in ALL.iter().enumerate() {
        assert_eq!(register.position(), i);
    }
}

#[test]
fn ram_has_four_kibibytes() {
    assert_eq!(RAM_SIZE, 4096);
}

#[test]
fn keypad_maps_to_the_left_block_of_a_pc_keyboard() {
    let rows: [[(u8, char); 4]; 4] = [
        [(0x1, '1'), (0x2, '2'), (0x3, '3'), (0xC, '4')],
        [(0x4, 'Q'), (0x5, 'W'), (0x6, 'E'), (0xD, 'R')],
        [(0x7, 'A'), (0x8, 'S'), (0x9, 'D'), (0xE, 'F')],
        [(0xA, 'Z'), (0x0, 'X'), (0xB, 'C'), (0xF, 'V')],
    ];
    for row in rows {
        for (key, pc) in row {
            assert_eq!(pc_key(key), Some(pc));
        }
    }
}

#[test]
fn values_past_the_keypad_have_no_pc_key() {
    assert_eq!(pc_key(0x10), None);
    assert_eq!(pc_key(0xFF), None);
}
