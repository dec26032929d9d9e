use chip8::opcode;
use chip8::parser::{self, get_digit, get_n, get_nn, get_nnn, get_x, get_y, mask};
use chip8::quirks::Quirks;

#[test]
fn nibble_fields_of_a_word() {
    let code = 0xD12Au16;
    assert_eq!(get_digit(code), 0xD);
    assert_eq!(get_x(code), 0x1);
    assert_eq!(get_y(code), 0x2);
    assert_eq!(get_n(code), 0xA);
    assert_eq!(get_nn(code), 0x2A);
    assert_eq!(get_nnn(code), 0x12A);
    assert_eq!(mask(code, 0xF00F), 0xD00A);
}

#[test]
fn split_opcode_round_trips() {
    let op = parser::OpCode::from(0x8AB4);
    assert_eq!((op.0, op.1, op.2, op.3), (0x8, 0xA, 0xB, 0x4));
    assert_eq!(op.get_2n(), 0xB4);
    assert_eq!(op.get_3n(), 0xAB4);
    assert_eq!(op.to_word(), 0x8AB4);
}

#[test]
fn fetched_opcode_reads_big_endian() {
    let mut memory = [0u8; 4096];
    memory[0x300] = 0xF3;
    memory[0x301] = 0x55;
    let mut op = opcode::OpCode::init();
    assert_eq!(op.code(), 0);
    op.update(0x300, &memory);
    assert_eq!(op.code(), 0xF355);
    assert_eq!(op.mask(0xF000), 0xF000);
    assert_eq!(op.get_x(), 3);
    assert_eq!(op.get_y(), 5);
    assert_eq!(op.get_n(), 5);
    assert_eq!(op.get_2n(), 0x55);
    assert_eq!(op.get_3n(), 0x355);
}

#[test]
fn chip8_quirk_preset() {
    let q = Quirks::for_chip8();
    assert!(q.has_increment_index());
    assert!(q.has_shifting());
    assert!(!q.has_jumping());
    let q = Quirks::new(false, false, true);
    assert!(!q.has_increment_index());
    assert!(!q.has_shifting());
    assert!(q.has_jumping());
}
