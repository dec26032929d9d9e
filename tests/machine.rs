use chip8::chip::Chip8;
use chip8::keypad::Keypad;
use chip8::quirks::Quirks;
use chip8::state::{Fault, FONT_START, PROGRAM_START};

fn machine(program: &[u8]) -> Chip8 {
    let mut chip = Chip8::new();
    chip.load_program(program).unwrap();
    chip
}

fn run_frame(chip: &mut Chip8, ipf: u32, keys: &Keypad) -> Result<(), Fault> {
    chip.step_with(ipf, keys, &vec![0u8; ipf as usize])
}

#[test]
fn new_machine_state() {
    let chip = Chip8::new();
    let s = chip.state();
    assert_eq!(s.pc, PROGRAM_START);
    assert_eq!(s.vi, 0);
    assert_eq!(s.registers, [0u8; 16]);
    assert!(s.stack.is_empty());
    assert!(chip.is_running());
    assert!(!chip.sound_active());
    assert_eq!(&s.memory[FONT_START as usize..FONT_START as usize + 5], &[0xF0, 0x90, 0x90, 0x90, 0xF0]);
    assert_eq!(&s.memory[0x9B..0xA0], &[0xF0, 0x80, 0xF0, 0x80, 0x80]);
    assert_eq!(s.memory[0xA0], 0);
    assert_eq!(chip.display().screen_memory, [0u64; 32]);
}

#[test]
fn add_registers_scenario() {
    let mut chip = machine(&[0x60, 0x05, 0x61, 0x03, 0x80, 0x14]);
    let keys = Keypad::new();
    for _ in 0..3 {
        run_frame(&mut chip, 1, &keys).unwrap();
    }
    assert_eq!(chip.state().registers[0], 8);
    assert_eq!(chip.state().registers[1], 3);
    assert_eq!(chip.state().registers[15], 0);
    assert_eq!(chip.state().pc, 0x206);
}

#[test]
fn subtract_into_flag_register_scenario() {
    let mut chip = machine(&[0x6F, 0xFF, 0x6E, 0x01, 0x8F, 0xE5]);
    run_frame(&mut chip, 3, &Keypad::new()).unwrap();
    // The difference 254 is written first and then overwritten by the flag.
    assert_eq!(chip.state().registers[15], 1);
    assert_eq!(chip.state().registers[14], 1);
}

#[test]
fn block_store_index_quirk_scenario() {
    let program = [0x60, 0x11, 0x61, 0x22, 0x62, 0x33, 0xA3, 0x00, 0xF2, 0x55];
    let mut with = Chip8::with_quirks(Quirks::new(true, true, false));
    with.load_program(&program).unwrap();
    run_frame(&mut with, 5, &Keypad::new()).unwrap();
    let mut without = Chip8::with_quirks(Quirks::new(false, true, false));
    without.load_program(&program).unwrap();
    run_frame(&mut without, 5, &Keypad::new()).unwrap();
    assert_eq!(with.state().vi, 0x300 + 2 + 1);
    assert_eq!(without.state().vi, 0x300);
    assert_eq!(&with.state().memory[0x300..0x304], &[0x11, 0x22, 0x33, 0x00]);
    assert_eq!(&without.state().memory[0x300..0x304], &[0x11, 0x22, 0x33, 0x00]);
}

#[test]
fn block_load_never_moves_index() {
    let program = [0xA2, 0x08, 0xF2, 0x65, 0x12, 0x04, 0x00, 0x00, 0x0A, 0x0B, 0x0C, 0x0D];
    let mut chip = machine(&program);
    run_frame(&mut chip, 2, &Keypad::new()).unwrap();
    assert_eq!(chip.state().vi, 0x208);
    assert_eq!(&chip.state().registers[0..4], &[0x0A, 0x0B, 0x0C, 0x00]);
}

#[test]
fn timers_tick_once_per_step() {
    // V0 = 10; DT = V0; ST = V0; then jump to itself forever.
    let mut chip = machine(&[0x60, 0x0A, 0xF0, 0x15, 0xF0, 0x18, 0x12, 0x06]);
    let keys = Keypad::new();
    run_frame(&mut chip, 3, &keys).unwrap();
    assert_eq!(chip.state().delay_timer, 9);
    assert_eq!(chip.state().sound_timer, 9);
    run_frame(&mut chip, 1, &keys).unwrap();
    assert_eq!(chip.state().delay_timer, 8);
    run_frame(&mut chip, 50, &keys).unwrap();
    assert_eq!(chip.state().delay_timer, 7);
    assert_eq!(chip.state().sound_timer, 7);
    chip.step(0, &keys).unwrap();
    assert_eq!(chip.state().delay_timer, 6);
    assert!(chip.sound_active());
    for _ in 0..10 {
        chip.step(20, &keys).unwrap();
    }
    assert_eq!(chip.state().delay_timer, 0);
    assert_eq!(chip.state().sound_timer, 0);
    assert!(!chip.sound_active());
}

#[test]
fn load_from_delay_timer() {
    let mut chip = machine(&[0x60, 0x05, 0xF0, 0x15, 0xF1, 0x07]);
    run_frame(&mut chip, 2, &Keypad::new()).unwrap();
    run_frame(&mut chip, 1, &Keypad::new()).unwrap();
    assert_eq!(chip.state().registers[1], 4);
}

#[test]
fn key_wait_suspends_until_release() {
    // V3 = key; V0 = 7.
    let mut chip = machine(&[0xF3, 0x0A, 0x60, 0x07]);
    let idle = Keypad::new();
    for _ in 0..4 {
        run_frame(&mut chip, 10, &idle).unwrap();
        assert!(chip.state().should_wait);
        assert_eq!(chip.state().pc, 0x200);
        assert_eq!(chip.state().registers[3], 0);
        assert_eq!(chip.state().registers[0], 0);
    }
    let mut held = Keypad::new();
    held.set_pressed(0xB, true);
    run_frame(&mut chip, 10, &held).unwrap();
    assert!(chip.state().should_wait);
    assert_eq!(chip.state().pc, 0x200);

    let mut released = Keypad::new();
    released.release(0xB);
    run_frame(&mut chip, 1, &released).unwrap();
    assert!(!chip.state().should_wait);
    assert_eq!(chip.state().registers[3], 0xB);
    assert_eq!(chip.state().pc, 0x202);
    assert_eq!(chip.state().registers[0], 0);

    run_frame(&mut chip, 1, &idle).unwrap();
    assert_eq!(chip.state().registers[0], 7);
    assert_eq!(chip.state().pc, 0x204);
}

#[test]
fn key_wait_with_release_already_seen_does_not_suspend() {
    let mut chip = machine(&[0xF5, 0x0A, 0x60, 0x07]);
    let mut keys = Keypad::new();
    keys.release(0x2);
    run_frame(&mut chip, 2, &keys).unwrap();
    assert_eq!(chip.state().registers[5], 0x2);
    assert_eq!(chip.state().registers[0], 7);
    assert!(!chip.state().should_wait);
}

#[test]
fn skip_on_key_state() {
    // EX9E skips when V0's key is down; EXA1 when it is up.
    let program = [0x60, 0x04, 0xE0, 0x9E, 0x61, 0x01, 0xE0, 0xA1, 0x62, 0x01];
    let mut down = Keypad::new();
    down.set_pressed(4, true);
    let mut chip = machine(&program);
    run_frame(&mut chip, 4, &down).unwrap();
    assert_eq!(chip.state().registers[1], 0);
    assert_eq!(chip.state().registers[2], 1);

    let mut chip = machine(&program);
    run_frame(&mut chip, 4, &Keypad::new()).unwrap();
    assert_eq!(chip.state().registers[1], 1);
    assert_eq!(chip.state().registers[2], 0);
}

#[test]
fn call_and_return() {
    // call 0x206; V1 = 1 (after return); jump to itself; sub: V0 = 9; return.
    let program = [0x22, 0x06, 0x61, 0x01, 0x12, 0x04, 0x60, 0x09, 0x00, 0xEE];
    let mut chip = machine(&program);
    run_frame(&mut chip, 1, &Keypad::new()).unwrap();
    assert_eq!(chip.state().pc, 0x206);
    assert_eq!(chip.state().stack, vec![0x200]);
    run_frame(&mut chip, 3, &Keypad::new()).unwrap();
    assert_eq!(chip.state().registers[0], 9);
    assert_eq!(chip.state().registers[1], 1);
    assert_eq!(chip.state().pc, 0x204);
    assert!(chip.state().stack.is_empty());
}

#[test]
fn return_with_empty_stack_faults() {
    let mut chip = machine(&[0x00, 0xEE]);
    assert_eq!(run_frame(&mut chip, 1, &Keypad::new()), Err(Fault::StackUnderflow));
    assert_eq!(chip.state().pc, 0x200);
}

#[test]
fn call_depth_is_bounded() {
    let mut chip = machine(&[0x22, 0x00]);
    run_frame(&mut chip, 16, &Keypad::new()).unwrap();
    assert_eq!(chip.state().stack.len(), 16);
    assert_eq!(run_frame(&mut chip, 1, &Keypad::new()), Err(Fault::StackOverflow));
    assert_eq!(chip.state().stack.len(), 16);
}

#[test]
fn fault_stops_the_frame_but_timers_tick() {
    // V0 = 3; DT = V0; return with empty stack; V1 = 1.
    let mut chip = machine(&[0x60, 0x03, 0xF0, 0x15, 0x00, 0xEE, 0x61, 0x01]);
    assert_eq!(run_frame(&mut chip, 4, &Keypad::new()), Err(Fault::StackUnderflow));
    assert_eq!(chip.state().registers[1], 0);
    assert_eq!(chip.state().pc, 0x204);
    assert_eq!(chip.state().delay_timer, 2);
}

#[test]
fn memory_access_past_the_end_faults() {
    // I = 0xFFF; store BCD of V0.
    let mut chip = machine(&[0xAF, 0xFF, 0xF0, 0x33]);
    assert_eq!(run_frame(&mut chip, 2, &Keypad::new()), Err(Fault::AddressOutOfRange));
    assert_eq!(chip.state().memory[0xFFF], 0);
    // I = 0xFFE; store V0..V2.
    let mut chip = machine(&[0xAF, 0xFE, 0xF2, 0x55]);
    assert_eq!(run_frame(&mut chip, 2, &Keypad::new()), Err(Fault::AddressOutOfRange));
    assert_eq!(chip.state().vi, 0xFFE);
    // I = 0xFFE; draw 3 rows.
    let mut chip = machine(&[0xAF, 0xFE, 0xD0, 0x03]);
    assert_eq!(run_frame(&mut chip, 2, &Keypad::new()), Err(Fault::AddressOutOfRange));
    assert_eq!(chip.display().screen_memory, [0u64; 32]);
}

#[test]
fn fetch_past_the_end_faults() {
    let mut chip = machine(&[0x1F, 0xFF]);
    run_frame(&mut chip, 1, &Keypad::new()).unwrap();
    assert_eq!(chip.state().pc, 0xFFF);
    assert_eq!(chip.fetch(), Err(Fault::AddressOutOfRange));
    assert_eq!(run_frame(&mut chip, 1, &Keypad::new()), Err(Fault::AddressOutOfRange));
}

#[test]
fn program_size_limit() {
    let mut chip = Chip8::new();
    assert_eq!(chip.load_program(&vec![0xAB; 4096 - 0x200 + 1]), Err(Fault::ProgramTooLarge));
    assert_eq!(chip.state().memory[0x200], 0);
    assert_eq!(chip.load_program(&vec![0xAB; 4096 - 0x200]), Ok(()));
    assert_eq!(chip.state().memory[0x200], 0xAB);
    assert_eq!(chip.state().memory[0xFFF], 0xAB);
    assert_eq!(chip.fetch(), Ok(0xABAB));
}

#[test]
fn random_uses_the_offered_byte() {
    let mut chip = machine(&[0xC4, 0x0F, 0xC5, 0xF0]);
    chip.step_with(2, &Keypad::new(), &vec![0xAB, 0xCD]).unwrap();
    assert_eq!(chip.state().registers[4], 0x0B);
    assert_eq!(chip.state().registers[5], 0xC0);
}

#[test]
fn random_from_generator_respects_mask() {
    for _ in 0..50 {
        let mut chip = machine(&[0xC4, 0x0F, 0xC5, 0x00]);
        chip.step(2, &Keypad::new()).unwrap();
        assert_eq!(chip.state().registers[4] & 0xF0, 0);
        assert_eq!(chip.state().registers[5], 0);
    }
}

#[test]
fn draw_sets_flag_and_redraw_mark() {
    // I = glyph of V0 (0); draw at (V1, V2) twice.
    let mut chip = machine(&[0x61, 0x02, 0x62, 0x03, 0xF0, 0x29, 0xD1, 0x25, 0xD1, 0x25]);
    run_frame(&mut chip, 4, &Keypad::new()).unwrap();
    assert_eq!(chip.state().vi, FONT_START);
    assert_eq!(chip.state().registers[15], 0);
    assert_eq!(chip.display().screen_memory[3], 0xF0u64 << 56 >> 2);
    assert!(chip.take_redraw());
    assert!(!chip.take_redraw());
    run_frame(&mut chip, 1, &Keypad::new()).unwrap();
    assert_eq!(chip.state().registers[15], 1);
    assert_eq!(chip.display().screen_memory, [0u64; 32]);
    assert!(chip.take_redraw());
}

#[test]
fn clear_screen_instruction() {
    let mut chip = machine(&[0xA0, 0x50, 0xD0, 0x05, 0x00, 0xE0]);
    run_frame(&mut chip, 2, &Keypad::new()).unwrap();
    assert_ne!(chip.display().screen_memory, [0u64; 32]);
    chip.take_redraw();
    run_frame(&mut chip, 1, &Keypad::new()).unwrap();
    assert_eq!(chip.display().screen_memory, [0u64; 32]);
    assert!(chip.take_redraw());
}

#[test]
fn jump_with_offset_quirk() {
    // V0 = 2; V3 = 4; jump to 0x300 plus a register.
    let program = [0x60, 0x02, 0x63, 0x04, 0xB3, 0x00];
    let mut v0 = Chip8::with_quirks(Quirks::new(true, true, false));
    v0.load_program(&program).unwrap();
    run_frame(&mut v0, 3, &Keypad::new()).unwrap();
    assert_eq!(v0.state().pc, 0x302);
    let mut vx = Chip8::with_quirks(Quirks::new(true, true, true));
    vx.load_program(&program).unwrap();
    run_frame(&mut vx, 3, &Keypad::new()).unwrap();
    assert_eq!(vx.state().pc, 0x304);
}

#[test]
fn unknown_instructions_do_nothing() {
    let mut chip = machine(&[0x51, 0x23, 0x80, 0x08, 0xE0, 0x00, 0xF0, 0xFF, 0x01, 0x23]);
    let before = chip.state().registers;
    run_frame(&mut chip, 5, &Keypad::new()).unwrap();
    assert_eq!(chip.state().registers, before);
    assert_eq!(chip.state().pc, 0x20A);
}

#[test]
fn stop_clears_running() {
    let mut chip = Chip8::new();
    chip.stop();
    assert!(!chip.is_running());
}
