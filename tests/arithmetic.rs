use chip8::alu::{logic_op, shift_left, shift_right, subtract_overflow, sum_overflow};

#[test]
fn add_without_carry() {
    assert_eq!(sum_overflow(5, 3), (8, 0));
    assert_eq!(sum_overflow(200, 55), (255, 0));
}

#[test]
fn add_with_carry_wraps() {
    assert_eq!(sum_overflow(200, 56), (0, 1));
    assert_eq!(sum_overflow(255, 255), (254, 1));
}

#[test]
fn add_matches_modular_sum_for_all_bytes() {
    for a in 0..=255u16 {
        for b in 0..=255u16 {
            let (r, f) = sum_overflow(a as u8, b as u8);
            assert_eq!(r as u16, (a + b) % 256);
            assert_eq!(f, if a + b > 255 { 1 } else { 0 });
        }
    }
}

#[test]
fn sub_flag_means_no_borrow() {
    assert_eq!(subtract_overflow(255, 1), (254, 1));
    assert_eq!(subtract_overflow(7, 7), (0, 1));
    assert_eq!(subtract_overflow(1, 2), (255, 0));
    assert_eq!(subtract_overflow(0, 255), (1, 0));
}

#[test]
fn subn_is_sub_with_operands_swapped() {
    for a in 0..=255u16 {
        for b in (0..=255u16).step_by(7) {
            let subn = logic_op(7, a as u8, b as u8, false);
            let sub = logic_op(5, b as u8, a as u8, false);
            assert_eq!(subn, sub);
            let (r, f) = subn.unwrap();
            assert_eq!(r as i32, ((b as i32 - a as i32) + 256) % 256);
            assert_eq!(f, if b >= a { 1 } else { 0 });
        }
    }
}

#[test]
fn shifts_report_the_bit_shifted_out() {
    assert_eq!(shift_right(0b1000_0011), (0b0100_0001, 1));
    assert_eq!(shift_right(0b0000_0010), (0b0000_0001, 0));
    assert_eq!(shift_left(0b1000_0011), (0b0000_0110, 1));
    assert_eq!(shift_left(0b0100_0000), (0b1000_0000, 0));
}

#[test]
fn logic_ops_clear_the_flag() {
    assert_eq!(logic_op(0, 0x0F, 0xF0, false), Some((0xF0, 0)));
    assert_eq!(logic_op(1, 0x0F, 0xF0, false), Some((0xFF, 0)));
    assert_eq!(logic_op(2, 0x3C, 0xF0, false), Some((0x30, 0)));
    assert_eq!(logic_op(3, 0x3C, 0xF0, false), Some((0xCC, 0)));
}

#[test]
fn shift_quirk_selects_the_operand() {
    assert_eq!(logic_op(6, 0x04, 0x81, true), Some((0x40, 1)));
    assert_eq!(logic_op(6, 0x04, 0x81, false), Some((0x02, 0)));
    assert_eq!(logic_op(0xE, 0x01, 0x81, true), Some((0x02, 1)));
    assert_eq!(logic_op(0xE, 0x01, 0x81, false), Some((0x02, 0)));
}

#[test]
fn unknown_register_operation_is_none() {
    for n in [8u8, 9, 0xA, 0xB, 0xC, 0xD, 0xF] {
        assert_eq!(logic_op(n, 1, 2, true), None);
    }
}
