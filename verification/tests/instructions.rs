use chip8::program::{Fault, Instruction};
use chip8::system::System;

/// Executes the instruction `word` with the random byte 0.
fn run(sys: &mut System, word: u16) -> Result<(), Fault> {
    Instruction::from(word).execute_with(sys, 0)
}

/// A machine as after a fetch at the start of a program.
fn machine() -> System {
    let mut sys = System::new();
    sys.pc = 0x202;
    sys
}

/// The 256 bytes of the display buffer.
fn display(sys: &System) -> Vec<u8> {
    (0xF00..0x1000u16).map(|address| sys.memory.get(address)).collect()
}

/// All sixteen registers.
fn registers(sys: &System) -> Vec<u8> {
    (0..16u8).map(|idx| sys.registers.get(idx)).collect()
}

#[test]
fn decimal_digits_are_stored_at_the_index() {
    let mut sys = machine();
    sys.registers.set(4, 157);
    sys.registers.set_i(0x300);
    assert_eq!(run(&mut sys, 0xF433), Ok(()));
    assert_eq!(sys.memory.get(0x300), 1);
    assert_eq!(sys.memory.get(0x301), 5);
    assert_eq!(sys.memory.get(0x302), 7);
    assert_eq!(sys.memory.get(0x2FF), 0);
    assert_eq!(sys.memory.get(0x303), 0);
    assert_eq!(sys.registers.i(), 0x300);
    assert_eq!(sys.pc, 0x202);
}

#[test]
fn decimal_digits_of_small_and_large_values() {
    for (value, digits) in [(0u8, [0u8, 0, 0]), (9, [0, 0, 9]), (40, [0, 4, 0]), (255, [2, 5, 5])] {
        let mut sys = machine();
        sys.registers.set(0, value);
        sys.registers.set_i(0xFFD);
        assert_eq!(run(&mut sys, 0xF033), Ok(()));
        assert_eq!(
            [sys.memory.get(0xFFD), sys.memory.get(0xFFE), sys.memory.get(0xFFF)],
            digits
        );
    }
}

#[test]
fn decimal_digits_beyond_the_memory_are_a_fault() {
    for index in [0xFFEu16, 0xFFF] {
        let mut sys = machine();
        sys.registers.set(4, 157);
        sys.registers.set_i(index);
        assert_eq!(run(&mut sys, 0xF433), Err(Fault::WriteOutOfRange { address: 0x1000 }));
        // nothing was written
        assert_eq!(sys.memory.get(0xFFE), 0);
        assert_eq!(sys.memory.get(0xFFF), 0);
        assert_eq!(sys.registers.get(4), 157);
        assert_eq!(sys.pc, 0x202);
    }
}

#[test]
fn add_with_carry() {
    let mut sys = machine();
    sys.registers.set(1, 250);
    sys.registers.set(2, 10);
    assert_eq!(run(&mut sys, 0x8124), Ok(()));
    assert_eq!(sys.registers.get(1), 4);
    assert_eq!(sys.registers.get(2), 10);
    assert_eq!(sys.registers.get(0xF), 1);
}

#[test]
fn add_without_carry() {
    let mut sys = machine();
    sys.registers.set(1, 10);
    sys.registers.set(2, 5);
    sys.registers.set_vF(1);
    assert_eq!(run(&mut sys, 0x8124), Ok(()));
    assert_eq!(sys.registers.get(1), 15);
    assert_eq!(sys.registers.get(0xF), 0);
}

#[test]
fn add_at_the_edge_of_the_carry() {
    let mut sys = machine();
    sys.registers.set(1, 255);
    sys.registers.set(2, 0);
    assert_eq!(run(&mut sys, 0x8124), Ok(()));
    assert_eq!((sys.registers.get(1), sys.registers.get(0xF)), (255, 0));
    sys.registers.set(2, 1);
    assert_eq!(run(&mut sys, 0x8124), Ok(()));
    assert_eq!((sys.registers.get(1), sys.registers.get(0xF)), (0, 1));
    sys.registers.set(1, 255);
    sys.registers.set(2, 255);
    assert_eq!(run(&mut sys, 0x8124), Ok(()));
    assert_eq!((sys.registers.get(1), sys.registers.get(0xF)), (254, 1));
}

#[test]
fn subtract_with_borrow() {
    let mut sys = machine();
    sys.registers.set(1, 5);
    sys.registers.set(2, 10);
    sys.registers.set_vF(1);
    assert_eq!(run(&mut sys, 0x8125), Ok(()));
    assert_eq!(sys.registers.get(1), 251);
    assert_eq!(sys.registers.get(2), 10);
    assert_eq!(sys.registers.get(0xF), 0);
}

#[test]
fn subtract_without_borrow() {
    let mut sys = machine();
    sys.registers.set(1, 10);
    sys.registers.set(2, 5);
    assert_eq!(run(&mut sys, 0x8125), Ok(()));
    assert_eq!(sys.registers.get(1), 5);
    assert_eq!(sys.registers.get(0xF), 1);
}

#[test]
fn subtract_equal_values_borrows_nothing() {
    let mut sys = machine();
    sys.registers.set(1, 77);
    sys.registers.set(2, 77);
    assert_eq!(run(&mut sys, 0x8125), Ok(()));
    assert_eq!((sys.registers.get(1), sys.registers.get(0xF)), (0, 1));
}

#[test]
fn reversed_subtract() {
    let mut sys = machine();
    sys.registers.set(1, 5);
    sys.registers.set(2, 10);
    assert_eq!(run(&mut sys, 0x8127), Ok(()));
    assert_eq!((sys.registers.get(1), sys.registers.get(2), sys.registers.get(0xF)), (5, 10, 1));

    let mut sys = machine();
    sys.registers.set(1, 10);
    sys.registers.set(2, 5);
    assert_eq!(run(&mut sys, 0x8127), Ok(()));
    assert_eq!((sys.registers.get(1), sys.registers.get(0xF)), (251, 0));
}

#[test]
fn the_result_replaces_the_flag_where_the_target_is_the_flag_register() {
    let mut sys = machine();
    sys.registers.set(0xF, 250);
    sys.registers.set(2, 10);
    assert_eq!(run(&mut sys, 0x8F24), Ok(()));
    // the carry was written first, then the sum
    assert_eq!(sys.registers.get(0xF), 4);

    let mut sys = machine();
    sys.registers.set(0xF, 0x03);
    assert_eq!(run(&mut sys, 0x8F06), Ok(()));
    assert_eq!(sys.registers.get(0xF), 0x01);
}

#[test]
fn copy_or_and_xor() {
    let mut sys = machine();
    sys.registers.set(3, 0b1100);
    sys.registers.set(4, 0b1010);
    sys.registers.set_vF(7);
    assert_eq!(run(&mut sys, 0x8341), Ok(()));
    assert_eq!(sys.registers.get(3), 0b1110);
    sys.registers.set(3, 0b1100);
    assert_eq!(run(&mut sys, 0x8342), Ok(()));
    assert_eq!(sys.registers.get(3), 0b1000);
    sys.registers.set(3, 0b1100);
    assert_eq!(run(&mut sys, 0x8343), Ok(()));
    assert_eq!(sys.registers.get(3), 0b0110);
    assert_eq!(run(&mut sys, 0x8340), Ok(()));
    assert_eq!(sys.registers.get(3), 0b1010);
    assert_eq!(sys.registers.get(4), 0b1010);
    // none of them touches the flag
    assert_eq!(sys.registers.get(0xF), 7);
}

#[test]
fn shift_right_takes_the_flag_from_the_index_of_the_register() {
    // V[2] is odd, but the index 2 is even: the flag is 0
    let mut sys = machine();
    sys.registers.set(2, 0b0000_0111);
    sys.registers.set_vF(9);
    assert_eq!(run(&mut sys, 0x8206), Ok(()));
    assert_eq!(sys.registers.get(2), 0b0000_0011);
    assert_eq!(sys.registers.get(0xF), 0);
    // V[3] is even, but the index 3 is odd: the flag is 1
    let mut sys = machine();
    sys.registers.set(3, 0b0000_0110);
    assert_eq!(run(&mut sys, 0x83A6), Ok(()));
    assert_eq!(sys.registers.get(3), 0b0000_0011);
    assert_eq!(sys.registers.get(0xF), 1);
}

#[test]
fn shift_left_takes_the_flag_from_the_index_of_the_register() {
    // bit 7 of V[3] is set, but no index has a bit 7: the flag is 0
    let mut sys = machine();
    sys.registers.set(3, 0b1000_0001);
    sys.registers.set_vF(9);
    assert_eq!(run(&mut sys, 0x830E), Ok(()));
    assert_eq!(sys.registers.get(3), 0b0000_0010);
    assert_eq!(sys.registers.get(0xF), 0);

    let mut sys = machine();
    sys.registers.set(0xE, 0x80);
    assert_eq!(run(&mut sys, 0x8E5E), Ok(()));
    assert_eq!(sys.registers.get(0xE), 0);
    assert_eq!(sys.registers.get(0xF), 0);

    let mut sys = machine();
    sys.registers.set(1, 0x7F);
    assert_eq!(run(&mut sys, 0x810E), Ok(()));
    assert_eq!(sys.registers.get(1), 0xFE);
}

#[test]
fn clear_display_resets_every_pixel() {
    let mut sys = machine();
    for address in 0xF00..0x1000u16 {
        sys.memory.store(address, 0xFF);
    }
    sys.memory.store(0xEFF, 0x77);
    let before = registers(&sys);
    assert_eq!(run(&mut sys, 0x00E0), Ok(()));
    assert_eq!(display(&sys), vec![0u8; 256]);
    assert_eq!(sys.memory.get(0xEFF), 0x77);
    assert_eq!(registers(&sys), before);
    assert_eq!(sys.pc, 0x202);
}

#[test]
fn drawing_an_all_zero_sprite_after_a_clear_changes_nothing() {
    let mut sys = machine();
    sys.memory.store(0xF10, 0xFF);
    assert_eq!(run(&mut sys, 0x00E0), Ok(()));
    sys.registers.set_i(0x300);
    sys.registers.set(1, 10);
    sys.registers.set(2, 5);
    sys.registers.set_vF(1);
    assert_eq!(run(&mut sys, 0xD12F), Ok(()));
    assert_eq!(sys.registers.get(0xF), 0);
    assert_eq!(display(&sys), vec![0u8; 256]);
}

#[test]
fn drawing_an_all_zero_sprite_leaves_a_picture_as_it_is() {
    let mut sys = machine();
    for address in 0xF00..0x1000u16 {
        sys.memory.store(address, (address % 251) as u8);
    }
    let before = display(&sys);
    sys.registers.set_i(0x300);
    sys.registers.set(1, 61);
    sys.registers.set(2, 30);
    sys.registers.set_vF(1);
    assert_eq!(run(&mut sys, 0xD128), Ok(()));
    assert_eq!(sys.registers.get(0xF), 0);
    assert_eq!(display(&sys), before);
}

#[test]
fn drawing_a_sprite_twice_erases_it_and_sets_the_flag() {
    let mut sys = machine();
    sys.memory.store(0x300, 0b1111_0000);
    sys.memory.store(0x301, 0b1001_0000);
    sys.memory.store(0x302, 0b1111_0000);
    sys.registers.set_i(0x300);
    sys.registers.set(1, 12);
    sys.registers.set(2, 7);
    assert_eq!(run(&mut sys, 0xD123), Ok(()));
    assert_eq!(sys.registers.get(0xF), 0);
    // x = 12 starts at bit 4 of byte 1 of rows 7, 8 and 9
    assert_eq!(sys.memory.get(0xF00 + 7 * 8 + 1), 0b0000_1111);
    assert_eq!(sys.memory.get(0xF00 + 8 * 8 + 1), 0b0000_1001);
    assert_eq!(sys.memory.get(0xF00 + 9 * 8 + 1), 0b0000_1111);
    assert_eq!(sys.memory.get(0xF00 + 7 * 8 + 2), 0);

    assert_eq!(run(&mut sys, 0xD123), Ok(()));
    assert_eq!(sys.registers.get(0xF), 1);
    assert_eq!(display(&sys), vec![0u8; 256]);
}

#[test]
fn drawing_twice_restores_any_picture() {
    let mut sys = machine();
    for address in 0xF00..0x1000u16 {
        sys.memory.store(address, 0xFF);
    }
    sys.memory.store(0x300, 0b1010_0101);
    sys.registers.set_i(0x300);
    sys.registers.set(1, 3);
    sys.registers.set(2, 0);
    // every pixel under the sprite is set: the first draw resets pixels, the second none
    assert_eq!(run(&mut sys, 0xD121), Ok(()));
    assert_eq!(sys.registers.get(0xF), 1);
    assert_eq!(sys.memory.get(0xF00), 0b1110_1011);
    assert_eq!(sys.memory.get(0xF01), 0b0101_1111);
    assert_eq!(run(&mut sys, 0xD121), Ok(()));
    assert_eq!(sys.registers.get(0xF), 0);
    assert_eq!(display(&sys), vec![0xFFu8; 256]);
}

#[test]
fn a_sprite_that_is_not_aligned_reaches_into_the_next_byte() {
    let mut sys = machine();
    sys.memory.store(0x300, 0xFF);
    sys.registers.set_i(0x300);
    sys.registers.set(0, 5);
    sys.registers.set(1, 2);
    assert_eq!(run(&mut sys, 0xD011), Ok(()));
    assert_eq!(sys.memory.get(0xF00 + 2 * 8), 0b0000_0111);
    assert_eq!(sys.memory.get(0xF00 + 2 * 8 + 1), 0b1111_1000);
    assert_eq!(sys.memory.get(0xF00 + 2 * 8 + 2), 0);
    assert_eq!(sys.registers.get(0xF), 0);
}

#[test]
fn a_sprite_is_clipped_at_the_right_edge() {
    let mut sys = machine();
    sys.memory.store(0x300, 0xFF);
    sys.registers.set_i(0x300);
    sys.registers.set(0, 60);
    sys.registers.set(1, 0);
    assert_eq!(run(&mut sys, 0xD011), Ok(()));
    assert_eq!(sys.memory.get(0xF07), 0b0000_1111);
    // nothing wraps into the next row or to the left edge
    assert_eq!(sys.memory.get(0xF08), 0);
    assert_eq!(sys.memory.get(0xF00), 0);
    let lit: u32 = display(&sys).iter().map(|byte| byte.count_ones()).sum();
    assert_eq!(lit, 4);
}

#[test]
fn a_sprite_is_clipped_at_the_lower_edge() {
    let mut sys = machine();
    for offset in 0..5u16 {
        sys.memory.store(0x300 + offset, 0x80);
    }
    sys.registers.set_i(0x300);
    sys.registers.set(0, 0);
    sys.registers.set(1, 30);
    assert_eq!(run(&mut sys, 0xD015), Ok(()));
    assert_eq!(sys.memory.get(0xF00 + 30 * 8), 0x80);
    assert_eq!(sys.memory.get(0xF00 + 31 * 8), 0x80);
    let lit: u32 = display(&sys).iter().map(|byte| byte.count_ones()).sum();
    assert_eq!(lit, 2);
    assert_eq!(sys.memory.get(0xF00), 0);
}

#[test]
fn the_corner_of_a_sprite_wraps_around_the_screen() {
    let mut sys = machine();
    sys.memory.store(0x300, 0x80);
    sys.registers.set_i(0x300);
    sys.registers.set(0, 64 + 9);
    sys.registers.set(1, 32 + 3);
    assert_eq!(run(&mut sys, 0xD011), Ok(()));
    // the pixel is at (9, 3)
    assert_eq!(sys.memory.get(0xF00 + 3 * 8 + 1), 0b0100_0000);
    let lit: u32 = display(&sys).iter().map(|byte| byte.count_ones()).sum();
    assert_eq!(lit, 1);
}

#[test]
fn a_sprite_of_no_rows_draws_nothing_and_clears_the_flag() {
    let mut sys = machine();
    sys.memory.store(0x300, 0xFF);
    sys.memory.store(0xF00, 0xFF);
    sys.registers.set_i(0x300);
    sys.registers.set_vF(1);
    assert_eq!(run(&mut sys, 0xD010), Ok(()));
    assert_eq!(sys.memory.get(0xF00), 0xFF);
    assert_eq!(sys.registers.get(0xF), 0);
}

#[test]
fn a_collision_in_one_row_is_enough() {
    let mut sys = machine();
    sys.memory.store(0x300, 0x80);
    sys.memory.store(0x301, 0x80);
    sys.memory.store(0x302, 0x80);
    sys.registers.set_i(0x300);
    // the pixel (0, 1) is set already
    sys.memory.store(0xF08, 0x80);
    assert_eq!(run(&mut sys, 0xD013), Ok(()));
    assert_eq!(sys.registers.get(0xF), 1);
    assert_eq!(sys.memory.get(0xF00), 0x80);
    assert_eq!(sys.memory.get(0xF08), 0x00);
    assert_eq!(sys.memory.get(0xF10), 0x80);
}

#[test]
fn a_font_glyph_can_be_drawn() {
    let mut sys = machine();
    sys.registers.set(3, 0xA);
    assert_eq!(run(&mut sys, 0xF329), Ok(()));
    assert_eq!(sys.registers.i(), 0x50 + 5 * 0xA);
    sys.registers.set(0, 0);
    sys.registers.set(1, 0);
    assert_eq!(run(&mut sys, 0xD015), Ok(()));
    let rows: Vec<u8> = (0..5u16).map(|row| sys.memory.get(0xF00 + 8 * row)).collect();
    assert_eq!(rows, vec![0xF0, 0x90, 0xF0, 0x90, 0x90]);
}

#[test]
fn the_glyph_address_uses_the_low_digit_of_the_register() {
    for (value, address) in [(0u8, 0x50u16), (1, 0x55), (0xF, 0x9B), (0x10, 0x50), (0xFE, 0x96)] {
        let mut sys = machine();
        sys.registers.set(7, value);
        assert_eq!(run(&mut sys, 0xF729), Ok(()));
        assert_eq!(sys.registers.i(), address);
    }
}

#[test]
fn call_and_return_go_on_behind_the_call() {
    let mut sys = machine();
    // the call at 0x200 was fetched: the counter is at 0x202
    assert_eq!(run(&mut sys, 0x2400), Ok(()));
    assert_eq!(sys.pc, 0x400);
    // the subroutine runs for a while
    sys.pc = 0x402;
    assert_eq!(run(&mut sys, 0x6122), Ok(()));
    sys.pc = 0x404;
    assert_eq!(run(&mut sys, 0x7101), Ok(()));
    sys.pc = 0x406;
    assert_eq!(run(&mut sys, 0x00EE), Ok(()));
    assert_eq!(sys.pc, 0x202);
    assert_eq!(sys.stack.pop(), None);
    assert_eq!(sys.registers.get(1), 0x23);
}

#[test]
fn nested_calls_return_in_reverse_order() {
    let mut sys = machine();
    assert_eq!(run(&mut sys, 0x2300), Ok(()));
    sys.pc = 0x302;
    assert_eq!(run(&mut sys, 0x2400), Ok(()));
    sys.pc = 0x402;
    assert_eq!(run(&mut sys, 0x2500), Ok(()));
    assert_eq!(sys.pc, 0x500);
    assert_eq!(run(&mut sys, 0x00EE), Ok(()));
    assert_eq!(sys.pc, 0x402);
    assert_eq!(run(&mut sys, 0x00EE), Ok(()));
    assert_eq!(sys.pc, 0x302);
    assert_eq!(run(&mut sys, 0x00EE), Ok(()));
    assert_eq!(sys.pc, 0x202);
}

#[test]
fn a_return_without_a_call_is_a_fault() {
    let mut sys = machine();
    sys.registers.set(1, 5);
    assert_eq!(run(&mut sys, 0x00EE), Err(Fault::ReturnWithoutCall));
    assert_eq!(sys.pc, 0x202);
    assert_eq!(sys.registers.get(1), 5);
    assert_eq!(sys.stack.pop(), None);
}

#[test]
fn adding_to_the_index_wraps_and_sets_the_flag() {
    let mut sys = machine();
    sys.registers.set_i(0xFF8);
    sys.registers.set(3, 0x10);
    assert_eq!(run(&mut sys, 0xF31E), Ok(()));
    assert_eq!(sys.registers.i(), 0x8);
    assert_eq!(sys.registers.get(0xF), 1);
    assert_eq!(sys.registers.get(3), 0x10);
}

#[test]
fn adding_to_the_index_without_a_carry_leaves_the_flag_alone() {
    let mut sys = machine();
    sys.registers.set_i(0x100);
    sys.registers.set(3, 0x10);
    sys.registers.set_vF(1);
    assert_eq!(run(&mut sys, 0xF31E), Ok(()));
    assert_eq!(sys.registers.i(), 0x110);
    assert_eq!(sys.registers.get(0xF), 1);

    let mut sys = machine();
    sys.registers.set_i(0xF00);
    sys.registers.set(3, 0xFF);
    sys.registers.set_vF(7);
    assert_eq!(run(&mut sys, 0xF31E), Ok(()));
    assert_eq!(sys.registers.i(), 0xFFF);
    assert_eq!(sys.registers.get(0xF), 7);

    let mut sys = machine();
    sys.registers.set_i(0xF01);
    sys.registers.set(3, 0xFF);
    assert_eq!(run(&mut sys, 0xF31E), Ok(()));
    assert_eq!(sys.registers.i(), 0x000);
    assert_eq!(sys.registers.get(0xF), 1);
}

#[test]
fn jump_sets_the_counter() {
    let mut sys = machine();
    assert_eq!(run(&mut sys, 0x1ABC), Ok(()));
    assert_eq!(sys.pc, 0xABC);
    assert_eq!(sys.stack.pop(), None);
    assert_eq!(run(&mut sys, 0x1000), Ok(()));
    assert_eq!(sys.pc, 0);
}

#[test]
fn jump_with_offset_adds_register_zero() {
    let mut sys = machine();
    sys.registers.set(0, 0x12);
    assert_eq!(run(&mut sys, 0xB300), Ok(()));
    assert_eq!(sys.pc, 0x312);
    sys.registers.set(0, 0xFF);
    assert_eq!(run(&mut sys, 0xBFFF), Ok(()));
    assert_eq!(sys.pc, 0x10FE);
}

#[test]
fn machine_code_calls_are_ignored() {
    for word in [0x0123u16, 0x0FFF, 0x00E1, 0x00EF, 0x01E0, 0x0001] {
        let mut sys = machine();
        sys.registers.set(1, 9);
        sys.memory.store(0xF00, 0xFF);
        assert_eq!(run(&mut sys, word), Ok(()));
        assert_eq!(sys.pc, 0x202);
        assert_eq!(sys.registers.get(1), 9);
        assert_eq!(sys.memory.get(0xF00), 0xFF);
        assert_eq!(sys.stack.pop(), None);
    }
}

#[test]
fn skip_if_register_equals_byte() {
    let mut sys = machine();
    sys.registers.set(5, 0x42);
    assert_eq!(run(&mut sys, 0x3542), Ok(()));
    assert_eq!(sys.pc, 0x204);
    assert_eq!(run(&mut sys, 0x3543), Ok(()));
    assert_eq!(sys.pc, 0x204);
}

#[test]
fn skip_if_register_differs_from_byte() {
    let mut sys = machine();
    sys.registers.set(5, 0x42);
    assert_eq!(run(&mut sys, 0x4542), Ok(()));
    assert_eq!(sys.pc, 0x202);
    assert_eq!(run(&mut sys, 0x4543), Ok(()));
    assert_eq!(sys.pc, 0x204);
}

#[test]
fn skip_if_registers_are_equal() {
    let mut sys = machine();
    sys.registers.set(5, 0x42);
    sys.registers.set(6, 0x42);
    sys.registers.set(7, 0x43);
    assert_eq!(run(&mut sys, 0x5560), Ok(()));
    assert_eq!(sys.pc, 0x204);
    assert_eq!(run(&mut sys, 0x5570), Ok(()));
    assert_eq!(sys.pc, 0x204);
}

#[test]
fn skip_if_registers_differ() {
    let mut sys = machine();
    sys.registers.set(5, 0x42);
    sys.registers.set(6, 0x42);
    sys.registers.set(7, 0x43);
    assert_eq!(run(&mut sys, 0x9560), Ok(()));
    assert_eq!(sys.pc, 0x202);
    assert_eq!(run(&mut sys, 0x9570), Ok(()));
    assert_eq!(sys.pc, 0x204);
}

#[test]
fn load_and_add_a_byte() {
    let mut sys = machine();
    assert_eq!(run(&mut sys, 0x6A7F), Ok(()));
    assert_eq!(sys.registers.get(0xA), 0x7F);
    assert_eq!(run(&mut sys, 0x7A01), Ok(()));
    assert_eq!(sys.registers.get(0xA), 0x80);
    sys.registers.set_vF(3);
    assert_eq!(run(&mut sys, 0x7AFF), Ok(()));
    // the sum wraps, and the flag is not touched
    assert_eq!(sys.registers.get(0xA), 0x7F);
    assert_eq!(sys.registers.get(0xF), 3);
}

#[test]
fn set_the_index_register() {
    let mut sys = machine();
    assert_eq!(run(&mut sys, 0xA123), Ok(()));
    assert_eq!(sys.registers.i(), 0x123);
    assert_eq!(run(&mut sys, 0xAFFF), Ok(()));
    assert_eq!(sys.registers.i(), 0xFFF);
}

#[test]
fn the_random_byte_is_masked() {
    let mut sys = machine();
    assert_eq!(Instruction::from(0xC30F).execute_with(&mut sys, 0xAB), Ok(()));
    assert_eq!(sys.registers.get(3), 0x0B);
    assert_eq!(Instruction::from(0xC3F0).execute_with(&mut sys, 0xAB), Ok(()));
    assert_eq!(sys.registers.get(3), 0xA0);
    assert_eq!(Instruction::from(0xC3FF).execute_with(&mut sys, 0xAB), Ok(()));
    assert_eq!(sys.registers.get(3), 0xAB);
    assert_eq!(Instruction::from(0xC300).execute_with(&mut sys, 0xAB), Ok(()));
    assert_eq!(sys.registers.get(3), 0x00);
}

#[test]
fn a_random_byte_from_the_generator_is_masked_too() {
    let mut sys = machine();
    for _ in 0..200 {
        sys.registers.set(3, 0xFF);
        assert_eq!(Instruction::from(0xC30F).execute(&mut sys), Ok(()));
        assert!(sys.registers.get(3) <= 0x0F);
        sys.registers.set(4, 0xFF);
        assert_eq!(Instruction::from(0xC400).execute(&mut sys), Ok(()));
        assert_eq!(sys.registers.get(4), 0);
    }
    assert_eq!(sys.pc, 0x202);
}

#[test]
fn the_generator_gives_more_than_one_byte() {
    let mut sys = machine();
    let mut seen = [false; 256];
    for _ in 0..5_000 {
        assert_eq!(Instruction::from(0xC1FF).execute(&mut sys), Ok(()));
        seen[sys.registers.get(1) as usize] = true;
    }
    assert!(seen.iter().filter(|s| **s).count() > 128);
}

#[test]
fn execute_agrees_with_execute_with_where_no_random_byte_is_used() {
    for word in [0x00E0u16, 0x1234, 0x2345, 0x3100, 0x6A12, 0x7A12, 0x8124, 0xA123, 0xD125, 0xF11E] {
        let mut first = machine();
        let mut second = machine();
        for sys in [&mut first, &mut second] {
            sys.registers.set(1, 250);
            sys.registers.set(2, 10);
            sys.registers.set_i(0x50);
        }
        assert_eq!(
            Instruction::from(word).execute(&mut first),
            Instruction::from(word).execute_with(&mut second, 0x5A)
        );
        assert_eq!(registers(&first), registers(&second));
        assert_eq!(first.registers.i(), second.registers.i());
        assert_eq!(first.pc, second.pc);
        assert_eq!(display(&first), display(&second));
    }
}

#[test]
fn skip_if_key_is_pressed() {
    let mut sys = machine();
    let mut pressed = [false; 16];
    pressed[0xB] = true;
    sys.keyboard.update(&pressed);
    sys.registers.set(2, 0xB);
    assert_eq!(run(&mut sys, 0xE29E), Ok(()));
    assert_eq!(sys.pc, 0x204);
    sys.registers.set(2, 0xC);
    assert_eq!(run(&mut sys, 0xE29E), Ok(()));
    assert_eq!(sys.pc, 0x204);
    // there is no key 0x1B
    sys.registers.set(2, 0x1B);
    assert_eq!(run(&mut sys, 0xE29E), Ok(()));
    assert_eq!(sys.pc, 0x204);
}

#[test]
fn skip_if_key_is_not_pressed() {
    let mut sys = machine();
    let mut pressed = [false; 16];
    pressed[0xB] = true;
    sys.keyboard.update(&pressed);
    sys.registers.set(2, 0xB);
    assert_eq!(run(&mut sys, 0xE2A1), Ok(()));
    assert_eq!(sys.pc, 0x202);
    sys.registers.set(2, 0xC);
    assert_eq!(run(&mut sys, 0xE2A1), Ok(()));
    assert_eq!(sys.pc, 0x204);
    sys.registers.set(2, 0xFF);
    assert_eq!(run(&mut sys, 0xE2A1), Ok(()));
    assert_eq!(sys.pc, 0x206);
}

#[test]
fn waiting_for_a_key_repeats_the_instruction() {
    let mut sys = machine();
    sys.registers.set(6, 0x33);
    assert_eq!(run(&mut sys, 0xF60A), Ok(()));
    assert_eq!(sys.pc, 0x200);
    assert_eq!(sys.registers.get(6), 0x33);
    // the next cycle fetches the instruction again
    sys.pc = 0x202;
    let mut pressed = [false; 16];
    pressed[0x7] = true;
    sys.keyboard.update(&pressed);
    assert_eq!(run(&mut sys, 0xF60A), Ok(()));
    assert_eq!(sys.pc, 0x202);
    assert_eq!(sys.registers.get(6), 0x7);
}

#[test]
fn the_timers_are_set_from_and_read_into_registers() {
    let mut sys = machine();
    sys.registers.set(1, 42);
    sys.registers.set(2, 17);
    assert_eq!(run(&mut sys, 0xF115), Ok(()));
    assert_eq!(run(&mut sys, 0xF218), Ok(()));
    assert_eq!(sys.delay_timer.get(), 42);
    assert_eq!(sys.sound_timer.get(), 17);
    assert_eq!(run(&mut sys, 0xF907), Ok(()));
    assert_eq!(sys.registers.get(9), 42);
    assert_eq!(sys.sound_timer.get(), 17);
}

#[test]
fn registers_are_stored_up_to_and_including_x() {
    let mut sys = machine();
    for idx in 0..16u8 {
        sys.registers.set(idx, 0xA0 + idx);
    }
    sys.registers.set_i(0x400);
    assert_eq!(run(&mut sys, 0xF355), Ok(()));
    let stored: Vec<u8> = (0x3FF..0x405u16).map(|address| sys.memory.get(address)).collect();
    assert_eq!(stored, vec![0, 0xA0, 0xA1, 0xA2, 0xA3, 0]);
    assert_eq!(sys.registers.i(), 0x400);

    assert_eq!(run(&mut sys, 0xFF55), Ok(()));
    for idx in 0..16u16 {
        assert_eq!(sys.memory.get(0x400 + idx), 0xA0 + idx as u8);
    }
    assert_eq!(sys.memory.get(0x410), 0);

    sys.registers.set_i(0x500);
    assert_eq!(run(&mut sys, 0xF055), Ok(()));
    assert_eq!(sys.memory.get(0x500), 0xA0);
    assert_eq!(sys.memory.get(0x501), 0);
}

#[test]
fn storing_registers_beyond_the_memory_is_a_fault() {
    let mut sys = machine();
    sys.registers.set(0, 1);
    sys.registers.set(1, 2);
    sys.registers.set_i(0xFFF);
    assert_eq!(run(&mut sys, 0xF155), Err(Fault::WriteOutOfRange { address: 0x1000 }));
    assert_eq!(sys.memory.get(0xFFF), 0);
    // one register still fits
    assert_eq!(run(&mut sys, 0xF055), Ok(()));
    assert_eq!(sys.memory.get(0xFFF), 1);
    sys.registers.set_i(0xFF0);
    assert_eq!(run(&mut sys, 0xFF55), Ok(()));
    sys.registers.set_i(0xFF1);
    assert_eq!(run(&mut sys, 0xFF55), Err(Fault::WriteOutOfRange { address: 0x1000 }));
}

#[test]
fn registers_are_loaded_up_to_and_including_x() {
    let mut sys = machine();
    for offset in 0..16u16 {
        sys.memory.store(0x400 + offset, 0xB0 + offset as u8);
    }
    for idx in 0..16u8 {
        sys.registers.set(idx, 0x11);
    }
    sys.registers.set_i(0x400);
    assert_eq!(run(&mut sys, 0xF265), Ok(()));
    assert_eq!(
        registers(&sys),
        vec![0xB0, 0xB1, 0xB2, 0x11, 0x11, 0x11, 0x11, 0x11, 0x11, 0x11, 0x11, 0x11, 0x11, 0x11, 0x11, 0x11]
    );
    assert_eq!(run(&mut sys, 0xFF65), Ok(()));
    for idx in 0..16u8 {
        assert_eq!(sys.registers.get(idx), 0xB0 + idx);
    }
    assert_eq!(sys.registers.i(), 0x400);
}

#[test]
fn loading_registers_beyond_the_memory_reads_zero() {
    let mut sys = machine();
    sys.memory.store(0xFFE, 0x12);
    sys.memory.store(0xFFF, 0x34);
    for idx in 0..16u8 {
        sys.registers.set(idx, 0x11);
    }
    sys.registers.set_i(0xFFE);
    assert_eq!(run(&mut sys, 0xF365), Ok(()));
    assert_eq!(&registers(&sys)[..5], &[0x12, 0x34, 0, 0, 0x11]);
}

#[test]
fn words_that_are_no_instruction_are_a_fault() {
    let unknown = [
        0x5121u16, 0x512F, 0x9121, 0x912E, 0x8128, 0x8129, 0x812A, 0x812D, 0x812F, 0xE19F, 0xE1A0,
        0xE100, 0xE1FF, 0xF100, 0xF108, 0xF11F, 0xF130, 0xF156, 0xF166, 0xF1FF, 0xF10B,
    ];
    for word in unknown {
        let mut sys = machine();
        sys.registers.set(1, 3);
        sys.registers.set(2, 4);
        assert_eq!(run(&mut sys, word), Err(Fault::UnrecognizedInstruction));
        assert_eq!(registers(&sys)[..3], [0, 3, 4]);
        assert_eq!(sys.pc, 0x202);
        assert_eq!(sys.registers.i(), 0);
    }
}

#[test]
fn every_word_is_executed_or_refused() {
    let mut refused = 0u32;
    let mut word: u16 = 0;
    loop {
        let mut sys = machine();
        match run(&mut sys, word) {
            Ok(()) => {}
            Err(Fault::UnrecognizedInstruction) => refused += 1,
            Err(Fault::ReturnWithoutCall) => assert_eq!(word, 0x00EE),
            Err(fault) => panic!("{:X}: {:?}", word, fault),
        }
        if word == u16::MAX {
            break;
        }
        word += 1;
    }
    // 15 last digits of the families 5 and 9, 7 of the family 8, and all but 2 and 9
    // endings of the families E and F, for each of the 256 pairs of other digits
    assert_eq!(refused, 256 * (15 + 15 + 7) + 16 * (256 - 2) + 16 * (256 - 9));
}

#[test]
fn drawing_and_clearing_write_to_the_display_buffer_only() {
    let mut sys = machine();
    for address in 0x200..0xF00u16 {
        sys.memory.store(address, (address % 253) as u8 | 1);
    }
    let below: Vec<u8> = (0..0xF00u16).map(|address| sys.memory.get(address)).collect();
    sys.registers.set_i(0x200);
    for (x, y) in [(0u8, 0u8), (63, 31), (60, 29), (5, 5), (200, 100)] {
        sys.registers.set(1, x);
        sys.registers.set(2, y);
        assert_eq!(run(&mut sys, 0xD12F), Ok(()));
    }
    assert_eq!(run(&mut sys, 0x00E0), Ok(()));
    let after: Vec<u8> = (0..0xF00u16).map(|address| sys.memory.get(address)).collect();
    assert_eq!(after, below);
    // the font is among what stayed
    assert_eq!(sys.memory.get(0x50), 0xF0);
}

#[test]
fn a_program_can_store_into_the_font() {
    let mut sys = machine();
    sys.registers.set(0, 0x11);
    sys.registers.set(1, 0x22);
    sys.registers.set_i(0x50);
    assert_eq!(run(&mut sys, 0xF155), Ok(()));
    assert_eq!(sys.memory.get(0x50), 0x11);
    assert_eq!(sys.memory.get(0x51), 0x22);
    assert_eq!(sys.memory.get(0x52), 0x90);
}

#[test]
fn a_drawn_pixel_is_where_the_sprite_has_it() {
    // one sprite row with the pixels 0, 3 and 7, at all places of a display row
    for x in 0..64u8 {
        let mut sys = machine();
        sys.memory.store(0x300, 0b1001_0001);
        sys.registers.set_i(0x300);
        sys.registers.set(1, x);
        sys.registers.set(2, 4);
        assert_eq!(run(&mut sys, 0xD121), Ok(()));
        for px in 0..64u8 {
            let covered = px == x || px == x + 3 || px == x + 7;
            // flipping tells whether the pixel was set
            assert_eq!(sys.memory.flip_pixel(px, 4), covered);
            assert!(!sys.memory.flip_pixel(px, 3));
            assert!(!sys.memory.flip_pixel(px, 5));
        }
    }
}

#[test]
fn a_sprite_in_the_display_buffer_is_read_row_by_row_while_it_is_drawn() {
    let mut sys = machine();
    // the sprite lies in display row 1, and is drawn from display row 0 on at x = 0:
    // its second row is read from what its first row is drawn to
    sys.memory.store(0xF01, 0b1100_0000);
    sys.registers.set_i(0xF00);
    sys.registers.set(1, 8);
    sys.registers.set(2, 0);
    assert_eq!(run(&mut sys, 0xD122), Ok(()));
    // row 0 of the sprite is the byte at 0xF00, which is zero: nothing is drawn; row 1
    // is the byte at 0xF01, drawn at (8, 1), which is the byte at 0xF09
    assert_eq!(sys.memory.get(0xF01), 0b1100_0000);
    assert_eq!(sys.memory.get(0xF09), 0b1100_0000);
    assert_eq!(sys.registers.get(0xF), 0);

    let mut sys = machine();
    // the sprite starts at 0xF00 and is drawn at (0, 0): its first row XORs itself away
    sys.memory.store(0xF00, 0xFF);
    sys.memory.store(0xF01, 0x0F);
    sys.registers.set_i(0xF00);
    sys.registers.set(1, 0);
    sys.registers.set(2, 0);
    assert_eq!(run(&mut sys, 0xD122), Ok(()));
    assert_eq!(sys.memory.get(0xF00), 0x00);
    assert_eq!(sys.memory.get(0xF01), 0x0F);
    // the second row was read at 0xF01 and drawn at (0, 1)
    assert_eq!(sys.memory.get(0xF08), 0x0F);
    assert_eq!(sys.registers.get(0xF), 1);
}
