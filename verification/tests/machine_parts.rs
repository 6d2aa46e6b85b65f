use chip8::system::{
    Keyboad, Memory, Registers, Stack, Timer, FONT_SPRITES, KEYBOARD_KEYS, KEY_PRESSED_STATE,
};

#[test]
fn new_memory_holds_the_font_and_nothing_else() {
    let mem = Memory::new();
    for address in 0..0x50u16 {
        assert_eq!(mem.get(address), 0);
    }
    for offset in 0..80u16 {
        assert_eq!(mem.get(0x50 + offset), FONT_SPRITES[offset as usize]);
    }
    for address in 0xA0..0x1000u16 {
        assert_eq!(mem.get(address), 0);
    }
}

#[test]
fn font_glyphs_are_five_bytes_each() {
    let mem = Memory::new();
    // the digit 0
    assert_eq!(
        [mem.get(0x50), mem.get(0x51), mem.get(0x52), mem.get(0x53), mem.get(0x54)],
        [0xF0, 0x90, 0x90, 0x90, 0xF0]
    );
    // the digit 1
    assert_eq!(
        [mem.get(0x55), mem.get(0x56), mem.get(0x57), mem.get(0x58), mem.get(0x59)],
        [0x20, 0x60, 0x20, 0x20, 0x70]
    );
    // the digit F starts at 0x50 + 5 * 15
    assert_eq!(
        [mem.get(0x9B), mem.get(0x9C), mem.get(0x9D), mem.get(0x9E), mem.get(0x9F)],
        [0xF0, 0x80, 0xF0, 0x80, 0x80]
    );
}

#[test]
fn reading_beyond_the_memory_gives_zero() {
    let mut mem = Memory::new();
    mem.store(0xFFF, 0xAB);
    assert_eq!(mem.get(0xFFF), 0xAB);
    assert_eq!(mem.get(0x1000), 0);
    assert_eq!(mem.get(0x1001), 0);
    assert_eq!(mem.get(0xFFFF), 0);
}

#[test]
fn a_stored_byte_is_read_back() {
    let mut mem = Memory::new();
    mem.store(0x300, 42);
    assert_eq!(mem.get(0x300), 42);
    assert_eq!(mem.get(0x2FF), 0);
    assert_eq!(mem.get(0x301), 0);
    mem.store(0x300, 7);
    assert_eq!(mem.get(0x300), 7);
    mem.store(0, 1);
    assert_eq!(mem.get(0), 1);
    // the font can be overwritten like any other byte
    mem.store(0x50, 0x11);
    assert_eq!(mem.get(0x50), 0x11);
}

#[test]
fn flipping_a_pixel_sets_it_and_flipping_again_resets_it() {
    let mut mem = Memory::new();
    assert!(!mem.flip_pixel(42, 24));
    // pixel 42 + 24 * 64 = 1578 lies in byte 197 of the display, bit 7 - 2
    assert_eq!(mem.get(0xF00 + 197), 0b0010_0000);
    assert!(mem.flip_pixel(42, 24));
    assert_eq!(mem.get(0xF00 + 197), 0);
}

#[test]
fn pixels_are_stored_row_by_row_with_the_leftmost_in_the_highest_bit() {
    let mut mem = Memory::new();
    assert!(!mem.flip_pixel(0, 0));
    assert_eq!(mem.get(0xF00), 0x80);
    assert!(!mem.flip_pixel(7, 0));
    assert_eq!(mem.get(0xF00), 0x81);
    assert!(!mem.flip_pixel(8, 0));
    assert_eq!(mem.get(0xF01), 0x80);
    assert!(!mem.flip_pixel(0, 1));
    assert_eq!(mem.get(0xF08), 0x80);
    assert!(!mem.flip_pixel(63, 31));
    assert_eq!(mem.get(0xFFF), 0x01);
    // a column beyond the row runs on into the next row
    assert!(mem.flip_pixel(64, 0));
    assert_eq!(mem.get(0xF08), 0x00);
}

#[test]
fn clearing_the_display_zeroes_its_buffer_only() {
    let mut mem = Memory::new();
    mem.store(0xEFF, 0x55);
    for address in 0xF00..0x1000u16 {
        mem.store(address, 0xFF);
    }
    mem.clear_display();
    for address in 0xF00..0x1000u16 {
        assert_eq!(mem.get(address), 0);
    }
    assert_eq!(mem.get(0xEFF), 0x55);
    assert_eq!(mem.get(0x50), 0xF0);
    // no pixel is set any more: flipping any of them reports it as not set
    for y in 0..32u8 {
        for x in 0..64u8 {
            assert!(!mem.flip_pixel(x, y));
        }
    }
}

#[test]
fn new_registers_are_zero() {
    let reg = Registers::new();
    for idx in 0..16u8 {
        assert_eq!(reg.get(idx), 0);
    }
    assert_eq!(reg.i(), 0);
}

#[test]
fn a_register_keeps_what_was_set() {
    let mut reg = Registers::new();
    reg.set(1, 42);
    assert_eq!(reg.get(1), 42);
    assert_eq!(reg.get(0), 0);
    assert_eq!(reg.get(2), 0);
    reg.set(15, 9);
    assert_eq!(reg.get(15), 9);
    reg.set(1, 43);
    assert_eq!(reg.get(1), 43);
    assert_eq!(reg.i(), 0);
}

#[test]
fn reading_a_register_that_does_not_exist_gives_zero() {
    let mut reg = Registers::new();
    for idx in 0..16u8 {
        reg.set(idx, 0xEE);
    }
    assert_eq!(reg.get(16), 0);
    assert_eq!(reg.get(17), 0);
    assert_eq!(reg.get(255), 0);
}

#[test]
fn the_index_register_keeps_what_was_set() {
    let mut reg = Registers::new();
    reg.set_i(42);
    assert_eq!(reg.i(), 42);
    reg.set_i(0xFFF);
    assert_eq!(reg.i(), 0xFFF);
    reg.set_i(0);
    assert_eq!(reg.i(), 0);
    for idx in 0..16u8 {
        assert_eq!(reg.get(idx), 0);
    }
}

#[test]
#[allow(non_snake_case)]
fn set_vF_writes_register_fifteen() {
    let mut reg = Registers::new();
    reg.set_vF(1);
    assert_eq!(reg.get(15), 1);
    for idx in 0..15u8 {
        assert_eq!(reg.get(idx), 0);
    }
    reg.set_vF(0xAB);
    assert_eq!(reg.get(0xF), 0xAB);
}

#[test]
fn the_stack_gives_back_the_last_value_first() {
    let mut stack = Stack::new();
    stack.push(42);
    stack.push(0x202);
    stack.push(0xFFFF);
    assert_eq!(stack.pop(), Some(0xFFFF));
    assert_eq!(stack.pop(), Some(0x202));
    stack.push(7);
    assert_eq!(stack.pop(), Some(7));
    assert_eq!(stack.pop(), Some(42));
    assert_eq!(stack.pop(), None);
}

#[test]
fn popping_an_empty_stack_gives_none() {
    let mut stack = Stack::new();
    assert_eq!(stack.pop(), None);
    assert_eq!(stack.pop(), None);
    stack.push(1);
    assert_eq!(stack.pop(), Some(1));
    assert_eq!(stack.pop(), None);
}

#[test]
fn the_stack_grows_beyond_any_small_bound() {
    let mut stack = Stack::new();
    for value in 0..10_000u16 {
        stack.push(value);
    }
    for value in (0..10_000u16).rev() {
        assert_eq!(stack.pop(), Some(value));
    }
    assert_eq!(stack.pop(), None);
}

#[test]
fn a_new_timer_is_at_zero_and_stays_there() {
    let mut timer = Timer::new();
    assert_eq!(timer.get(), 0);
    timer.tick();
    assert_eq!(timer.get(), 0);
    timer.update(1_000);
    assert_eq!(timer.get(), 0);
    timer.update(2_000);
    assert_eq!(timer.get(), 0);
}

#[test]
fn tick_counts_down_to_zero() {
    let mut timer = Timer::new();
    timer.set(3);
    timer.tick();
    assert_eq!(timer.get(), 2);
    timer.tick();
    timer.tick();
    assert_eq!(timer.get(), 0);
    timer.tick();
    assert_eq!(timer.get(), 0);
}

#[test]
fn a_timer_set_to_n_is_at_zero_after_n_periods_and_no_further() {
    for n in [0u8, 1, 2, 42, 255] {
        let mut timer = Timer::new();
        timer.set(n);
        let mut now: u128 = 0;
        for k in 1..=n {
            now += 16;
            timer.update(now);
            assert_eq!(timer.get(), n - k);
        }
        assert_eq!(timer.get(), 0);
        for _ in 0..5 {
            now += 16;
            timer.update(now);
            assert_eq!(timer.get(), 0);
        }
    }
}

#[test]
fn a_timer_decays_with_longer_steps_too() {
    let mut timer = Timer::new();
    timer.set(3);
    timer.update(100);
    assert_eq!(timer.get(), 2);
    timer.update(1_000);
    assert_eq!(timer.get(), 1);
    timer.update(1_016);
    assert_eq!(timer.get(), 0);
    timer.update(5_000);
    assert_eq!(timer.get(), 0);
}

#[test]
fn a_timer_does_not_decay_before_sixteen_milliseconds_have_passed() {
    let mut timer = Timer::new();
    timer.set(10);
    timer.update(1_000);
    assert_eq!(timer.get(), 9);
    timer.update(1_001);
    assert_eq!(timer.get(), 9);
    timer.update(1_015);
    assert_eq!(timer.get(), 9);
    timer.update(1_016);
    assert_eq!(timer.get(), 8);
    // the period counts from the last decrement
    timer.update(1_031);
    assert_eq!(timer.get(), 8);
    timer.update(1_032);
    assert_eq!(timer.get(), 7);
}

#[test]
fn a_timer_ignores_a_clock_that_runs_backwards() {
    let mut timer = Timer::new();
    timer.set(5);
    timer.update(1_000);
    assert_eq!(timer.get(), 4);
    timer.update(500);
    assert_eq!(timer.get(), 4);
    timer.update(0);
    assert_eq!(timer.get(), 4);
    timer.update(1_016);
    assert_eq!(timer.get(), 3);
}

#[test]
fn neither_set_nor_an_update_at_zero_restarts_the_period() {
    let mut timer = Timer::new();
    timer.set(1);
    timer.update(1_000);
    assert_eq!(timer.get(), 0);
    // the timer is at zero: this update does not move the time of the last decrement
    timer.update(2_000);
    assert_eq!(timer.get(), 0);
    // armed again at time 2000, the timer decays at the very next update, because the
    // last decrement was at time 1000
    timer.set(5);
    timer.update(2_001);
    assert_eq!(timer.get(), 4);
    // from then on a full period has to pass again
    timer.update(2_016);
    assert_eq!(timer.get(), 4);
    timer.update(2_017);
    assert_eq!(timer.get(), 3);
}

#[test]
fn set_replaces_the_value_of_a_timer() {
    let mut timer = Timer::new();
    timer.set(42);
    assert_eq!(timer.get(), 42);
    timer.set(255);
    assert_eq!(timer.get(), 255);
    timer.set(0);
    assert_eq!(timer.get(), 0);
}

#[test]
fn a_new_keyboard_has_no_key_pressed() {
    let kb = Keyboad::new();
    for key in 0..16u8 {
        assert!(!kb.get(key));
    }
    assert_eq!(kb.latest(), 16);
}

#[test]
fn a_snapshot_replaces_the_keys_as_a_whole() {
    let mut kb = Keyboad::new();
    let mut pressed = [false; 16];
    pressed[0xA] = true;
    pressed[0x3] = true;
    kb.update(&pressed);
    for key in 0..16u8 {
        assert_eq!(kb.get(key), key == 0xA || key == 0x3);
    }
    assert_eq!(kb.latest(), 0xA);

    let mut pressed = [false; 16];
    pressed[0x1] = true;
    kb.update(&pressed);
    for key in 0..16u8 {
        assert_eq!(kb.get(key), key == 0x1);
    }
    assert_eq!(kb.latest(), 0x1);

    kb.update(&[false; 16]);
    for key in 0..16u8 {
        assert!(!kb.get(key));
    }
    assert_eq!(kb.latest(), 16);
}

#[test]
fn the_latest_key_is_the_highest_one_pressed() {
    let mut kb = Keyboad::new();
    kb.update(&[true; 16]);
    assert_eq!(kb.latest(), 0xF);
    let mut pressed = [false; 16];
    pressed[0] = true;
    kb.update(&pressed);
    assert_eq!(kb.latest(), 0);
    pressed[7] = true;
    kb.update(&pressed);
    assert_eq!(kb.latest(), 7);
}

#[test]
fn a_key_that_does_not_exist_is_never_pressed() {
    let mut kb = Keyboad::new();
    kb.update(&[true; 16]);
    assert!(kb.get(15));
    assert!(!kb.get(16));
    assert!(!kb.get(200));
    assert!(!kb.get(255));
}

#[test]
fn the_keys_are_laid_out_on_the_left_of_a_qwerty_keyboard() {
    let layout: Vec<char> = KEYBOARD_KEYS.iter().map(|code| *code as char).collect();
    assert_eq!(
        layout,
        vec!['X', '1', '2', '3', 'Q', 'W', 'E', 'A', 'S', 'D', 'Z', 'C', '4', 'R', 'F', 'V']
    );
    assert_eq!(KEY_PRESSED_STATE, -32767);
}
