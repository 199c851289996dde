use chip8_core::{is_implemented, Emu, Fault, FONTSET, FONTSET_SIZE, SCREEN_HEIGHT, SCREEN_WIDTH};

fn machine_with(program: &[u8]) -> Emu {
    let mut emu = Emu::new();
    emu.load(program);
    emu
}

fn run(emu: &mut Emu, cycles: usize) {
    for _ in 0..cycles {
        assert_eq!(emu.try_tick(), Ok(()));
    }
}

fn lit_cells(emu: &Emu) -> Vec<usize> {
    let display = emu.get_display();
    (0..display.len()).filter(|&k| display[k]).collect()
}

fn assert_initial(emu: &Emu) {
    assert_eq!(emu.pc(), 512);
    assert_eq!(emu.get_display().len(), 2048);
    assert!(emu.get_display().iter().all(|&cell| !cell));
    for x in 0..16 {
        assert_eq!(emu.register(x), 0);
        assert!(!emu.key(x));
    }
    assert_eq!(emu.index(), 0);
    assert_eq!(emu.stack_depth(), 0);
    assert_eq!(emu.stack(), &[0u16; 16]);
    assert_eq!(emu.delay_timer(), 0);
    assert_eq!(emu.sound_timer(), 0);
    assert_eq!(emu.memory().len(), 4096);
    assert_eq!(&emu.memory()[..80], &FONTSET[..]);
    assert!(emu.memory()[80..].iter().all(|&b| b == 0));
}

#[test]
fn fresh_machine_is_in_the_initial_state() {
    let emu = Emu::new();
    assert_initial(&emu);
    assert_eq!(emu.next_fault(), None);
}

#[test]
fn constants_describe_the_architecture() {
    assert_eq!(SCREEN_WIDTH, 64);
    assert_eq!(SCREEN_HEIGHT, 32);
    assert_eq!(FONTSET_SIZE, 80);
    assert_eq!(FONTSET[0], 0xF0);
    assert_eq!(&FONTSET[5..10], &[0x20, 0x60, 0x20, 0x20, 0x70]);
    assert_eq!(&FONTSET[75..80], &[0xF0, 0x80, 0xF0, 0x80, 0x80]);
}

#[test]
fn reset_after_running_gives_the_initial_state() {
    let mut emu = machine_with(&[
        0x60, 0x05, 0x61, 0x03, 0xA2, 0x0E, 0xD0, 0x11, 0xF0, 0x15, 0xF0, 0x18, 0x22, 0x00, 0x80,
    ]);
    emu.key_press(3, true);
    run(&mut emu, 7);
    emu.tick_timers();
    assert_eq!(emu.stack_depth(), 1);
    assert_eq!(lit_cells(&emu), vec![5 + 64 * 3]);
    emu.reset();
    assert_initial(&emu);
}

#[test]
fn reset_twice_is_reset_once() {
    let mut emu = machine_with(&[0x6A, 0x42]);
    run(&mut emu, 1);
    emu.reset();
    emu.reset();
    assert_initial(&emu);
}

#[test]
fn load_copies_bytes_to_the_start_address() {
    let emu = machine_with(&[1, 2, 3]);
    assert_eq!(&emu.memory()[510..516], &[0, 0, 1, 2, 3, 0]);
    assert_eq!(&emu.memory()[..80], &FONTSET[..]);
    assert_eq!(emu.pc(), 512);
}

#[test]
fn load_takes_a_program_that_fills_memory() {
    let program = vec![0xAB; 4096 - 512];
    let emu = machine_with(&program);
    assert_eq!(emu.memory()[511], 0);
    assert_eq!(emu.memory()[512], 0xAB);
    assert_eq!(emu.memory()[4095], 0xAB);
}

#[test]
fn load_of_nothing_changes_nothing() {
    let emu = machine_with(&[]);
    assert_initial(&emu);
}

#[test]
fn nop_only_advances_the_program_counter() {
    let mut emu = Emu::new();
    emu.tick();
    assert_eq!(emu.pc(), 514);
    emu.reset();
    emu.tick_with(0x5A);
    assert_eq!(emu.pc(), 514);
    assert!(emu.get_display().iter().all(|&cell| !cell));
    for x in 0..16 {
        assert_eq!(emu.register(x), 0);
    }
    assert_eq!(emu.index(), 0);
    assert_eq!(emu.stack_depth(), 0);
    assert_eq!(emu.stack(), &[0u16; 16]);
    assert_eq!(emu.delay_timer(), 0);
    assert_eq!(emu.sound_timer(), 0);
    assert_eq!(&emu.memory()[..80], &FONTSET[..]);
    assert!(emu.memory()[80..].iter().all(|&b| b == 0));
}

#[test]
fn jump_sets_the_program_counter() {
    let mut emu = machine_with(&[0x1A, 0xBC]);
    emu.tick();
    assert_eq!(emu.pc(), 0xABC);
}

#[test]
fn add_with_overflow_wraps_and_sets_the_flag() {
    let mut emu = machine_with(&[0x60, 0xFF, 0x61, 0x01, 0x80, 0x14]);
    run(&mut emu, 3);
    assert_eq!(emu.register(0), 0);
    assert_eq!(emu.register(0xF), 1);
}

#[test]
fn add_without_overflow_clears_the_flag() {
    let mut emu = machine_with(&[0x6F, 0x07, 0x60, 0x10, 0x61, 0x22, 0x80, 0x14]);
    run(&mut emu, 4);
    assert_eq!(emu.register(0), 0x32);
    assert_eq!(emu.register(1), 0x22);
    assert_eq!(emu.register(0xF), 0);
}

#[test]
fn add_into_the_flag_register_keeps_the_sum() {
    let mut emu = machine_with(&[0x6F, 0xFF, 0x61, 0x01, 0x8F, 0x14]);
    run(&mut emu, 3);
    assert_eq!(emu.register(0xF), 0);
}

#[test]
fn subtract_with_borrow_wraps_and_clears_the_flag() {
    let mut emu = machine_with(&[0x60, 0x01, 0x61, 0x02, 0x80, 0x15]);
    run(&mut emu, 3);
    assert_eq!(emu.register(0), 255);
    assert_eq!(emu.register(0xF), 0);
}

#[test]
fn subtract_without_borrow_sets_the_flag() {
    let mut emu = machine_with(&[0x60, 0x02, 0x61, 0x02, 0x80, 0x15, 0x62, 0x09, 0x82, 0x15]);
    run(&mut emu, 3);
    assert_eq!(emu.register(0), 0);
    assert_eq!(emu.register(0xF), 1);
    run(&mut emu, 2);
    assert_eq!(emu.register(2), 7);
    assert_eq!(emu.register(0xF), 1);
}

#[test]
fn reverse_subtract_uses_the_same_flag_polarity() {
    let mut emu = machine_with(&[0x60, 0x01, 0x61, 0x02, 0x80, 0x17, 0x60, 0x03, 0x80, 0x17]);
    run(&mut emu, 3);
    assert_eq!(emu.register(0), 1);
    assert_eq!(emu.register(0xF), 1);
    run(&mut emu, 2);
    assert_eq!(emu.register(0), 255);
    assert_eq!(emu.register(0xF), 0);
}

#[test]
fn copy_or_and_xor() {
    let mut emu = machine_with(&[
        0x60, 0xCC, 0x61, 0xAA, 0x82, 0x00, 0x82, 0x11, 0x83, 0x00, 0x83, 0x12, 0x84, 0x00, 0x84,
        0x13,
    ]);
    run(&mut emu, 8);
    assert_eq!(emu.register(0), 0xCC);
    assert_eq!(emu.register(1), 0xAA);
    assert_eq!(emu.register(2), 0xEE);
    assert_eq!(emu.register(3), 0x88);
    assert_eq!(emu.register(4), 0x66);
    assert_eq!(emu.register(0xF), 0);
}

#[test]
fn shift_right_puts_the_low_bit_in_the_flag() {
    let mut emu = machine_with(&[0x60, 0x05, 0x80, 0x16, 0x80, 0x16]);
    run(&mut emu, 2);
    assert_eq!(emu.register(0), 2);
    assert_eq!(emu.register(0xF), 1);
    run(&mut emu, 1);
    assert_eq!(emu.register(0), 1);
    assert_eq!(emu.register(0xF), 0);
}

#[test]
fn shift_of_the_flag_register_keeps_the_flag() {
    let mut emu = machine_with(&[0x6F, 0x03, 0x8F, 0x06, 0x6F, 0x42, 0x8F, 0x0E]);
    run(&mut emu, 2);
    assert_eq!(emu.register(0xF), 1);
    run(&mut emu, 2);
    assert_eq!(emu.register(0xF), 0);
}

#[test]
fn shift_left_puts_the_high_bit_in_the_flag() {
    let mut emu = machine_with(&[0x60, 0x81, 0x80, 0x0E, 0x80, 0x0E]);
    run(&mut emu, 2);
    assert_eq!(emu.register(0), 0x02);
    assert_eq!(emu.register(0xF), 1);
    run(&mut emu, 1);
    assert_eq!(emu.register(0), 0x04);
    assert_eq!(emu.register(0xF), 0);
}

#[test]
fn set_and_add_immediate() {
    let mut emu = machine_with(&[0x63, 0xF0, 0x73, 0x20, 0x73, 0x01]);
    run(&mut emu, 2);
    assert_eq!(emu.register(3), 0x10);
    assert_eq!(emu.register(0xF), 0);
    run(&mut emu, 1);
    assert_eq!(emu.register(3), 0x11);
}

#[test]
fn skip_if_equal_to_immediate() {
    let mut emu = machine_with(&[0x60, 0x07, 0x30, 0x07, 0x00, 0x00, 0x30, 0x08]);
    run(&mut emu, 2);
    assert_eq!(emu.pc(), 0x206);
    run(&mut emu, 1);
    assert_eq!(emu.pc(), 0x208);
}

#[test]
fn skip_if_not_equal_to_immediate() {
    let mut emu = machine_with(&[0x60, 0x07, 0x40, 0x08, 0x00, 0x00, 0x40, 0x07]);
    run(&mut emu, 2);
    assert_eq!(emu.pc(), 0x206);
    run(&mut emu, 1);
    assert_eq!(emu.pc(), 0x208);
}

#[test]
fn skip_if_registers_equal() {
    let mut emu = machine_with(&[0x60, 0x07, 0x61, 0x07, 0x50, 0x10, 0x00, 0x00, 0x50, 0x20]);
    run(&mut emu, 3);
    assert_eq!(emu.pc(), 0x208);
    run(&mut emu, 1);
    assert_eq!(emu.pc(), 0x20A);
}

#[test]
fn skip_if_registers_differ() {
    let mut emu = machine_with(&[0x60, 0x07, 0x61, 0x07, 0x90, 0x20, 0x00, 0x00, 0x90, 0x10]);
    run(&mut emu, 3);
    assert_eq!(emu.pc(), 0x208);
    run(&mut emu, 1);
    assert_eq!(emu.pc(), 0x20A);
}

#[test]
fn call_and_return() {
    let mut emu = machine_with(&[0x22, 0x06, 0x61, 0x05, 0x00, 0x00, 0x60, 0x07, 0x00, 0xEE]);
    run(&mut emu, 1);
    assert_eq!(emu.pc(), 0x206);
    assert_eq!(emu.stack_depth(), 1);
    assert_eq!(emu.stack()[0], 0x202);
    run(&mut emu, 2);
    assert_eq!(emu.register(0), 7);
    assert_eq!(emu.pc(), 0x202);
    assert_eq!(emu.stack_depth(), 0);
    run(&mut emu, 1);
    assert_eq!(emu.register(1), 5);
}

#[test]
fn push_and_pop_are_last_in_first_out() {
    let mut emu = Emu::new();
    emu.push(0x111);
    emu.push(0x222);
    assert_eq!(emu.stack_depth(), 2);
    assert_eq!(emu.pop(), 0x222);
    assert_eq!(emu.pop(), 0x111);
    assert_eq!(emu.stack_depth(), 0);
    assert_eq!(emu.pc(), 512);
}

#[test]
fn stack_holds_sixteen_return_addresses() {
    let mut emu = machine_with(&[0x22, 0x00]);
    run(&mut emu, 16);
    assert_eq!(emu.stack_depth(), 16);
    assert_eq!(emu.stack(), &[0x202u16; 16]);
    assert_eq!(emu.try_tick(), Err(Fault::OutOfBounds));
    assert_eq!(emu.stack_depth(), 16);
    assert_eq!(emu.pc(), 0x200);
}

#[test]
fn return_with_an_empty_stack_is_out_of_bounds() {
    let mut emu = machine_with(&[0x00, 0xEE]);
    assert_eq!(emu.next_fault(), Some(Fault::OutOfBounds));
    assert_eq!(emu.try_tick(), Err(Fault::OutOfBounds));
    assert_eq!(emu.pc(), 0x200);
    assert_eq!(emu.stack_depth(), 0);
}

#[test]
fn fetch_past_the_end_of_memory_is_out_of_bounds() {
    let mut emu = machine_with(&[0x1F, 0xFF]);
    run(&mut emu, 1);
    assert_eq!(emu.pc(), 0xFFF);
    assert_eq!(emu.try_tick(), Err(Fault::OutOfBounds));
    assert_eq!(emu.pc(), 0xFFF);
}

#[test]
fn last_word_of_memory_can_be_fetched() {
    let mut emu = machine_with(&[0x1F, 0xFE]);
    run(&mut emu, 2);
    assert_eq!(emu.pc(), 0x1000);
    assert_eq!(emu.try_tick(), Err(Fault::OutOfBounds));
}

#[test]
fn unknown_instructions_are_bad_opcodes() {
    for word in [0xFFFFu16, 0x5001, 0x9001, 0x8008, 0x800F, 0xE000, 0xE09F, 0xF000, 0x0001, 0x00E1] {
        let mut emu = machine_with(&[(word >> 8) as u8, (word & 0xFF) as u8]);
        assert!(!is_implemented(word));
        assert!(!emu.can_execute(word));
        assert_eq!(emu.next_fault(), Some(Fault::BadOpcode));
        assert_eq!(emu.try_tick(), Err(Fault::BadOpcode));
        assert_eq!(emu.pc(), 0x200);
    }
}

#[test]
fn known_instructions_are_implemented() {
    for word in [
        0x0000u16, 0x00E0, 0x00EE, 0x1234, 0x2234, 0x3123, 0x4123, 0x5120, 0x6123, 0x7123, 0x8120,
        0x8121, 0x8122, 0x8123, 0x8124, 0x8125, 0x8126, 0x8127, 0x812E, 0x9120, 0xA123, 0xB123,
        0xC123, 0xD123, 0xE19E, 0xE1A1, 0xF107, 0xF10A, 0xF115, 0xF118, 0xF11E, 0xF129, 0xF133,
        0xF155, 0xF165,
    ] {
        assert!(is_implemented(word));
    }
}

#[test]
fn set_index_and_jump_with_offset() {
    let mut emu = machine_with(&[0xA1, 0x23, 0x60, 0x04, 0xB3, 0x00]);
    run(&mut emu, 3);
    assert_eq!(emu.index(), 0x123);
    assert_eq!(emu.pc(), 0x304);
}

#[test]
fn random_byte_is_masked() {
    let mut emu = machine_with(&[0xC0, 0xFF, 0xC1, 0x0F, 0xC2, 0x00]);
    emu.tick_with(0xA7);
    emu.tick_with(0xA7);
    emu.tick_with(0xA7);
    assert_eq!(emu.register(0), 0xA7);
    assert_eq!(emu.register(1), 0x07);
    assert_eq!(emu.register(2), 0x00);
    assert_eq!(emu.pc(), 0x206);
}

#[test]
fn random_instruction_stays_under_its_mask() {
    let mut emu = machine_with(&[0x60, 0xFF, 0xC0, 0x0F, 0x12, 0x00]);
    for _ in 0..50 {
        run(&mut emu, 3);
        assert_eq!(emu.register(0) & 0xF0, 0);
    }
    emu.execute(0xC300);
    assert_eq!(emu.register(3), 0);
}

#[test]
fn execute_runs_a_given_instruction() {
    let mut emu = Emu::new();
    assert!(emu.can_execute(0x6A12));
    emu.execute(0x6A12);
    assert_eq!(emu.register(0xA), 0x12);
    emu.execute_with(0x7A01, 0);
    assert_eq!(emu.register(0xA), 0x13);
    assert_eq!(emu.pc(), 0x200);
    assert!(!emu.can_execute(0x00EE));
    assert!(emu.can_execute(0x2300));
}

#[test]
fn drawing_a_pixel_twice_clears_it_and_reports_the_collision() {
    let mut emu = machine_with(&[
        0x60, 0x05, 0x61, 0x03, 0xA2, 0x0A, 0xD0, 0x11, 0xD0, 0x11, 0x80,
    ]);
    run(&mut emu, 4);
    assert_eq!(lit_cells(&emu), vec![5 + 64 * 3]);
    assert_eq!(emu.register(0xF), 0);
    run(&mut emu, 1);
    assert_eq!(lit_cells(&emu), Vec::<usize>::new());
    assert_eq!(emu.register(0xF), 1);
}

#[test]
fn sprite_wraps_round_the_right_and_bottom_edges() {
    let mut emu = machine_with(&[0x60, 0x3F, 0x61, 0x1F, 0xA2, 0x08, 0xD0, 0x11, 0xFF]);
    run(&mut emu, 4);
    assert_eq!(emu.get_display().len(), 2048);
    assert_eq!(lit_cells(&emu), vec![1984, 1985, 1986, 1987, 1988, 1989, 1990, 2047]);
    assert_eq!(emu.register(0xF), 0);
}

#[test]
fn sprite_rows_wrap_from_the_bottom_to_the_top() {
    let mut emu = machine_with(&[0x60, 0x02, 0x61, 0x1F, 0xA2, 0x08, 0xD0, 0x12, 0xC0, 0x81]);
    run(&mut emu, 4);
    assert_eq!(lit_cells(&emu), vec![2, 9, 2 + 64 * 31, 3 + 64 * 31]);
}

#[test]
fn sprite_coordinates_are_taken_modulo_the_display() {
    let mut emu = machine_with(&[0x60, 0xFF, 0x61, 0xFE, 0xA2, 0x08, 0xD0, 0x11, 0xC0]);
    run(&mut emu, 4);
    assert_eq!(lit_cells(&emu), vec![64 * 30, 63 + 64 * 30]);
}

#[test]
fn draw_reads_the_font() {
    let mut emu = machine_with(&[0x60, 0x01, 0xF0, 0x29, 0x61, 0x00, 0xD1, 0x15]);
    run(&mut emu, 4);
    assert_eq!(emu.index(), 5);
    assert_eq!(lit_cells(&emu), vec![2, 65, 66, 130, 194, 257, 258, 259]);
    assert_eq!(emu.register(0xF), 0);
}

#[test]
fn partial_overlap_flips_cells_and_reports_the_collision() {
    let mut emu = machine_with(&[
        0xA2, 0x0A, 0xD0, 0x01, 0xA2, 0x0B, 0xD0, 0x01, 0x00, 0x00, 0xF0, 0x3C,
    ]);
    run(&mut emu, 2);
    assert_eq!(lit_cells(&emu), vec![0, 1, 2, 3]);
    assert_eq!(emu.register(0xF), 0);
    run(&mut emu, 2);
    assert_eq!(lit_cells(&emu), vec![0, 1, 4, 5]);
    assert_eq!(emu.register(0xF), 1);
}

#[test]
fn draw_of_no_rows_clears_the_flag_only() {
    let mut emu = machine_with(&[0x6F, 0x09, 0xAF, 0xFF, 0xD0, 0x00]);
    run(&mut emu, 3);
    assert_eq!(lit_cells(&emu), Vec::<usize>::new());
    assert_eq!(emu.register(0xF), 0);
}

#[test]
fn draw_past_the_end_of_memory_is_out_of_bounds() {
    let mut emu = machine_with(&[0xAF, 0xFF, 0xD0, 0x02]);
    run(&mut emu, 1);
    assert_eq!(emu.try_tick(), Err(Fault::OutOfBounds));
    assert_eq!(emu.pc(), 0x202);
    let mut emu = machine_with(&[0xAF, 0xFF, 0xD0, 0x01]);
    run(&mut emu, 2);
    assert_eq!(emu.pc(), 0x204);
}

#[test]
fn clear_screen_turns_every_cell_off() {
    let mut emu = machine_with(&[0xA2, 0x06, 0xD0, 0x01, 0x00, 0xE0, 0xFF]);
    run(&mut emu, 2);
    assert_eq!(lit_cells(&emu).len(), 8);
    run(&mut emu, 1);
    assert_eq!(lit_cells(&emu), Vec::<usize>::new());
    assert_eq!(emu.pc(), 0x206);
}

#[test]
fn skip_if_key_pressed() {
    let mut emu = machine_with(&[0x60, 0x0B, 0xE0, 0x9E, 0xE0, 0x9E]);
    run(&mut emu, 2);
    assert_eq!(emu.pc(), 0x204);
    emu.key_press(0xB, true);
    assert!(emu.key(0xB));
    run(&mut emu, 1);
    assert_eq!(emu.pc(), 0x208);
}

#[test]
fn skip_if_key_not_pressed() {
    let mut emu = machine_with(&[0x60, 0x0B, 0xE0, 0xA1, 0x00, 0x00, 0xE0, 0xA1]);
    run(&mut emu, 2);
    assert_eq!(emu.pc(), 0x206);
    emu.key_press(0xB, true);
    run(&mut emu, 1);
    assert_eq!(emu.pc(), 0x208);
    emu.key_press(0xB, false);
    assert!(!emu.key(0xB));
}

#[test]
fn key_number_above_the_keypad_is_out_of_bounds() {
    let mut emu = machine_with(&[0x60, 0x10, 0xE0, 0x9E]);
    run(&mut emu, 1);
    assert_eq!(emu.try_tick(), Err(Fault::OutOfBounds));
    let mut emu = machine_with(&[0x60, 0x10, 0xE0, 0xA1]);
    run(&mut emu, 1);
    assert_eq!(emu.try_tick(), Err(Fault::OutOfBounds));
    assert_eq!(emu.pc(), 0x202);
}

#[test]
fn key_wait_blocks_until_a_key_is_pressed() {
    let mut emu = machine_with(&[0xF3, 0x0A, 0x00, 0x00]);
    for _ in 0..5 {
        run(&mut emu, 1);
        assert_eq!(emu.pc(), 0x200);
        assert_eq!(emu.register(3), 0);
    }
    emu.key_press(9, true);
    emu.key_press(0xC, true);
    run(&mut emu, 1);
    assert_eq!(emu.pc(), 0x202);
    assert_eq!(emu.register(3), 9);
}

#[test]
fn key_wait_sees_key_zero() {
    let mut emu = machine_with(&[0x65, 0x77, 0xF5, 0x0A]);
    emu.key_press(0, true);
    emu.key_press(15, true);
    run(&mut emu, 2);
    assert_eq!(emu.register(5), 0);
    assert_eq!(emu.pc(), 0x204);
}

#[test]
fn timers_are_set_read_and_stepped() {
    let mut emu = machine_with(&[0x60, 0x02, 0xF0, 0x15, 0x61, 0x01, 0xF1, 0x18, 0xF2, 0x07]);
    run(&mut emu, 4);
    assert_eq!(emu.delay_timer(), 2);
    assert_eq!(emu.sound_timer(), 1);
    emu.tick_timers();
    assert_eq!(emu.delay_timer(), 1);
    assert_eq!(emu.sound_timer(), 0);
    run(&mut emu, 1);
    assert_eq!(emu.register(2), 1);
    emu.tick_timers();
    assert_eq!(emu.delay_timer(), 0);
    assert_eq!(emu.sound_timer(), 0);
}

#[test]
fn timers_stop_at_zero() {
    let mut emu = machine_with(&[0x60, 0x03, 0xF0, 0x15, 0xF0, 0x18]);
    run(&mut emu, 3);
    for _ in 0..300 {
        emu.tick_timers();
    }
    assert_eq!(emu.delay_timer(), 0);
    assert_eq!(emu.sound_timer(), 0);
    assert_eq!(emu.pc(), 0x206);
    assert_eq!(emu.register(0), 3);
}

#[test]
fn add_to_index() {
    let mut emu = machine_with(&[0xAF, 0xFF, 0x60, 0x01, 0xF0, 0x1E]);
    run(&mut emu, 3);
    assert_eq!(emu.index(), 0x1000);
    assert_eq!(emu.register(0xF), 0);
}

#[test]
fn add_to_index_wraps_at_sixteen_bits() {
    let mut emu = machine_with(&[0x60, 0xFF, 0xAF, 0xFF, 0xF0, 0x1E, 0x12, 0x04]);
    run(&mut emu, 2 + 240 * 2);
    assert_eq!(emu.index(), 4095 + 240 * 255);
    run(&mut emu, 1);
    assert_eq!(emu.index(), 14);
}

#[test]
fn glyph_address_is_five_times_the_digit() {
    let mut emu = machine_with(&[0x60, 0x0A, 0xF0, 0x29, 0x60, 0xFF, 0xF0, 0x29]);
    run(&mut emu, 2);
    assert_eq!(emu.index(), 50);
    run(&mut emu, 2);
    assert_eq!(emu.index(), 1275);
}

#[test]
fn decimal_digits_are_stored_at_the_index() {
    let mut emu = machine_with(&[0x60, 0xFE, 0xA3, 0x00, 0xF0, 0x33, 0x60, 0x07, 0xF0, 0x33]);
    run(&mut emu, 3);
    assert_eq!(&emu.memory()[0x2FF..0x304], &[0, 2, 5, 4, 0]);
    run(&mut emu, 2);
    assert_eq!(&emu.memory()[0x300..0x303], &[0, 0, 7]);
    assert_eq!(emu.index(), 0x300);
}

#[test]
fn decimal_digits_need_three_bytes_of_memory() {
    let mut emu = machine_with(&[0xAF, 0xFE, 0xF0, 0x33]);
    run(&mut emu, 1);
    assert_eq!(emu.try_tick(), Err(Fault::OutOfBounds));
    let mut emu = machine_with(&[0x60, 0x7B, 0xAF, 0xFD, 0xF0, 0x33]);
    run(&mut emu, 3);
    assert_eq!(&emu.memory()[0xFFD..], &[1, 2, 3]);
}

#[test]
fn store_registers_writes_consecutive_bytes() {
    let mut emu = machine_with(&[
        0x60, 0x01, 0x61, 0x02, 0x62, 0x03, 0x63, 0x04, 0xA3, 0x00, 0xF2, 0x55,
    ]);
    run(&mut emu, 6);
    assert_eq!(&emu.memory()[0x2FF..0x305], &[0, 1, 2, 3, 0, 0]);
    assert_eq!(emu.index(), 0x300);
}

#[test]
fn load_registers_reads_consecutive_bytes() {
    let mut emu = machine_with(&[0x63, 0x09, 0xA2, 0x06, 0xF2, 0x65, 0x0B, 0x16, 0x21, 0x2C]);
    run(&mut emu, 3);
    assert_eq!(emu.register(0), 0x0B);
    assert_eq!(emu.register(1), 0x16);
    assert_eq!(emu.register(2), 0x21);
    assert_eq!(emu.register(3), 0x09);
    assert_eq!(emu.index(), 0x206);
}

#[test]
fn store_and_load_all_registers_at_the_end_of_memory() {
    let mut emu = machine_with(&[0x6F, 0x5A, 0xAF, 0xF0, 0xFF, 0x55, 0x6F, 0x00, 0xFF, 0x65]);
    run(&mut emu, 3);
    assert_eq!(emu.memory()[0xFFF], 0x5A);
    run(&mut emu, 2);
    assert_eq!(emu.register(0xF), 0x5A);
    let mut emu = machine_with(&[0xAF, 0xF1, 0xFF, 0x55]);
    run(&mut emu, 1);
    assert_eq!(emu.try_tick(), Err(Fault::OutOfBounds));
    let mut emu = machine_with(&[0xAF, 0xF1, 0xFF, 0x65]);
    run(&mut emu, 1);
    assert_eq!(emu.try_tick(), Err(Fault::OutOfBounds));
}

#[test]
fn fetch_reads_a_big_endian_word() {
    let mut emu = machine_with(&[0x12, 0x34, 0xAB, 0xCD]);
    assert_eq!(emu.fetch(), 0x1234);
    assert_eq!(emu.pc(), 0x202);
    assert_eq!(emu.fetch(), 0xABCD);
    assert_eq!(emu.pc(), 0x204);
}
