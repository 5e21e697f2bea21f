use chippers::chip8::Chip8;
use chippers::error::Chip8Error;

fn machine(program: &[u16]) -> Chip8 {
    let mut chip8 = Chip8::new();
    assert_eq!(chip8.load_raw(&program.to_vec()), Ok(()));
    chip8
}

fn run(chip8: &mut Chip8, cycles: usize) {
    for _ in 0..cycles {
        assert_eq!(chip8.cycle(), Ok(()));
    }
}

#[test]
fn jump_sets_program_counter() {
    let mut chip8 = machine(&[0x1ABC]);
    run(&mut chip8, 1);
    assert_eq!(chip8.pc(), 0xABC);
}

#[test]
fn load_immediate_sets_register() {
    let mut chip8 = machine(&[0x6A42]);
    run(&mut chip8, 1);
    assert_eq!(chip8.registers()[0xA], 0x42);
    assert_eq!(chip8.pc(), 0x202);
}

#[test]
fn add_immediate_wraps_without_touching_flag() {
    let mut chip8 = machine(&[0x63FF, 0x7302, 0x73FE]);
    run(&mut chip8, 2);
    assert_eq!(chip8.registers()[3], 0x01);
    assert_eq!(chip8.registers()[0xF], 0);
    run(&mut chip8, 1);
    assert_eq!(chip8.registers()[3], 0xFF);
    assert_eq!(chip8.registers()[0xF], 0);
    assert_eq!(chip8.pc(), 0x206);
}

#[test]
fn add_immediate_keeps_a_raised_flag() {
    let mut chip8 = machine(&[0x6F01, 0x60FF, 0x7002]);
    run(&mut chip8, 3);
    assert_eq!(chip8.registers()[0], 0x01);
    assert_eq!(chip8.registers()[0xF], 1);
}

#[test]
fn add_immediate_complement_restores_every_register() {
    for x in 0..16u16 {
        let mut chip8 = machine(&[0x6037 | (x << 8), 0x7090 | (x << 8), 0x7070 | (x << 8)]);
        run(&mut chip8, 1);
        let before = *chip8.registers();
        run(&mut chip8, 1);
        assert_eq!(chip8.registers()[x as usize], 0xC7);
        run(&mut chip8, 1);
        assert_eq!(*chip8.registers(), before);
    }
}

#[test]
fn add_registers_sets_carry_on_overflow() {
    let mut chip8 = machine(&[0x60FF, 0x6101, 0x8014]);
    run(&mut chip8, 3);
    assert_eq!(chip8.registers()[0], 0x00);
    assert_eq!(chip8.registers()[0xF], 1);
}

#[test]
fn add_registers_clears_carry_without_overflow() {
    let mut chip8 = machine(&[0x6F01, 0x6001, 0x6101, 0x8014]);
    run(&mut chip8, 4);
    assert_eq!(chip8.registers()[0], 0x02);
    assert_eq!(chip8.registers()[0xF], 0);
}

#[test]
fn add_registers_at_the_edge_of_overflow() {
    let mut chip8 = machine(&[0x60FE, 0x6101, 0x8014, 0x8014]);
    run(&mut chip8, 3);
    assert_eq!(chip8.registers()[0], 0xFF);
    assert_eq!(chip8.registers()[0xF], 0);
    run(&mut chip8, 1);
    assert_eq!(chip8.registers()[0], 0x00);
    assert_eq!(chip8.registers()[0xF], 1);
}

#[test]
fn add_into_flag_register_leaves_the_carry() {
    let mut chip8 = machine(&[0x6FF0, 0x6120, 0x8F14]);
    run(&mut chip8, 3);
    assert_eq!(chip8.registers()[0xF], 1);
    let mut other = machine(&[0x6F10, 0x6120, 0x8F14]);
    run(&mut other, 3);
    assert_eq!(other.registers()[0xF], 0);
}

#[test]
fn subtract_sets_flag_when_nothing_is_borrowed() {
    let mut chip8 = machine(&[0x6005, 0x6103, 0x8015]);
    run(&mut chip8, 3);
    assert_eq!(chip8.registers()[0], 0x02);
    assert_eq!(chip8.registers()[0xF], 1);
}

#[test]
fn subtract_clears_flag_on_borrow() {
    let mut chip8 = machine(&[0x6F01, 0x6003, 0x6105, 0x8015]);
    run(&mut chip8, 4);
    assert_eq!(chip8.registers()[0], 0xFE);
    assert_eq!(chip8.registers()[0xF], 0);
}

#[test]
fn subtract_equal_values_sets_flag() {
    let mut chip8 = machine(&[0x6007, 0x6107, 0x8015]);
    run(&mut chip8, 3);
    assert_eq!(chip8.registers()[0], 0x00);
    assert_eq!(chip8.registers()[0xF], 1);
}

#[test]
fn reverse_subtract() {
    let mut chip8 = machine(&[0x6003, 0x6105, 0x8017]);
    run(&mut chip8, 3);
    assert_eq!(chip8.registers()[0], 0x02);
    assert_eq!(chip8.registers()[0xF], 1);
    let mut other = machine(&[0x6005, 0x6103, 0x8017]);
    run(&mut other, 3);
    assert_eq!(other.registers()[0], 0xFE);
    assert_eq!(other.registers()[0xF], 0);
}

#[test]
fn move_and_logic() {
    let mut chip8 = machine(&[0x60CA, 0x61A5, 0x8210, 0x8301, 0x8311, 0x8400, 0x8412,
        0x8503, 0x8513, 0x6600, 0x8602, 0x8612]);
    run(&mut chip8, 3);
    assert_eq!(chip8.registers()[2], 0xA5);
    run(&mut chip8, 9);
    assert_eq!(chip8.registers()[3], 0xCA | 0xA5);
    assert_eq!(chip8.registers()[4], 0xCA & 0xA5);
    assert_eq!(chip8.registers()[5], 0xCA ^ 0xA5);
    assert_eq!(chip8.registers()[6], 0x00);
    assert_eq!(chip8.registers()[0xF], 0);
    assert_eq!(chip8.pc(), 0x200 + 24);
}

#[test]
fn shift_right_takes_its_operand_from_vy() {
    let mut chip8 = machine(&[0x60FF, 0x6105, 0x8016]);
    run(&mut chip8, 3);
    assert_eq!(chip8.registers()[0], 0x02);
    assert_eq!(chip8.registers()[1], 0x05);
    assert_eq!(chip8.registers()[0xF], 1);
    let mut other = machine(&[0x6F01, 0x6104, 0x8016]);
    run(&mut other, 3);
    assert_eq!(other.registers()[0], 0x02);
    assert_eq!(other.registers()[0xF], 0);
}

#[test]
fn shift_left_takes_its_operand_from_vy() {
    let mut chip8 = machine(&[0x6001, 0x6181, 0x801E]);
    run(&mut chip8, 3);
    assert_eq!(chip8.registers()[0], 0x02);
    assert_eq!(chip8.registers()[1], 0x81);
    assert_eq!(chip8.registers()[0xF], 1);
    let mut other = machine(&[0x6F01, 0x617F, 0x801E]);
    run(&mut other, 3);
    assert_eq!(other.registers()[0], 0xFE);
    assert_eq!(other.registers()[0xF], 0);
}

#[test]
fn skip_if_equal_immediate() {
    let mut chip8 = machine(&[0x6042, 0x3042]);
    run(&mut chip8, 2);
    assert_eq!(chip8.pc(), 0x206);
    let mut other = machine(&[0x6042, 0x3043]);
    run(&mut other, 2);
    assert_eq!(other.pc(), 0x204);
}

#[test]
fn skip_if_not_equal_immediate() {
    let mut chip8 = machine(&[0x6042, 0x4043]);
    run(&mut chip8, 2);
    assert_eq!(chip8.pc(), 0x206);
    let mut other = machine(&[0x6042, 0x4042]);
    run(&mut other, 2);
    assert_eq!(other.pc(), 0x204);
}

#[test]
fn skip_if_registers_equal() {
    let mut chip8 = machine(&[0x6042, 0x6142, 0x5010]);
    run(&mut chip8, 3);
    assert_eq!(chip8.pc(), 0x208);
    let mut other = machine(&[0x6042, 0x6143, 0x5010]);
    run(&mut other, 3);
    assert_eq!(other.pc(), 0x206);
}

#[test]
fn skip_if_registers_differ() {
    let mut chip8 = machine(&[0x6042, 0x6143, 0x9010]);
    run(&mut chip8, 3);
    assert_eq!(chip8.pc(), 0x208);
    let mut other = machine(&[0x6042, 0x6142, 0x9010]);
    run(&mut other, 3);
    assert_eq!(other.pc(), 0x206);
}

#[test]
fn load_index() {
    let mut chip8 = machine(&[0xAFED]);
    run(&mut chip8, 1);
    assert_eq!(chip8.index(), 0xFED);
    assert_eq!(chip8.pc(), 0x202);
}

#[test]
fn jump_with_offset_adds_v0_to_the_address() {
    let mut chip8 = machine(&[0x6010, 0xB300]);
    run(&mut chip8, 2);
    assert_eq!(chip8.pc(), 0x310);
    let mut other = machine(&[0x60FF, 0xBFFF]);
    run(&mut other, 2);
    assert_eq!(other.pc(), 0x10FE);
    assert_eq!(other.cycle(), Err(Chip8Error::OutOfBounds));
}

#[test]
fn random_is_masked_by_the_operand() {
    let mut chip8 = machine(&[0xC000, 0xC10F, 0x1202]);
    run(&mut chip8, 1);
    assert_eq!(chip8.registers()[0], 0);
    for _ in 0..200 {
        run(&mut chip8, 2);
        assert_eq!(chip8.registers()[1] & 0xF0, 0);
    }
}

#[test]
fn random_draws_more_than_one_value() {
    let mut chip8 = machine(&[0xC0FF, 0x1200]);
    let mut seen = [false; 256];
    for _ in 0..2000 {
        run(&mut chip8, 2);
        seen[chip8.registers()[0] as usize] = true;
    }
    assert!(seen.iter().filter(|s| **s).count() > 1);
}

#[test]
fn cycle_with_masks_the_given_byte() {
    let mut chip8 = machine(&[0xC2F0, 0xC3FF, 0xC400]);
    assert_eq!(chip8.cycle_with(0xAB), Ok(()));
    assert_eq!(chip8.registers()[2], 0xA0);
    assert_eq!(chip8.cycle_with(0xAB), Ok(()));
    assert_eq!(chip8.registers()[3], 0xAB);
    assert_eq!(chip8.cycle_with(0xAB), Ok(()));
    assert_eq!(chip8.registers()[4], 0x00);
    assert_eq!(chip8.pc(), 0x206);
}

#[test]
fn cycle_with_ignores_the_byte_elsewhere() {
    let mut one = machine(&[0x6012, 0x7003, 0x8004]);
    let mut other = machine(&[0x6012, 0x7003, 0x8004]);
    for _ in 0..3 {
        assert_eq!(one.cycle_with(0x00), Ok(()));
        assert_eq!(other.cycle_with(0xFF), Ok(()));
    }
    assert_eq!(one.registers(), other.registers());
    assert_eq!(one.pc(), other.pc());
}

#[test]
fn read_delay_timer() {
    let mut chip8 = machine(&[0x6009, 0xF015, 0xF107]);
    run(&mut chip8, 3);
    assert_eq!(chip8.registers()[1], 8);
    assert_eq!(chip8.delay_timer(), 7);
}

#[test]
fn set_sound_timer() {
    let mut chip8 = machine(&[0x6003, 0xF018]);
    run(&mut chip8, 2);
    assert_eq!(chip8.sound_timer(), 2);
    assert_eq!(chip8.delay_timer(), 0);
}

#[test]
fn add_to_index_wraps_at_sixteen_bits() {
    let mut chip8 = machine(&[0xA123, 0x6010, 0xF01E]);
    run(&mut chip8, 3);
    assert_eq!(chip8.index(), 0x133);
    let mut program = vec![0xAFFF, 0x60FF];
    for _ in 0..0xF1 {
        program.push(0xF01E);
    }
    let mut other = machine(&program);
    run(&mut other, 2 + 0xF0);
    assert_eq!(other.index(), 0x0FFF + 0xF0 * 0xFF);
    run(&mut other, 1);
    assert_eq!(other.index(), ((0x0FFFu32 + 0xF1 * 0xFF) % 0x10000) as u16);
    assert_eq!(other.index(), 0x000E);
}

#[test]
fn glyph_address_is_five_times_the_digit() {
    let mut chip8 = machine(&[0x600A, 0xF029, 0x61FF, 0xF129]);
    run(&mut chip8, 2);
    assert_eq!(chip8.index(), 50);
    run(&mut chip8, 2);
    assert_eq!(chip8.index(), 1275);
}

#[test]
fn decimal_digits_are_stored_at_index() {
    let mut chip8 = machine(&[0x609C, 0xA300, 0xF033]);
    run(&mut chip8, 3);
    assert_eq!(chip8.memory().read(0x300), 1);
    assert_eq!(chip8.memory().read(0x301), 5);
    assert_eq!(chip8.memory().read(0x302), 6);
    assert_eq!(chip8.memory().read(0x2FF), 0);
    assert_eq!(chip8.memory().read(0x303), 0);
    assert_eq!(chip8.index(), 0x300);
}

#[test]
fn decimal_digits_of_small_and_large_values() {
    let mut chip8 = machine(&[0x6007, 0xA300, 0xF033, 0x60FF, 0xF033]);
    run(&mut chip8, 3);
    assert_eq!(chip8.memory().read(0x300), 0);
    assert_eq!(chip8.memory().read(0x301), 0);
    assert_eq!(chip8.memory().read(0x302), 7);
    run(&mut chip8, 2);
    assert_eq!(chip8.memory().read(0x300), 2);
    assert_eq!(chip8.memory().read(0x301), 5);
    assert_eq!(chip8.memory().read(0x302), 5);
}

#[test]
fn store_registers_up_to_x() {
    let mut chip8 = machine(&[0x6011, 0x6122, 0x6233, 0x6344, 0xA400, 0xF255]);
    run(&mut chip8, 6);
    assert_eq!(chip8.memory().read(0x400), 0x11);
    assert_eq!(chip8.memory().read(0x401), 0x22);
    assert_eq!(chip8.memory().read(0x402), 0x33);
    assert_eq!(chip8.memory().read(0x403), 0x00);
    assert_eq!(chip8.index(), 0x400);
}

#[test]
fn load_registers_up_to_x() {
    let mut chip8 = machine(&[0x63EE, 0xA000, 0xF265]);
    run(&mut chip8, 3);
    assert_eq!(chip8.registers()[0], 0xF0);
    assert_eq!(chip8.registers()[1], 0x90);
    assert_eq!(chip8.registers()[2], 0x90);
    assert_eq!(chip8.registers()[3], 0xEE);
    assert_eq!(chip8.index(), 0x000);
}

#[test]
fn store_and_load_all_registers() {
    let mut program: Vec<u16> = (0..16u16).map(|x| 0x6000 | (x << 8) | (0xA0 + x)).collect();
    program.push(0xA500);
    program.push(0xFF55);
    for x in 0..16u16 {
        program.push(0x6000 | (x << 8));
    }
    program.push(0xFF65);
    let mut chip8 = machine(&program);
    run(&mut chip8, 18);
    for x in 0..16u16 {
        assert_eq!(chip8.memory().read(0x500 + x), 0xA0 + x as u8);
    }
    run(&mut chip8, 16);
    assert_eq!(*chip8.registers(), [0u8; 16]);
    run(&mut chip8, 1);
    for x in 0..16usize {
        assert_eq!(chip8.registers()[x], 0xA0 + x as u8);
    }
}

#[test]
fn clear_screen_blanks_every_cell_and_raises_the_flag() {
    let mut chip8 = machine(&[0xA000, 0xD005, 0x6108, 0xD105, 0x00E0]);
    run(&mut chip8, 4);
    assert!(chip8.framebuffer().iter().any(|cell| *cell == 1));
    chip8.clear_draw_flag();
    assert!(!chip8.draw_flag());
    run(&mut chip8, 1);
    assert!(chip8.framebuffer().iter().all(|cell| *cell == 0));
    assert!(chip8.draw_flag());
    assert_eq!(chip8.pc(), 0x20A);
}

#[test]
fn clear_screen_on_a_blank_screen_still_raises_the_flag() {
    let mut chip8 = machine(&[0x00E0]);
    assert!(!chip8.draw_flag());
    run(&mut chip8, 1);
    assert!(chip8.framebuffer().iter().all(|cell| *cell == 0));
    assert!(chip8.draw_flag());
}

#[test]
fn draw_instruction_shows_the_sprite_at_vx_vy() {
    let mut chip8 = machine(&[0x6003, 0x6102, 0xA005, 0xD015]);
    run(&mut chip8, 4);
    let glyph = [0x20u8, 0x60, 0x20, 0x20, 0x70];
    for y in 0..32usize {
        for x in 0..64usize {
            let inside = (3..11).contains(&x) && (2..7).contains(&y);
            let expected = if inside && glyph[y - 2] & (0x80 >> (x - 3)) != 0 { 1 } else { 0 };
            assert_eq!(chip8.framebuffer()[x + y * 64], expected);
        }
    }
    assert_eq!(chip8.registers()[0xF], 0);
    assert!(chip8.draw_flag());
    assert_eq!(chip8.pc(), 0x208);
    assert_eq!(chip8.index(), 0x005);
}

#[test]
fn drawing_the_same_sprite_twice_restores_the_screen_and_sets_the_flag() {
    let mut chip8 = machine(&[0x603E, 0x611E, 0xA00A, 0xD015, 0xD015]);
    run(&mut chip8, 3);
    let before = *chip8.framebuffer();
    run(&mut chip8, 1);
    assert_ne!(*chip8.framebuffer(), before);
    assert_eq!(chip8.registers()[0xF], 0);
    run(&mut chip8, 1);
    assert_eq!(*chip8.framebuffer(), before);
    assert_eq!(chip8.registers()[0xF], 1);
}

#[test]
fn drawing_an_empty_sprite_twice_reports_no_collision() {
    let mut chip8 = machine(&[0xA300, 0xD003, 0xD003]);
    run(&mut chip8, 3);
    assert!(chip8.framebuffer().iter().all(|cell| *cell == 0));
    assert_eq!(chip8.registers()[0xF], 0);
    assert!(chip8.draw_flag());
}

#[test]
fn draw_resets_a_stale_flag() {
    let mut chip8 = machine(&[0x6F01, 0x6000, 0xA000, 0xD005]);
    run(&mut chip8, 4);
    assert_eq!(chip8.registers()[0xF], 0);
}

#[test]
fn draw_reads_its_coordinate_before_resetting_the_flag() {
    let mut chip8 = machine(&[0x6F05, 0x6000, 0xA300, 0xDF01]);
    let mut rom = vec![0u8; 0x101];
    rom[0x100] = 0x80;
    let words = [0x6F05u16, 0x6000, 0xA300, 0xDF01];
    for (k, word) in words.iter().enumerate() {
        rom[2 * k] = (word >> 8) as u8;
        rom[2 * k + 1] = (word & 0xFF) as u8;
    }
    assert_eq!(chip8.load_rom(&rom), Ok(()));
    run(&mut chip8, 4);
    assert_eq!(chip8.framebuffer()[5], 1);
    assert_eq!(chip8.framebuffer().iter().filter(|cell| **cell == 1).count(), 1);
    assert_eq!(chip8.registers()[0xF], 0);
}

#[test]
fn skip_if_key_down() {
    let mut chip8 = machine(&[0x6007, 0xE09E, 0xE09E]);
    run(&mut chip8, 2);
    assert_eq!(chip8.pc(), 0x204);
    chip8.set_key(7);
    run(&mut chip8, 1);
    assert_eq!(chip8.pc(), 0x208);
}

#[test]
fn skip_if_key_up() {
    let mut chip8 = machine(&[0x600F, 0xE0A1, 0x0000, 0xE0A1]);
    run(&mut chip8, 2);
    assert_eq!(chip8.pc(), 0x206);
    chip8.set_key(0xF);
    run(&mut chip8, 1);
    assert_eq!(chip8.pc(), 0x208);
    chip8.clear_key(0xF);
    let mut other = machine(&[0x600F, 0xE0A1]);
    other.set_key(0xF);
    other.clear_key(0xF);
    run(&mut other, 2);
    assert_eq!(other.pc(), 0x206);
}
