use chippers::chip8::Memory;
use chippers::display::{draw_sprite, SCREEN_CELLS, SCREEN_HEIGHT, SCREEN_WIDTH};

fn lit(gfx: &[u8; SCREEN_CELLS]) -> Vec<(usize, usize)> {
    let mut cells = Vec::new();
    for y in 0..SCREEN_HEIGHT {
        for x in 0..SCREEN_WIDTH {
            if gfx[x + y * SCREEN_WIDTH] == 1 {
                cells.push((x, y));
            }
        }
    }
    cells
}

#[test]
fn screen_dimensions() {
    assert_eq!(SCREEN_WIDTH, 64);
    assert_eq!(SCREEN_HEIGHT, 32);
    assert_eq!(SCREEN_CELLS, 64 * 32);
}

#[test]
fn sprite_bits_go_left_to_right_and_rows_top_to_bottom() {
    let mut memory = Memory::new();
    memory.store(0x300, &[0b1000_0001, 0b0100_0000]);
    let mut gfx = [0u8; SCREEN_CELLS];
    let collision = draw_sprite(&mut gfx, &memory, 0x300, 2, 10, 5);
    assert!(!collision);
    assert_eq!(lit(&gfx), vec![(10, 5), (17, 5), (11, 6)]);
}

#[test]
fn glyph_zero_drawn_at_origin() {
    let memory = Memory::new();
    let mut gfx = [0u8; SCREEN_CELLS];
    let collision = draw_sprite(&mut gfx, &memory, 0, 5, 0, 0);
    assert!(!collision);
    let expected = vec![
        (0, 0), (1, 0), (2, 0), (3, 0),
        (0, 1), (3, 1),
        (0, 2), (3, 2),
        (0, 3), (3, 3),
        (0, 4), (1, 4), (2, 4), (3, 4),
    ];
    assert_eq!(lit(&gfx), expected);
}

#[test]
fn sprite_wraps_round_the_right_edge() {
    let mut memory = Memory::new();
    memory.store(0x300, &[0xFF]);
    let mut gfx = [0u8; SCREEN_CELLS];
    let collision = draw_sprite(&mut gfx, &memory, 0x300, 1, 60, 3);
    assert!(!collision);
    assert_eq!(
        lit(&gfx),
        vec![(0, 3), (1, 3), (2, 3), (3, 3), (60, 3), (61, 3), (62, 3), (63, 3)]
    );
}

#[test]
fn sprite_wraps_round_the_bottom_edge() {
    let mut memory = Memory::new();
    memory.store(0x300, &[0x80, 0x80, 0x80]);
    let mut gfx = [0u8; SCREEN_CELLS];
    let collision = draw_sprite(&mut gfx, &memory, 0x300, 3, 7, 30);
    assert!(!collision);
    assert_eq!(lit(&gfx), vec![(7, 0), (7, 30), (7, 31)]);
}

#[test]
fn coordinates_beyond_the_screen_wrap() {
    let mut memory = Memory::new();
    memory.store(0x300, &[0x80]);
    let mut gfx = [0u8; SCREEN_CELLS];
    draw_sprite(&mut gfx, &memory, 0x300, 1, 200, 100);
    assert_eq!(lit(&gfx), vec![(200 % 64, 100 % 32)]);
    let mut other = [0u8; SCREEN_CELLS];
    draw_sprite(&mut other, &memory, 0x300, 1, 255, 255);
    assert_eq!(lit(&other), vec![(63, 31)]);
}

#[test]
fn drawing_twice_restores_the_screen_and_collides() {
    let mut memory = Memory::new();
    memory.store(0x300, &[0xA5, 0x3C, 0xFF]);
    let mut gfx = [0u8; SCREEN_CELLS];
    gfx[5 + 2 * SCREEN_WIDTH] = 1;
    gfx[40 + 20 * SCREEN_WIDTH] = 1;
    let before = gfx;
    let first = draw_sprite(&mut gfx, &memory, 0x300, 3, 62, 31);
    assert!(!first);
    assert_ne!(gfx, before);
    let second = draw_sprite(&mut gfx, &memory, 0x300, 3, 62, 31);
    assert!(second);
    assert_eq!(gfx, before);
}

#[test]
fn collision_is_reported_when_a_lit_cell_goes_off() {
    let mut memory = Memory::new();
    memory.store(0x300, &[0xC0]);
    let mut gfx = [0u8; SCREEN_CELLS];
    gfx[1] = 1;
    let collision = draw_sprite(&mut gfx, &memory, 0x300, 1, 0, 0);
    assert!(collision);
    assert_eq!(lit(&gfx), vec![(0, 0)]);
}

#[test]
fn empty_sprite_draws_nothing() {
    let mut memory = Memory::new();
    memory.store(0x300, &[0x00, 0x00]);
    let mut gfx = [0u8; SCREEN_CELLS];
    gfx[100] = 1;
    let before = gfx;
    assert!(!draw_sprite(&mut gfx, &memory, 0x300, 2, 4, 1));
    assert_eq!(gfx, before);
    assert!(!draw_sprite(&mut gfx, &memory, 0x300, 0, 4, 1));
    assert_eq!(gfx, before);
    assert!(!draw_sprite(&mut gfx, &memory, 0x300, 2, 4, 1));
    assert_eq!(gfx, before);
}

#[test]
fn sprite_may_end_at_the_last_address() {
    let mut memory = Memory::new();
    memory.store(0xFFE, &[0x80, 0x80]);
    let mut gfx = [0u8; SCREEN_CELLS];
    draw_sprite(&mut gfx, &memory, 0xFFE, 2, 0, 0);
    assert_eq!(lit(&gfx), vec![(0, 0), (0, 1)]);
}
