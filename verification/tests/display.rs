use chip8::display::Framebuffer;
use chip8::execute::Flow;
use chip8::keypad::Keypad;
use chip8::machine::Chip8;

fn load(program: &[u8]) -> Chip8 {
    Chip8::new(program.to_vec()).unwrap()
}

fn advance(machine: &mut Chip8, cycles: usize) {
    let keys = Keypad::new();
    for _ in 0..cycles {
        assert_eq!(machine.step_with(&keys, 0), Ok(Flow::Continue));
    }
}

fn lit_pixels(screen: &Framebuffer) -> Vec<(usize, usize)> {
    let mut lit = Vec::new();
    for y in 0..32 {
        for x in 0..64 {
            if screen.pixel(x, y) {
                lit.push((x, y));
            }
        }
    }
    lit
}

#[test]
fn a_new_framebuffer_is_dark() {
    let screen = Framebuffer::new();
    assert!(lit_pixels(&screen).is_empty());
    assert_eq!(screen.pixels().len(), 2048);
}

#[test]
fn drawing_sets_the_bits_of_each_row_from_the_left() {
    let mut screen = Framebuffer::new();
    let collision = screen.draw(&[0x00, 0xA0, 0x41, 0x00], 1, 2, 2, 3);
    assert!(!collision);
    assert_eq!(lit_pixels(&screen), vec![(2, 3), (4, 3), (3, 4), (9, 4)]);
}

#[test]
fn pixels_are_stored_row_by_row() {
    let mut screen = Framebuffer::new();
    screen.draw(&[0x80], 0, 1, 5, 7);
    assert!(screen.pixels()[5 + 7 * 64]);
    assert_eq!(screen.pixels().iter().filter(|pixel| **pixel).count(), 1);
}

#[test]
fn drawing_nothing_changes_nothing() {
    let mut screen = Framebuffer::new();
    screen.draw(&[0xFF], 0, 1, 0, 0);
    let before = *screen.pixels();
    assert!(!screen.draw(&[0xFF], 0, 0, 0, 0));
    assert!(!screen.draw(&[0x00, 0x00], 0, 2, 0, 0));
    assert_eq!(&before[..], &screen.pixels()[..]);
}

#[test]
fn drawing_twice_restores_the_framebuffer_and_collides() {
    let mut screen = Framebuffer::new();
    screen.draw(&[0x3C], 0, 1, 6, 10);
    let before = *screen.pixels();
    let sprite = [0xF0, 0x90, 0x90, 0x90, 0xF0];
    assert!(screen.draw(&sprite, 0, 5, 8, 9));
    assert_ne!(&before[..], &screen.pixels()[..]);
    assert!(screen.draw(&sprite, 0, 5, 8, 9));
    assert_eq!(&before[..], &screen.pixels()[..]);
}

#[test]
fn drawing_twice_onto_a_fully_lit_region_ends_without_collision() {
    let mut screen = Framebuffer::new();
    assert!(!screen.draw(&[0xFF], 0, 1, 0, 0));
    assert!(screen.draw(&[0xFF], 0, 1, 0, 0));
    assert!(lit_pixels(&screen).is_empty());
    assert!(!screen.draw(&[0xFF], 0, 1, 0, 0));
    assert_eq!(lit_pixels(&screen).len(), 8);
}

#[test]
fn collision_is_reported_for_the_whole_sprite() {
    let mut screen = Framebuffer::new();
    screen.draw(&[0x80], 0, 1, 0, 0);
    // Only the first row overlaps; the rows after it do not reset the flag.
    assert!(screen.draw(&[0x80, 0x80, 0x80], 0, 3, 0, 0));
    assert_eq!(lit_pixels(&screen), vec![(0, 1), (0, 2)]);
}

#[test]
fn sprites_wrap_around_the_right_edge() {
    let mut screen = Framebuffer::new();
    assert!(!screen.draw(&[0xFF], 0, 1, 60, 0));
    assert_eq!(
        lit_pixels(&screen),
        vec![(0, 0), (1, 0), (2, 0), (3, 0), (60, 0), (61, 0), (62, 0), (63, 0)]
    );
}

#[test]
fn sprites_wrap_around_the_bottom_edge() {
    let mut screen = Framebuffer::new();
    assert!(!screen.draw(&[0x80, 0x80, 0x80], 0, 3, 0, 30));
    assert_eq!(lit_pixels(&screen), vec![(0, 0), (0, 30), (0, 31)]);
}

#[test]
fn coordinates_beyond_the_screen_wrap_too() {
    let mut screen = Framebuffer::new();
    assert!(!screen.draw(&[0xC0], 0, 1, 64 * 3 + 5, 32 * 7 + 2));
    assert_eq!(lit_pixels(&screen), vec![(5, 2), (6, 2)]);
}

#[test]
fn clearing_turns_every_pixel_off() {
    let mut screen = Framebuffer::new();
    screen.draw(&[0xFF, 0xFF, 0xFF], 0, 3, 17, 11);
    assert_eq!(lit_pixels(&screen).len(), 24);
    screen.clear();
    assert!(screen.pixels().iter().all(|pixel| !*pixel));
}

#[test]
fn text_frame_has_one_line_per_row() {
    let mut screen = Framebuffer::new();
    screen.draw(&[0xA0], 0, 1, 62, 1);
    let text = screen.to_text();
    assert_eq!(text.len(), 32 * 65);
    let lines: Vec<&[u8]> = text.split(|byte| *byte == b'\n').collect();
    assert_eq!(lines.len(), 33);
    assert!(lines[32].is_empty());
    for (y, line) in lines[..32].iter().enumerate() {
        assert_eq!(line.len(), 64);
        for (x, character) in line.iter().enumerate() {
            let lit = y == 1 && (x == 62 || x == 0);
            assert_eq!(*character, if lit { b'#' } else { b'.' });
        }
    }
}

#[test]
fn draw_instruction_reads_the_sprite_at_the_index() {
    let mut machine = load(&[0xA2, 0x0A, 0x60, 0x05, 0x61, 0x07, 0xD0, 0x13, 0x12, 0x08, 0xF0, 0x90,
        0xF0]);
    advance(&mut machine, 4);
    assert_eq!(machine.pc(), 0x208);
    assert_eq!(machine.register(0xF), 0);
    assert_eq!(
        lit_pixels(machine.framebuffer()),
        vec![
            (5, 7),
            (6, 7),
            (7, 7),
            (8, 7),
            (5, 8),
            (8, 8),
            (5, 9),
            (6, 9),
            (7, 9),
            (8, 9)
        ]
    );
}

#[test]
fn drawing_the_same_sprite_twice_restores_the_screen_and_sets_the_flag() {
    let mut machine = load(&[0xA2, 0x0C, 0x60, 0x05, 0x61, 0x07, 0xD0, 0x13, 0xD0, 0x13, 0x12, 0x0A,
        0xF0, 0x90, 0xF0]);
    advance(&mut machine, 3);
    let before = *machine.framebuffer().pixels();
    advance(&mut machine, 1);
    assert_eq!(machine.register(0xF), 0);
    assert_eq!(lit_pixels(machine.framebuffer()).len(), 10);
    advance(&mut machine, 1);
    assert_eq!(machine.register(0xF), 1);
    assert_eq!(&before[..], &machine.framebuffer().pixels()[..]);
    assert_eq!(machine.pc(), 0x20A);
}

#[test]
fn draw_instruction_clears_a_stale_flag() {
    let mut machine = load(&[0xA2, 0x08, 0x6F, 0x01, 0xD0, 0x01, 0x12, 0x06, 0x80]);
    advance(&mut machine, 3);
    assert_eq!(machine.register(0xF), 0);
    assert_eq!(lit_pixels(machine.framebuffer()), vec![(0, 0)]);
}

#[test]
fn an_all_on_row_at_column_60_wraps_to_the_left_edge() {
    let mut machine = load(&[0xA2, 0x08, 0x60, 0x3C, 0x61, 0x00, 0xD0, 0x11, 0xFF]);
    advance(&mut machine, 4);
    assert_eq!(
        lit_pixels(machine.framebuffer()),
        vec![(0, 0), (1, 0), (2, 0), (3, 0), (60, 0), (61, 0), (62, 0), (63, 0)]
    );
    assert_eq!(machine.register(0xF), 0);
}

#[test]
fn clear_screen_instruction_leaves_the_whole_grid_off() {
    let mut machine = load(&[0xA0, 0x50, 0xD0, 0x05, 0x00, 0xE0]);
    advance(&mut machine, 2);
    assert_eq!(lit_pixels(machine.framebuffer()).len(), 14);
    advance(&mut machine, 1);
    assert!(machine.framebuffer().pixels().iter().all(|pixel| !*pixel));
    for y in 0..32 {
        for x in 0..64 {
            assert!(!machine.framebuffer().pixel(x, y));
        }
    }
    assert_eq!(machine.pc(), 0x206);
}

#[test]
fn glyphs_can_be_drawn_from_the_font() {
    let mut machine = load(&[0x60, 0x01, 0xF0, 0x29, 0x61, 0x00, 0xD1, 0x15]);
    advance(&mut machine, 4);
    // Glyph 1: 0x20, 0x60, 0x20, 0x20, 0x70.
    assert_eq!(
        lit_pixels(machine.framebuffer()),
        vec![(2, 0), (1, 1), (2, 1), (2, 2), (2, 3), (1, 4), (2, 4), (3, 4)]
    );
}
