use touch_display::display::console::{glyph_bit, Console, COLS, FONT_HEIGHT, FONT_WIDTH, LINES};
use touch_display::display::scanline::{ScanLine, SCANLINE_BYTES};
use touch_display::display::rgb_to_16bpp;
use touch_display::spi::AsBytes;

const GLYPH_A: [u8; 16] = [
    0x00, 0x00, 0x10, 0x38, 0x6C, 0xC6, 0xC6, 0xFE, 0xC6, 0xC6, 0xC6, 0xC6, 0x00, 0x00, 0x00, 0x00,
];

#[test]
fn console_dimensions() {
    assert_eq!(COLS, 40);
    assert_eq!(LINES, 30);
    assert_eq!(FONT_WIDTH, 8);
    assert_eq!(FONT_HEIGHT, 16);
}

#[test]
fn a_new_console_is_blank() {
    let c = Console::new();
    assert_eq!((c.line, c.col), (0, 0));
    assert!(c.buffer.iter().all(|row| row.iter().all(|ch| *ch == ' ')));
}

#[test]
fn characters_fill_a_line_and_wrap() {
    let mut c = Console::new();
    for i in 0..COLS {
        c.add_char(if i % 2 == 0 { 'a' } else { 'b' });
    }
    assert_eq!((c.line, c.col), (0, COLS));
    assert_eq!(c.buffer[0][0], 'a');
    assert_eq!(c.buffer[0][COLS - 1], 'b');
    c.add_char('c');
    assert_eq!((c.line, c.col), (1, 1));
    assert_eq!(c.buffer[1][0], 'c');
    assert_eq!(c.buffer[1][1], ' ');
}

#[test]
fn a_line_break_takes_effect_with_the_next_character() {
    let mut c = Console::new();
    c.add_char('x');
    c.add_nl();
    assert_eq!((c.line, c.col), (0, COLS));
    c.add_char('y');
    assert_eq!((c.line, c.col), (1, 1));
    assert_eq!(c.buffer[0][0], 'x');
    assert_eq!(c.buffer[1][0], 'y');
}

#[test]
fn a_full_grid_scrolls_by_one_line() {
    let mut c = Console::new();
    for l in 0..LINES {
        c.add_char((b'A' + (l as u8 % 26)) as char);
        c.add_nl();
    }
    assert_eq!(c.line, LINES - 1);
    assert_eq!(c.buffer[0][0], 'A');
    c.add_char('!');
    assert_eq!((c.line, c.col), (LINES - 1, 1));
    assert_eq!(c.buffer[0][0], 'B');
    assert_eq!(c.buffer[LINES - 2][0], (b'A' + ((LINES - 1) as u8 % 26)) as char);
    assert_eq!(c.buffer[LINES - 1][0], '!');
    assert!(c.buffer[LINES - 1][1..].iter().all(|ch| *ch == ' '));
}

#[test]
fn write_str_breaks_lines_at_newlines() {
    let mut c = Console::new();
    c.write_str("ab\ncd\n");
    assert_eq!(c.buffer[0][0], 'a');
    assert_eq!(c.buffer[0][1], 'b');
    assert_eq!(c.buffer[1][0], 'c');
    assert_eq!(c.buffer[1][1], 'd');
    assert_eq!((c.line, c.col), (1, COLS));
    c.write_str("");
    assert_eq!((c.line, c.col), (1, COLS));
    c.write_str("e");
    assert_eq!((c.line, c.col), (2, 1));
}

#[test]
fn write_str_is_add_char_and_add_nl() {
    let text = "  12x 345 @   678\nnext";
    let mut a = Console::new();
    a.write_str(text);
    let mut b = Console::new();
    for ch in text.chars() {
        if ch == '\n' {
            b.add_nl();
        } else {
            b.add_char(ch);
        }
    }
    assert_eq!(a.buffer, b.buffer);
    assert_eq!((a.line, a.col), (b.line, b.col));
}

#[test]
fn pixels_come_from_the_font() {
    let mut c = Console::new();
    c.add_char(' ');
    c.add_char('A');
    for y in 0..16 {
        for x in 0..8 {
            let expected = GLYPH_A[y] & (0x80 >> x) != 0;
            assert_eq!(c.get_pixel(8 + x, y), expected, "pixel {} {}", x, y);
            assert!(!c.get_pixel(x, y));
        }
    }
}

#[test]
fn pixels_of_a_lower_line() {
    let mut c = Console::new();
    c.write_str("x\n");
    c.add_char('A');
    assert_eq!((c.line, c.col), (1, 1));
    assert!(c.get_pixel(3, 16 + 2));
    assert!(!c.get_pixel(2, 16 + 2));
    assert!(c.get_pixel(0, 16 + 7));
    assert!(!c.get_pixel(7, 16 + 7));
}

#[test]
fn line_breaks_in_a_row_count_once() {
    let mut c = Console::new();
    c.write_str("\n\n");
    c.add_char('A');
    assert_eq!((c.line, c.col), (1, 1));
    assert_eq!(c.buffer[1][0], 'A');
}

#[test]
fn nothing_is_drawn_off_the_grid() {
    let mut c = Console::new();
    for _ in 0..COLS * LINES {
        c.add_char('A');
    }
    assert!(c.get_pixel(319 - 4, 479 - 8));
    assert!(!c.get_pixel(320, 7));
    assert!(!c.get_pixel(0, 480));
    assert!(!c.get_pixel(usize::MAX, usize::MAX));
}

#[test]
fn a_character_the_font_lacks_is_blank() {
    let mut c = Console::new();
    c.add_char('\u{20AC}');
    c.add_char('\u{100}');
    for y in 0..16 {
        for x in 0..16 {
            assert!(!c.get_pixel(x, y));
        }
    }
}

#[test]
fn glyph_bits_count_from_the_left() {
    assert!(glyph_bit(0x80, 0));
    assert!(!glyph_bit(0x80, 1));
    assert!(glyph_bit(0x01, 7));
    assert!(!glyph_bit(0x01, 0));
    assert!(glyph_bit(0x10, 3));
    assert!(!glyph_bit(0x00, 4));
    assert!(glyph_bit(0xFF, 5));
}

#[test]
fn a_scanline_packs_every_column() {
    let line = ScanLine::new(|x| (x as u8, (x >> 1) as u8, 255 - (x as u8)));
    let bytes = line.as_bytes();
    assert_eq!(bytes.len(), SCANLINE_BYTES);
    assert_eq!(SCANLINE_BYTES, 640);
    for x in 0..320usize {
        let pixel = rgb_to_16bpp(x as u8, (x >> 1) as u8, 255 - (x as u8));
        assert_eq!(&bytes[2 * x..2 * x + 2], &pixel);
    }
}

#[test]
fn a_scanline_of_one_color() {
    let line = ScanLine::new(|_| (248, 64, 8));
    assert!(line.as_bytes().chunks(2).all(|p| p == [0xFA, 0x01]));
}

#[test]
fn a_scanline_can_show_the_console() {
    let mut c = Console::new();
    c.add_char('A');
    let line = ScanLine::new(|x| if c.get_pixel(x, 7) { (0, 255, 0) } else { (0, 0, 0) });
    let bytes = line.as_bytes();
    // row 7 of the glyph is 0xFE: seven pixels lit, the eighth dark
    for x in 0..7 {
        assert_eq!(&bytes[2 * x..2 * x + 2], &[0x07, 0xE0]);
    }
    assert_eq!(&bytes[14..16], &[0, 0]);
    assert!(bytes[16..].iter().all(|b| *b == 0));
}

#[test]
fn a_scanline_is_its_bytes_either_way() {
    let line = ScanLine::new(|x| (x as u8, 0, 0));
    let as_ref: &[u8] = line.as_ref();
    assert_eq!(as_ref, line.as_bytes());
    assert_eq!(as_ref[2 * 8], 8);
}
