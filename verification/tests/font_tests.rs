use home_clock::font::{draw_colon, draw_digit, draw_hyphen, draw_text, DIGIT_HEIGHT, DIGIT_WIDTH};
use home_clock::FrameBuffer;

/// The digit cell patterns, row masks with the leftmost column in
/// bit 4, restated here independently of the library.
const DIGITS: [[u32; 7]; 10] = [
    [0b01110, 0b10001, 0b10011, 0b10101, 0b11001, 0b10001, 0b01110],
    [0b00100, 0b01100, 0b00100, 0b00100, 0b00100, 0b00100, 0b01110],
    [0b01110, 0b10001, 0b00001, 0b00010, 0b00100, 0b01000, 0b11111],
    [0b11111, 0b00010, 0b00100, 0b00010, 0b00001, 0b10001, 0b01110],
    [0b00010, 0b00110, 0b01010, 0b10010, 0b11111, 0b00010, 0b00010],
    [0b11111, 0b10000, 0b11110, 0b00001, 0b00001, 0b10001, 0b01110],
    [0b00110, 0b01000, 0b10000, 0b11110, 0b10001, 0b10001, 0b01110],
    [0b11111, 0b00001, 0b00010, 0b00100, 0b01000, 0b01000, 0b01000],
    [0b01110, 0b10001, 0b10001, 0b01110, 0b10001, 0b10001, 0b01110],
    [0b01110, 0b10001, 0b10001, 0b01111, 0b00001, 0b00010, 0b01100],
];

fn cell_on(rows: &[u32], w: usize, r: usize, c: usize) -> bool {
    (rows[r] >> (w - 1 - c)) & 1 == 1
}

#[test]
fn digit_width_and_height_are_the_font_grid() {
    assert_eq!(DIGIT_WIDTH, 5);
    assert_eq!(DIGIT_HEIGHT, 7);
}

#[test]
fn every_digit_colors_exactly_its_pattern_at_scales_one_to_three() {
    for value in 0u8..10 {
        for scale in 1i32..4 {
            let mut fb = FrameBuffer::new(32, 32);
            draw_digit(&mut fb, value, 2, 3, scale, 0xAA55AA);
            for py in 0..32i32 {
                for px in 0..32i32 {
                    let s = scale;
                    let in_grid = px >= 2 && py >= 3 && px < 2 + 5 * s && py < 3 + 7 * s;
                    let on = in_grid
                        && cell_on(
                            &DIGITS[value as usize],
                            5,
                            ((py - 3) / s) as usize,
                            ((px - 2) / s) as usize,
                        );
                    let expected = if on { 0xAA55AA } else { 0 };
                    assert_eq!(
                        fb.buffer[(py * 32 + px) as usize],
                        expected,
                        "digit {} scale {} at ({}, {})",
                        value,
                        scale,
                        px,
                        py
                    );
                }
            }
        }
    }
}

#[test]
fn out_of_range_digit_value_draws_nothing() {
    let mut fb = FrameBuffer::new(16, 16);
    draw_digit(&mut fb, 10, 0, 0, 1, 0xFFFFFF);
    draw_digit(&mut fb, 255, 0, 0, 1, 0xFFFFFF);
    assert!(fb.buffer.iter().all(|&p| p == 0));
}

#[test]
fn digit_clips_at_the_surface_edge() {
    let mut fb = FrameBuffer::new(4, 4);
    // Digit 8 at scale 2 is 10 by 14 pixels; only its top-left corner fits.
    draw_digit(&mut fb, 8, -2, -2, 2, 0x111111);
    for py in 0..4i32 {
        for px in 0..4i32 {
            let r = ((py + 2) / 2) as usize;
            let c = ((px + 2) / 2) as usize;
            let expected = if cell_on(&DIGITS[8], 5, r, c) { 0x111111 } else { 0 };
            assert_eq!(fb.buffer[(py * 4 + px) as usize], expected);
        }
    }
}

#[test]
fn colon_with_blink_off_colors_zero_pixels() {
    let mut fb = FrameBuffer::new(40, 40);
    draw_colon(&mut fb, 5, 5, 3, 0xFFFFFF, false);
    assert!(fb.buffer.iter().all(|&p| p == 0));
}

#[test]
fn colon_with_blink_on_colors_its_two_dots() {
    let colon: [u32; 7] = [0b00, 0b11, 0b11, 0b00, 0b11, 0b11, 0b00];
    let mut fb = FrameBuffer::new(10, 10);
    draw_colon(&mut fb, 1, 1, 1, 0xEEEEEE, true);
    for py in 0..10i32 {
        for px in 0..10i32 {
            let in_grid = px >= 1 && py >= 1 && px < 3 && py < 8;
            let on = in_grid && cell_on(&colon, 2, (py - 1) as usize, (px - 1) as usize);
            let expected = if on { 0xEEEEEE } else { 0 };
            assert_eq!(fb.buffer[(py * 10 + px) as usize], expected);
        }
    }
}

#[test]
fn hyphen_is_one_scaled_middle_bar() {
    let mut fb = FrameBuffer::new(16, 16);
    draw_hyphen(&mut fb, 0, 0, 2, 0x777777);
    for py in 0..16i32 {
        for px in 0..16i32 {
            let on = px < 10 && (6..8).contains(&py);
            let expected = if on { 0x777777 } else { 0 };
            assert_eq!(fb.buffer[(py * 16 + px) as usize], expected);
        }
    }
}

#[test]
fn text_advances_six_cells_per_character() {
    let m: [u32; 7] = [0b10001, 0b11011, 0b10101, 0b10101, 0b10001, 0b10001, 0b10001];
    let o: [u32; 7] = [0b01110, 0b10001, 0b10001, 0b10001, 0b10001, 0b10001, 0b01110];
    let n: [u32; 7] = [0b10001, 0b11001, 0b10101, 0b10011, 0b10001, 0b10001, 0b10001];
    let letters = [m, o, n];
    let mut fb = FrameBuffer::new(24, 8);
    draw_text(&mut fb, "MON", 0, 0, 1, 0x99CC99);
    for py in 0..8i32 {
        for px in 0..24i32 {
            let k = (px / 6) as usize;
            let c = (px % 6) as i32;
            let on = py < 7 && k < 3 && c < 5 && cell_on(&letters[k], 5, py as usize, c as usize);
            let expected = if on { 0x99CC99 } else { 0 };
            assert_eq!(fb.buffer[(py * 24 + px) as usize], expected, "({}, {})", px, py);
        }
    }
}

#[test]
fn unsupported_characters_draw_nothing_but_still_advance() {
    let mut plain = FrameBuffer::new(24, 8);
    let mut gapped = FrameBuffer::new(24, 8);
    draw_text(&mut plain, "I", 12, 0, 1, 0x445566);
    draw_text(&mut gapped, "XZI", 0, 0, 1, 0x445566);
    assert_eq!(plain.buffer, gapped.buffer);
}
