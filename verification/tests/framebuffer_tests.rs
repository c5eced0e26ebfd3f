use home_clock::FrameBuffer;

fn rgb(r: u32, g: u32, b: u32) -> u32 {
    (r << 16) | (g << 8) | b
}

#[test]
fn new_is_zeroed_with_given_dimensions() {
    let fb = FrameBuffer::new(10, 4);
    assert_eq!(fb.width, 10);
    assert_eq!(fb.height, 4);
    assert_eq!(fb.buffer.len(), 40);
    assert!(fb.buffer.iter().all(|&p| p == 0));
}

#[test]
fn clear_overwrites_every_pixel() {
    let mut fb = FrameBuffer::new(8, 8);
    fb.set_pixel(3, 3, 0x123456);
    fb.clear(rgb(1, 2, 3));
    assert!(fb.buffer.iter().all(|&p| p == 0x010203));
}

#[test]
fn set_pixel_writes_row_major() {
    let mut fb = FrameBuffer::new(5, 3);
    fb.set_pixel(2, 1, 0xABCDEF);
    for y in 0..3usize {
        for x in 0..5usize {
            let expected = if x == 2 && y == 1 { 0xABCDEF } else { 0 };
            assert_eq!(fb.buffer[y * 5 + x], expected);
        }
    }
}

#[test]
fn set_pixel_out_of_bounds_is_a_no_op() {
    let mut fb = FrameBuffer::new(4, 4);
    fb.set_pixel(-1, 0, 0xFF);
    fb.set_pixel(0, -1, 0xFF);
    fb.set_pixel(4, 0, 0xFF);
    fb.set_pixel(0, 4, 0xFF);
    fb.set_pixel(1_000_000, 1_000_000, 0xFF);
    assert!(fb.buffer.iter().all(|&p| p == 0));
}

#[test]
fn fill_rect_clips_at_the_edges() {
    let mut fb = FrameBuffer::new(4, 4);
    fb.fill_rect(-2, -2, 4, 4, 7);
    for y in 0..4usize {
        for x in 0..4usize {
            let expected = if x < 2 && y < 2 { 7 } else { 0 };
            assert_eq!(fb.buffer[y * 4 + x], expected);
        }
    }
}

#[test]
fn fill_rect_covers_exactly_its_rectangle() {
    let mut fb = FrameBuffer::new(6, 6);
    fb.fill_rect(1, 2, 3, 2, 9);
    for y in 0..6usize {
        for x in 0..6usize {
            let inside = (1..4).contains(&x) && (2..4).contains(&y);
            assert_eq!(fb.buffer[y * 6 + x], if inside { 9 } else { 0 });
        }
    }
}
