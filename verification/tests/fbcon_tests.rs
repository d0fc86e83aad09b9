use vibeos::boot_screen::{paint_boot_screen, quadrant_color};
use vibeos::common::FramebufferInfo;
use vibeos::drivers::fbcon::FbCon;

fn info(addr: u64, width: u32, height: u32, pitch: u32, bpp: u8) -> FramebufferInfo {
    FramebufferInfo { addr, width, height, pitch, bpp }
}

fn console(width: u32, height: u32, pitch: u32, bpp: u8) -> FbCon {
    let len = (pitch * height) as usize;
    FbCon::init(&info(0xB800_0000, width, height, pitch, bpp), vec![0u8; len])
}

#[test]
fn pixel_bytes_are_little_endian_at_row_and_column() {
    let mut fb = console(4, 2, 20, 32);
    fb.draw_pixel(1, 1, 0x1122_3344);
    let b = fb.bytes();
    assert_eq!(&b[24..28], &[0x44, 0x33, 0x22, 0x11]);
    let changed = b.iter().filter(|&&v| v != 0).count();
    assert_eq!(changed, 4);
}

#[test]
fn pixel_off_screen_is_ignored() {
    let mut fb = console(4, 2, 20, 32);
    fb.draw_pixel(4, 0, 0xFFFF_FFFF);
    fb.draw_pixel(0, 2, 0xFFFF_FFFF);
    assert!(fb.bytes().iter().all(|&v| v == 0));
}

#[test]
fn pixel_of_three_bytes_takes_low_three() {
    let mut fb = console(2, 1, 6, 24);
    fb.draw_pixel(1, 0, 0xAABB_CCDD);
    assert_eq!(fb.bytes(), &[0, 0, 0, 0xDD, 0xCC, 0xBB]);
}

#[test]
fn clear_fills_visible_bytes_with_low_byte_and_keeps_padding() {
    let mut fb = console(4, 2, 20, 32);
    fb.clear(0x0000_01FE);
    let b = fb.bytes();
    for row in 0..2 {
        for i in 0..16 {
            assert_eq!(b[row * 20 + i], 0xFE);
        }
        for i in 16..20 {
            assert_eq!(b[row * 20 + i], 0);
        }
    }
}

#[test]
fn rect_is_clipped_to_the_screen() {
    let mut fb = console(3, 3, 3, 8);
    fb.draw_rect(1, 1, 5, 5, 0x77);
    assert_eq!(fb.bytes(), &[0, 0, 0, 0, 0x77, 0x77, 0, 0x77, 0x77]);
}

#[test]
fn empty_rect_changes_nothing() {
    let mut fb = console(3, 3, 3, 8);
    fb.draw_rect(usize::MAX, usize::MAX, 0, 0, 0x77);
    assert!(fb.bytes().iter().all(|&v| v == 0));
}

#[test]
fn absent_framebuffer_draws_nothing() {
    let mut fb = FbCon::init(&info(0, 2, 2, 8, 32), vec![0u8; 16]);
    fb.draw_pixel(0, 0, 0xFFFF_FFFF);
    fb.clear(0xFF);
    fb.draw_rect(0, 0, 2, 2, 0xFF);
    assert!(fb.bytes().iter().all(|&v| v == 0));
}

#[test]
fn shallow_depth_draws_nothing() {
    let mut fb = console(2, 2, 2, 4);
    fb.draw_pixel(0, 0, 0xFF);
    fb.clear(0xFF);
    assert!(fb.bytes().iter().all(|&v| v == 0));
}

#[test]
fn boot_screen_paints_four_quadrants() {
    // 4 x 2 pixels, 5 pixels per line, 4 bytes per pixel.
    let mut buf = vec![0xEEu8; ((2 - 1) * 5 + 4) * 4];
    paint_boot_screen(&mut buf, 4, 2, 5, 4);
    assert_eq!(&buf[0..4], &[0x00, 0x40, 0x80, 0x00]);
    assert_eq!(&buf[4..8], &[0x00, 0x40, 0x80, 0x00]);
    assert_eq!(&buf[8..12], &[0x40, 0x00, 0x80, 0x00]);
    assert_eq!(&buf[12..16], &[0x40, 0x00, 0x80, 0x00]);
    // The fifth pixel of the first line is padding.
    assert_eq!(&buf[16..20], &[0xEE; 4]);
    assert_eq!(&buf[20..24], &[0x80, 0x40, 0x00, 0x00]);
    assert_eq!(&buf[32..36], &[0x20, 0x20, 0x20, 0x00]);
}

#[test]
fn boot_screen_takes_first_bytes_of_colour() {
    let mut buf = vec![0u8; 3];
    paint_boot_screen(&mut buf, 1, 1, 1, 3);
    assert_eq!(buf, vec![0x20, 0x20, 0x20]);
    assert_eq!(quadrant_color(0, 0, 1, 1), [0x20, 0x20, 0x20, 0x00]);
    assert_eq!(quadrant_color(0, 0, 2, 2), [0x00, 0x40, 0x80, 0x00]);
    assert_eq!(quadrant_color(1, 1, 2, 2), [0x20, 0x20, 0x20, 0x00]);
}
