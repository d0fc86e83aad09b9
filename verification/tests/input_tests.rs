use vibeos::arch::x86_64::interrupts::{read_char as read_key_char, read_scancode, scancode_to_char, ScancodeBuffer};
use vibeos::drivers::pl050_kmi::{
    decode_packet, get_mouse_state, handle_mouse_byte, handle_scancode as kmi_scancode, KbdState, MouseDecoder,
    MouseState,
};
use vibeos::drivers::ps2kbd::{handle_scancode, has_char, read_char, read_chars, KeyboardBuffer, Ps2Keyboard};
use vibeos::drivers::uart::puts;
use vibeos::drivers::virtio_net::{recv_packet, send_packet};
use vibeos::input::InputEvent;

#[test]
fn ps2_translates_letters_with_modifiers() {
    let mut k = Ps2Keyboard::new();
    assert!(!has_char(&k));
    assert_eq!(handle_scancode(&mut k, 0x1E), Some(b'a'));
    assert_eq!(handle_scancode(&mut k, 0x2A), None);
    assert_eq!(handle_scancode(&mut k, 0x1E), Some(b'A'));
    assert_eq!(handle_scancode(&mut k, 0x02), Some(b'!'));
    assert_eq!(handle_scancode(&mut k, 0xAA), None);
    assert_eq!(handle_scancode(&mut k, 0x3A), None);
    assert_eq!(handle_scancode(&mut k, 0x10), Some(b'Q'));
    assert_eq!(handle_scancode(&mut k, 0x02), Some(b'1'));
    assert_eq!(handle_scancode(&mut k, 0x9E), None);
    assert_eq!(handle_scancode(&mut k, 0x1D), Some(0));
    assert_eq!(handle_scancode(&mut k, 0x70), Some(0));
    assert!(has_char(&k));
    let typed: Vec<u8> = std::iter::from_fn(|| read_char(&mut k)).collect();
    assert_eq!(typed, b"aA!Q1".to_vec());
    assert!(!has_char(&k));
}

#[test]
fn ps2_follows_scancode_set_1() {
    let mut k = Ps2Keyboard::new();
    assert_eq!(handle_scancode(&mut k, 0x1F), Some(b's'));
    assert_eq!(handle_scancode(&mut k, 0x2C), Some(b'z'));
    assert_eq!(handle_scancode(&mut k, 0x39), Some(b' '));
    assert_eq!(handle_scancode(&mut k, 0x26), Some(b'l'));
    assert_eq!(handle_scancode(&mut k, 0x32), Some(b'm'));
    assert_eq!(handle_scancode(&mut k, 0x2B), Some(b'\\'));
    assert_eq!(handle_scancode(&mut k, 0x4A), Some(b'-'));
    assert_eq!(handle_scancode(&mut k, 0x53), Some(b'.'));
    assert_eq!(handle_scancode(&mut k, 0x36), None);
    assert_eq!(handle_scancode(&mut k, 0x27), Some(b':'));
    assert_eq!(handle_scancode(&mut k, 0x2C), Some(b'Z'));
    assert_eq!(handle_scancode(&mut k, 0x4E), Some(b'+'));
    let typed: Vec<u8> = std::iter::from_fn(|| read_char(&mut k)).collect();
    assert_eq!(typed, b"sz lm\\-.:Z+".to_vec());
}

#[test]
fn ps2_buffer_holds_255_characters() {
    let mut b = KeyboardBuffer::new();
    for i in 0..300u32 {
        b.push((i % 200) as u8 + 1);
    }
    let mut n = 0;
    while let Some(c) = b.pop() {
        assert_eq!(c, (n % 200) as u8 + 1);
        n += 1;
    }
    assert_eq!(n, 255);
}

#[test]
fn mouse_packets_become_events() {
    let mut d = MouseDecoder::new();
    assert_eq!(get_mouse_state(&d), MouseState { x: 400, y: 300, left: false, right: false, middle: false });
    assert!(handle_mouse_byte(&mut d, 0x00).is_empty());
    assert!(handle_mouse_byte(&mut d, 0x09).is_empty());
    assert!(handle_mouse_byte(&mut d, 10).is_empty());
    let ev = handle_mouse_byte(&mut d, 5);
    assert_eq!(
        ev,
        vec![
            InputEvent::MouseMove { x: 410, y: 295, buttons: 1 },
            InputEvent::MouseDown { button: 0, x: 410, y: 295 },
        ]
    );
    handle_mouse_byte(&mut d, 0x0A);
    handle_mouse_byte(&mut d, 0xFB);
    let ev = handle_mouse_byte(&mut d, 0xFE);
    assert_eq!(
        ev,
        vec![
            InputEvent::MouseMove { x: 405, y: 297, buttons: 2 },
            InputEvent::MouseUp { button: 0, x: 405, y: 297 },
            InputEvent::MouseDown { button: 1, x: 405, y: 297 },
        ]
    );
    assert_eq!(get_mouse_state(&d), MouseState { x: 405, y: 297, left: false, right: true, middle: false });
}

#[test]
fn mouse_position_stops_at_zero_and_wraps_at_16_bits() {
    let mut m = MouseState::default();
    decode_packet(&mut m, 0x04, -5, 5);
    assert_eq!(m, MouseState { x: 0, y: 0, left: false, right: false, middle: true });
    let mut m = MouseState { x: 65530, y: 10, left: true, right: false, middle: false };
    decode_packet(&mut m, 0, 10, -3);
    assert_eq!(m, MouseState { x: 4, y: 13, left: false, right: false, middle: false });
}

#[test]
fn kmi_keyboard_translates_and_toggles_caps() {
    let mut st = KbdState::new();
    assert_eq!(kmi_scancode(&mut st, 0x10), Some(InputEvent::KeyPress { ascii: b'q' }));
    // A release of q: nothing happens.
    assert_eq!(kmi_scancode(&mut st, 0xF0), None);
    assert_eq!(kmi_scancode(&mut st, 0x10), None);
    assert_eq!(kmi_scancode(&mut st, 0x58), None);
    assert_eq!(kmi_scancode(&mut st, 0x10), Some(InputEvent::KeyPress { ascii: b'Q' }));
    // Releasing caps lock does not toggle it again.
    assert_eq!(kmi_scancode(&mut st, 0xF0), None);
    assert_eq!(kmi_scancode(&mut st, 0x58), None);
    assert_eq!(kmi_scancode(&mut st, 0x10), Some(InputEvent::KeyPress { ascii: b'Q' }));
    assert_eq!(kmi_scancode(&mut st, 0x27), Some(InputEvent::KeyPress { ascii: b';' }));
    assert_eq!(kmi_scancode(&mut st, 0x1D), None);
    assert_eq!(kmi_scancode(&mut st, 0x60), None);
    assert_eq!(kmi_scancode(&mut st, 0x5F), Some(InputEvent::KeyPress { ascii: b'0' }));
}

#[test]
fn kmi_shift_is_held_until_released() {
    let mut st = KbdState::new();
    assert_eq!(kmi_scancode(&mut st, 0x12), None);
    assert_eq!(kmi_scancode(&mut st, 0x1E), Some(InputEvent::KeyPress { ascii: b'A' }));
    assert_eq!(kmi_scancode(&mut st, 0x02), Some(InputEvent::KeyPress { ascii: b'!' }));
    // Beyond the shifted table the plain translation stands.
    assert_eq!(kmi_scancode(&mut st, 0x5F), Some(InputEvent::KeyPress { ascii: b'0' }));
    assert_eq!(kmi_scancode(&mut st, 0xF0), None);
    assert_eq!(kmi_scancode(&mut st, 0x12), None);
    assert_eq!(kmi_scancode(&mut st, 0x1E), Some(InputEvent::KeyPress { ascii: b'a' }));
    assert_eq!(kmi_scancode(&mut st, 0x59), None);
    assert_eq!(kmi_scancode(&mut st, 0x1E), Some(InputEvent::KeyPress { ascii: b'A' }));
}

#[test]
fn scancode_ring_translates_make_codes() {
    let mut b = ScancodeBuffer::new();
    assert_eq!(read_key_char(&mut b), None);
    b.push(0x1E);
    b.push(0x3B);
    b.push(0x1C);
    assert_eq!(read_key_char(&mut b), Some('a'));
    assert_eq!(read_key_char(&mut b), None);
    assert_eq!(read_key_char(&mut b), Some('\n'));
    assert_eq!(read_scancode(&mut b), None);
    for i in 0..40u8 {
        b.push(i);
    }
    let mut n = 0u8;
    while let Some(sc) = read_scancode(&mut b) {
        assert_eq!(sc, n);
        n += 1;
    }
    assert_eq!(n, 31);
    assert_eq!(scancode_to_char(0x39), Some(' '));
    assert_eq!(scancode_to_char(0x0E), Some('\u{8}'));
}

#[test]
fn serial_output_adds_carriage_returns() {
    assert_eq!(puts("a\nb"), vec![b'a', b'\r', b'\n', b'b']);
    assert_eq!(puts(""), Vec::<u8>::new());
    assert_eq!(puts("\n\n"), vec![13, 10, 13, 10]);
}

#[test]
fn virtio_net_is_not_wired_yet() {
    assert!(!send_packet(&[1, 2, 3]));
    let mut buf = [5u8; 4];
    assert_eq!(recv_packet(&mut buf), 0);
    assert_eq!(buf, [5; 4]);
}

#[test]
fn read_chars_takes_at_most_count() {
    let mut k = Ps2Keyboard::new();
    for sc in [0x1E, 0x30, 0x2E] {
        handle_scancode(&mut k, sc);
    }
    assert_eq!(read_chars(&mut k, 2), b"ab".to_vec());
    assert_eq!(read_chars(&mut k, 5), b"c".to_vec());
    assert_eq!(read_chars(&mut k, 5), Vec::<u8>::new());
    handle_scancode(&mut k, 0x1E);
    assert_eq!(read_chars(&mut k, 0), Vec::<u8>::new());
    assert!(has_char(&k));
}
