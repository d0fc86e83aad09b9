//! PL050 keyboard/mouse interface (AArch64 QEMU virt): decoding of PS/2
//! mouse packets and keyboard scancodes into input events.
use vstd::prelude::*;
use crate::input::InputEvent;

verus! {

/// Pointer position and button state.
#[derive(Clone, Copy, PartialEq, Eq, Structural, Debug)]
pub struct MouseState {
    pub x: u16,
    pub y: u16,
    pub left: bool,
    pub right: bool,
    pub middle: bool,
}

impl Default for MouseState {
    fn default() -> (m: Self)
        ensures
            m == (MouseState { x: 0, y: 0, left: false, right: false, middle: false }),
    {
        MouseState { x: 0, y: 0, left: false, right: false, middle: false }
    }
}

/// A coordinate after a move: negative results stop at 0, and the value is
/// then stored in 16 bits (larger values wrap).
pub open spec fn moved_coord(v: int) -> u16 {
    if v < 0 {
        0
    } else {
        v as u16
    }
}

/// Mouse state after a packet with button byte `buttons` and movement
/// `(dx, dy)`: bit 0, 1, 2 give left, right, middle; x grows with `dx`, y
/// shrinks with `dy` (PS/2 y points up, the screen's down).
pub open spec fn decoded(state: MouseState, buttons: u8, dx: i8, dy: i8) -> MouseState {
    MouseState {
        x: moved_coord(state.x + dx),
        y: moved_coord(state.y - dy),
        left: buttons & 0x01 != 0,
        right: buttons & 0x02 != 0,
        middle: buttons & 0x04 != 0,
    }
}

/// Apply one three-byte movement packet to `state`.
pub fn decode_packet(state: &mut MouseState, buttons: u8, dx: i8, dy: i8)
    ensures
        *final(state) == decoded(*old(state), buttons, dx, dy),
{
    state.left = buttons & 0x01 != 0;
    state.right = buttons & 0x02 != 0;
    state.middle = buttons & 0x04 != 0;
    let nx: i32 = state.x as i32 + dx as i32;
    let ny: i32 = state.y as i32 - dy as i32;
    state.x = if nx < 0 { 0 } else { nx as u16 };
    state.y = if ny < 0 { 0 } else { ny as u16 };
}

/// Button byte of a state: bit 0 left, bit 1 right, bit 2 middle.
pub open spec fn buttons_byte(s: MouseState) -> u8 {
    ((if s.left { 1u8 } else { 0u8 }) | (if s.right { 2u8 } else { 0u8 }) | (if s.middle { 4u8 } else { 0u8 })) as u8
}

/// Event for button `b` going from `was` to `now` at `(x, y)`, if it changed.
pub open spec fn button_change(b: u8, was: bool, now: bool, x: u16, y: u16) -> Seq<InputEvent> {
    if now && !was {
        seq![InputEvent::MouseDown { button: b, x, y }]
    } else if !now && was {
        seq![InputEvent::MouseUp { button: b, x, y }]
    } else {
        seq![]
    }
}

/// Events a completed packet produces: a move to the new position, then a
/// press or release for each of left, right, middle whose state changed.
pub open spec fn packet_events(prev: MouseState, now: MouseState) -> Seq<InputEvent> {
    seq![InputEvent::MouseMove { x: now.x, y: now.y, buttons: buttons_byte(now) }]
        + button_change(0, prev.left, now.left, now.x, now.y)
        + button_change(1, prev.right, now.right, now.x, now.y)
        + button_change(2, prev.middle, now.middle, now.x, now.y)
}

/// Whether button `b` (0 left, 1 right, 2 middle) is down in `s`.
pub open spec fn pressed(s: MouseState, b: u8) -> bool {
    if b == 0 {
        s.left
    } else if b == 1 {
        s.right
    } else {
        s.middle
    }
}

/// The button a press or release event names.
pub open spec fn event_button(e: InputEvent) -> Option<u8> {
    match e {
        InputEvent::MouseDown { button, .. } => Some(button),
        InputEvent::MouseUp { button, .. } => Some(button),
        _ => None,
    }
}

/// 1 when button `b` changed between `prev` and `now`, else 0.
pub open spec fn changed_count(prev: MouseState, now: MouseState, b: u8) -> int {
    if pressed(prev, b) != pressed(now, b) {
        1
    } else {
        0
    }
}

/// The events of a completed packet: first the move to the new position,
/// then one event for each of the three buttons whose state changed, and
/// no other: a press (`MouseDown`) of a button that went down or a release
/// (`MouseUp`) of one that went up, naming that button, at the new
/// position, in button order.
pub proof fn lemma_packet_events_per_button(prev: MouseState, now: MouseState)
    ensures
        ({
            let ev = packet_events(prev, now);
            &&& ev.len() == 1 + changed_count(prev, now, 0) + changed_count(prev, now, 1)
                + changed_count(prev, now, 2)
            &&& ev[0] matches InputEvent::MouseMove { x, y, buttons } && x == now.x && y == now.y
                && buttons == (if now.left { 1int } else { 0int }) + (if now.right { 2int } else { 0int })
                + (if now.middle { 4int } else { 0int })
            &&& forall|b: u8|
                b < 3 ==> (pressed(prev, b) != pressed(now, b) <==> exists|i: int|
                    1 <= i < ev.len() && #[trigger] event_button(ev[i]) == Some(b))
            &&& forall|i: int|
                1 <= i < ev.len() ==> match #[trigger] ev[i] {
                    InputEvent::MouseDown { button, x, y } => button < 3 && pressed(now, button)
                        && !pressed(prev, button) && x == now.x && y == now.y,
                    InputEvent::MouseUp { button, x, y } => button < 3 && !pressed(now, button)
                        && pressed(prev, button) && x == now.x && y == now.y,
                    _ => false,
                }
            &&& forall|i: int, j: int|
                1 <= i < j < ev.len() ==> event_button(#[trigger] ev[i])->0 < event_button(
                    #[trigger] ev[j],
                )->0
        }),
{
    let ev = packet_events(prev, now);
    let (l, r, m) = (now.left, now.right, now.middle);
    assert(((if l { 1u8 } else { 0u8 }) | (if r { 2u8 } else { 0u8 }) | (if m { 4u8 } else { 0u8 }))
        == (if l { 1u8 } else { 0u8 }) + (if r { 2u8 } else { 0u8 }) + (if m { 4u8 } else { 0u8 }))
        by (bit_vector);
    let c0 = button_change(0, prev.left, now.left, now.x, now.y);
    let c1 = button_change(1, prev.right, now.right, now.x, now.y);
    let c2 = button_change(2, prev.middle, now.middle, now.x, now.y);
    let head = seq![InputEvent::MouseMove { x: now.x, y: now.y, buttons: buttons_byte(now) }];
    assert(ev == head + c0 + c1 + c2);
    let n0 = c0.len() as int;
    let n1 = c1.len() as int;
    assert forall|i: int| 1 <= i < ev.len() implies ev[i] == if i < 1 + n0 {
        c0[i - 1]
    } else if i < 1 + n0 + n1 {
        c1[i - 1 - n0]
    } else {
        c2[i - 1 - n0 - n1]
    } by {}
    assert forall|b: u8| b < 3 implies (pressed(prev, b) != pressed(now, b) <==> exists|i: int|
        1 <= i < ev.len() && #[trigger] event_button(ev[i]) == Some(b)) by {
        if b == 0 && pressed(prev, b) != pressed(now, b) {
            assert(event_button(ev[1]) == Some(b));
        }
        if b == 1 && pressed(prev, b) != pressed(now, b) {
            assert(event_button(ev[1 + n0]) == Some(b));
        }
        if b == 2 && pressed(prev, b) != pressed(now, b) {
            assert(event_button(ev[1 + n0 + n1]) == Some(b));
        }
    }
}

/// Assembles PS/2 mouse bytes into packets: `phase` counts the bytes of the
/// current packet received so far.
pub struct MouseDecoder {
    pub phase: u8,
    pub byte1: u8,
    pub byte2: u8,
    pub state: MouseState,
}

impl MouseDecoder {
    /// No packet in progress; the pointer starts at (400, 300) with no
    /// button down.
    pub fn new() -> (d: Self)
        ensures
            d.phase == 0,
            d.byte1 == 0,
            d.byte2 == 0,
            d.state == (MouseState { x: 400, y: 300, left: false, right: false, middle: false }),
    {
        MouseDecoder {
            phase: 0,
            byte1: 0,
            byte2: 0,
            state: MouseState { x: 400, y: 300, left: false, right: false, middle: false },
        }
    }
}

/// Append an event.
fn emit(events: &mut Vec<InputEvent>, e: InputEvent)
    ensures
        final(events)@ == old(events)@.push(e),
{
    events.push(e);
}

/// Append the event for a button that changed, if it did.
fn emit_button(events: &mut Vec<InputEvent>, b: u8, was: bool, now: bool, x: u16, y: u16)
    ensures
        final(events)@ == old(events)@ + button_change(b, was, now, x, y),
{
    if now && !was {
        emit(events, InputEvent::MouseDown { button: b, x, y });
        assert(events@ =~= old(events)@ + button_change(b, was, now, x, y));
    } else if !now && was {
        emit(events, InputEvent::MouseUp { button: b, x, y });
        assert(events@ =~= old(events)@ + button_change(b, was, now, x, y));
    } else {
        assert(events@ =~= old(events)@ + button_change(b, was, now, x, y));
    }
}

/// Handle one byte from the mouse. The first byte of a packet must have
/// bit 3 set (bytes are skipped until one does); the third byte completes
/// the packet, which updates the state and yields its events (see
/// [`packet_events`]). Returns the events to queue, oldest first.
pub fn handle_mouse_byte(dec: &mut MouseDecoder, byte: u8) -> (events: Vec<InputEvent>)
    ensures
        old(dec).phase == 0 ==> events@ == Seq::<InputEvent>::empty() && final(dec).state == old(
            dec,
        ).state && final(dec).byte2 == old(dec).byte2 && if byte & 0x08 != 0 {
            final(dec).phase == 1 && final(dec).byte1 == byte
        } else {
            final(dec).phase == 0 && final(dec).byte1 == old(dec).byte1
        },
        old(dec).phase == 1 ==> events@ == Seq::<InputEvent>::empty() && *final(dec) == (MouseDecoder {
            phase: 2,
            byte2: byte,
            ..*old(dec)
        }),
        old(dec).phase == 2 ==> {
            let now = decoded(old(dec).state, old(dec).byte1, old(dec).byte2 as i8, byte as i8);
            &&& *final(dec) == (MouseDecoder { phase: 0, state: now, ..*old(dec) })
            &&& events@ == packet_events(old(dec).state, now)
        },
        old(dec).phase > 2 ==> events@ == Seq::<InputEvent>::empty() && *final(dec) == (MouseDecoder {
            phase: 0,
            ..*old(dec)
        }),
{
    let mut events: Vec<InputEvent> = Vec::new();
    if dec.phase == 0 {
        if byte & 0x08 != 0 {
            dec.byte1 = byte;
            dec.phase = 1;
        }
    } else if dec.phase == 1 {
        dec.byte2 = byte;
        dec.phase = 2;
    } else if dec.phase == 2 {
        let buttons = dec.byte1;
        let dx = dec.byte2;
        let dy = byte;
        let prev = dec.state;
        decode_packet(&mut dec.state, buttons, dx as i8, dy as i8);
        let now = dec.state;
        let buttons_byte: u8 = (if now.left { 1u8 } else { 0u8 }) | (if now.right { 2u8 } else { 0u8 }) | (
        if now.middle { 4u8 } else { 0u8 });
        emit(&mut events, InputEvent::MouseMove { x: now.x, y: now.y, buttons: buttons_byte });
        emit_button(&mut events, 0, prev.left, now.left, now.x, now.y);
        emit_button(&mut events, 1, prev.right, now.right, now.x, now.y);
        emit_button(&mut events, 2, prev.middle, now.middle, now.x, now.y);
        assert(events@ =~= packet_events(prev, now));
        dec.phase = 0;
    } else {
        dec.phase = 0;
    }
    events
}

/// The current pointer state.
pub fn get_mouse_state(dec: &MouseDecoder) -> (m: MouseState)
    ensures
        m == dec.state,
{
    dec.state
}

/// Scancode to ASCII, without shift.
pub const SCANCODE_TO_ASCII: [u8; 96] = [
    0, 27, 49, 50, 51, 52, 53, 54,
    55, 56, 57, 48, 45, 61, 8, 9,
    113, 119, 101, 114, 116, 121, 117, 105,
    111, 112, 91, 93, 10, 0, 97, 115,
    100, 102, 103, 104, 106, 107, 108, 59,
    39, 96, 0, 92, 122, 120, 99, 118,
    98, 110, 109, 44, 46, 47, 0, 0,
    0, 0, 0, 0, 0, 0, 0, 0,
    0, 0, 0, 0, 0, 0, 0, 0,
    0, 0, 0, 0, 0, 0, 0, 0,
    0, 0, 0, 0, 55, 56, 57, 0,
    52, 53, 54, 0, 49, 50, 51, 48,
];

/// Scancode to ASCII with shift held (shorter than the plain table).
pub const SCANCODE_TO_SHIFTED: [u8; 88] = [
    0, 27, 33, 64, 35, 36, 37, 94,
    38, 42, 40, 41, 95, 43, 8, 9,
    81, 87, 69, 82, 84, 89, 85, 73,
    79, 80, 123, 125, 10, 0, 65, 83,
    68, 70, 71, 72, 74, 75, 76, 58,
    34, 126, 0, 124, 90, 88, 67, 86,
    66, 78, 77, 60, 62, 63, 0, 0,
    0, 0, 0, 0, 0, 0, 0, 0,
    0, 0, 0, 0, 0, 0, 0, 0,
    0, 0, 0, 0, 55, 56, 57, 0,
    52, 53, 54, 0, 49, 50, 51, 48,
];

/// Keyboard state: the modifiers, and whether a release prefix (0xF0) was
/// just received, so that the next scancode is a key release.
pub struct KbdState {
    shift: bool,
    caps: bool,
    release_next: bool,
}

/// Left shift.
pub const KMI_LSHIFT: u8 = 0x12;
/// Right shift.
pub const KMI_RSHIFT: u8 = 0x59;
/// Caps lock.
pub const KMI_CAPS: u8 = 0x58;
/// Prefix of a key release: the next scancode names the released key.
pub const KMI_RELEASE_PREFIX: u8 = 0xF0;

impl KbdState {
    /// Whether shift is held.
    pub closed spec fn shift_held(&self) -> bool {
        self.shift
    }

    /// Whether caps lock is on.
    pub closed spec fn caps_lock(&self) -> bool {
        self.caps
    }

    /// Whether the next scancode is a key release.
    pub closed spec fn release_pending(&self) -> bool {
        self.release_next
    }

    /// No modifier active, no release pending.
    pub fn new() -> (k: Self)
        ensures
            !k.shift_held(),
            !k.caps_lock(),
            !k.release_pending(),
    {
        KbdState { shift: false, caps: false, release_next: false }
    }
}

/// ASCII of scancode `sc` (below 96) under the given modifiers: with
/// shift held the shifted table (the plain one beyond its end), else the
/// plain table with letters upper-cased under caps lock.
pub open spec fn kmi_ascii(sc: u8, shift: bool, caps: bool) -> u8 {
    let c = SCANCODE_TO_ASCII@[sc as int];
    if shift {
        if sc < 88 {
            SCANCODE_TO_SHIFTED@[sc as int]
        } else {
            c
        }
    } else if caps && 97 <= c <= 122 {
        (c - 32) as u8
    } else {
        c
    }
}

/// Handle a keyboard scancode. 0xF0 announces that the next scancode is a
/// key release: releasing a shift key releases shift, and no release
/// gives a key press or toggles caps lock. Otherwise a shift key (0x12,
/// 0x59) holds shift, caps lock (0x58) toggles, and other scancodes below
/// 96 with a nonzero translation give a key press.
pub fn handle_scancode(state: &mut KbdState, scancode: u8) -> (e: Option<InputEvent>)
    ensures
        final(state).caps_lock() == if scancode == KMI_CAPS && !old(state).release_pending() {
            !old(state).caps_lock()
        } else {
            old(state).caps_lock()
        },
        final(state).release_pending() == (scancode == KMI_RELEASE_PREFIX),
        final(state).shift_held() == if scancode == KMI_RELEASE_PREFIX || !(scancode == KMI_LSHIFT
            || scancode == KMI_RSHIFT) {
            old(state).shift_held()
        } else {
            !old(state).release_pending()
        },
        e == if scancode == KMI_RELEASE_PREFIX || old(state).release_pending() || scancode
            == KMI_LSHIFT || scancode == KMI_RSHIFT || scancode == KMI_CAPS || scancode >= 96
            || kmi_ascii(scancode, old(state).shift_held(), old(state).caps_lock()) == 0 {
            None
        } else {
            Some(
                InputEvent::KeyPress {
                    ascii: kmi_ascii(scancode, old(state).shift_held(), old(state).caps_lock()),
                },
            )
        },
{
    if scancode == KMI_RELEASE_PREFIX {
        state.release_next = true;
        return None;
    }
    if state.release_next {
        state.release_next = false;
        if scancode == KMI_LSHIFT || scancode == KMI_RSHIFT {
            state.shift = false;
        }
        return None;
    }
    if scancode == KMI_LSHIFT || scancode == KMI_RSHIFT {
        state.shift = true;
        return None;
    }
    if scancode == KMI_CAPS {
        state.caps = !state.caps;
        return None;
    }
    if (scancode as usize) < SCANCODE_TO_ASCII.len() {
        let mut ascii = SCANCODE_TO_ASCII[scancode as usize];
        if state.shift {
            if (scancode as usize) < SCANCODE_TO_SHIFTED.len() {
                ascii = SCANCODE_TO_SHIFTED[scancode as usize];
            }
        } else if state.caps && ascii >= 97 && ascii <= 122 {
            ascii -= 32;
        }
        if ascii != 0 {
            return Some(InputEvent::KeyPress { ascii });
        }
    }
    None
}

} // verus!
