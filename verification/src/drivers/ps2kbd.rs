//! PS/2 keyboard (scancode set 1): translation of scancodes to ASCII and
//! the buffer of typed characters.
use vstd::prelude::*;

verus! {

/// Capacity of the character ring; one place always stays empty, so it
/// holds at most `KB_BUF_SIZE - 1` characters.
pub const KB_BUF_SIZE: usize = 256;

/// Scancode set 1 to ASCII (US layout), without shift: the main block,
/// and of the keypad only its operators and its point.
pub const SCANCODE_TABLE: [u8; 96] = [
    0, 27, 49, 50, 51, 52, 53, 54, 55, 56, 57, 48, 45, 61, 8, 9,
    113, 119, 101, 114, 116, 121, 117, 105, 111, 112, 91, 93, 10, 0, 97, 115,
    100, 102, 103, 104, 106, 107, 108, 59, 39, 96, 0, 92, 122, 120, 99, 118,
    98, 110, 109, 44, 46, 47, 0, 42, 0, 32, 0, 0, 0, 0, 0, 0,
    0, 0, 0, 0, 0, 0, 0, 0, 0, 0, 45, 0, 0, 0, 43, 0,
    0, 0, 0, 46, 0, 0, 0, 0, 0, 0, 0, 0, 0, 0, 0, 0,
];

/// Scancode set 1 to ASCII (US layout), with shift held; keypad keys do
/// not change with shift.
pub const SCANCODE_SHIFT_TABLE: [u8; 96] = [
    0, 27, 33, 64, 35, 36, 37, 94, 38, 42, 40, 41, 95, 43, 8, 9,
    81, 87, 69, 82, 84, 89, 85, 73, 79, 80, 123, 125, 10, 0, 65, 83,
    68, 70, 71, 72, 74, 75, 76, 58, 34, 126, 0, 124, 90, 88, 67, 86,
    66, 78, 77, 60, 62, 63, 0, 42, 0, 32, 0, 0, 0, 0, 0, 0,
    0, 0, 0, 0, 0, 0, 0, 0, 0, 0, 45, 0, 0, 0, 43, 0,
    0, 0, 0, 46, 0, 0, 0, 0, 0, 0, 0, 0, 0, 0, 0, 0,
];

/// Bit set in the scancode of a key release.
pub const KEY_RELEASE: u8 = 0x80;
/// Left shift pressed.
pub const LSHIFT: u8 = 0x2A;
/// Right shift pressed.
pub const RSHIFT: u8 = 0x36;
/// Caps lock pressed.
pub const CAPS_KEY: u8 = 0x3A;

/// Ring buffer of typed characters: `tail` is the oldest, `head` the next
/// free place.
pub struct KeyboardBuffer {
    buffer: [u8; 256],
    head: usize,
    tail: usize,
}

/// Number of characters in a ring with these ends.
pub open spec fn ring_len(head: int, tail: int, size: int) -> int {
    (head - tail + size) % size
}

impl KeyboardBuffer {
    /// Well-formedness: both ends are positions of the ring.
    pub closed spec fn wf(&self) -> bool {
        self.head < KB_BUF_SIZE && self.tail < KB_BUF_SIZE
    }

    /// The buffered characters, oldest first.
    pub closed spec fn chars(&self) -> Seq<u8> {
        Seq::new(
            ring_len(self.head as int, self.tail as int, 256) as nat,
            |i: int| self.buffer@[(self.tail + i) % 256],
        )
    }

    /// An empty buffer.
    pub fn new() -> (b: Self)
        ensures
            b.wf(),
            b.chars() == Seq::<u8>::empty(),
    {
        let b = Self { buffer: [0; 256], head: 0, tail: 0 };
        assert(b.chars() =~= Seq::<u8>::empty());
        b
    }

    /// Append `byte`; when the buffer already holds `KB_BUF_SIZE - 1`
    /// characters it is dropped.
    pub fn push(&mut self, byte: u8)
        requires
            old(self).wf(),
        ensures
            final(self).wf(),
            old(self).chars().len() < KB_BUF_SIZE - 1 ==> final(self).chars() == old(self).chars().push(byte),
            old(self).chars().len() >= KB_BUF_SIZE - 1 ==> final(self).chars() == old(self).chars(),
    {
        let next = (self.head + 1) % KB_BUF_SIZE;
        if next != self.tail {
            let ghost old_chars = self.chars();
            self.buffer[self.head] = byte;
            self.head = next;
            assert forall|i: int| 0 <= i < old_chars.len() implies #[trigger] self.chars()[i] == old_chars[i] by {
                assert((old(self).tail + i) % 256 != old(self).head as int);
            }
            assert(self.chars() =~= old_chars.push(byte));
        }
    }

    /// Remove and return the oldest character, if any.
    pub fn pop(&mut self) -> (c: Option<u8>)
        requires
            old(self).wf(),
        ensures
            final(self).wf(),
            old(self).chars().len() == 0 ==> c is None && final(self).chars() == old(self).chars(),
            old(self).chars().len() > 0 ==> c == Some(old(self).chars()[0]) && final(self).chars()
                == old(self).chars().drop_first(),
    {
        if self.head == self.tail {
            None
        } else {
            let byte = self.buffer[self.tail];
            self.tail = (self.tail + 1) % KB_BUF_SIZE;
            assert(self.chars() =~= old(self).chars().drop_first());
            Some(byte)
        }
    }

    /// Whether a character is waiting.
    pub fn is_nonempty(&self) -> (b: bool)
        requires
            self.wf(),
        ensures
            b == (self.chars().len() > 0),
    {
        self.head != self.tail
    }
}

/// The keyboard driver: typed characters and the modifier state.
pub struct Ps2Keyboard {
    pub buffer: KeyboardBuffer,
    pub shift: bool,
    pub caps: bool,
}

impl Ps2Keyboard {
    /// Empty buffer, no modifier active.
    pub fn new() -> (k: Self)
        ensures
            k.buffer.wf(),
            k.buffer.chars() == Seq::<u8>::empty(),
            !k.shift,
            !k.caps,
    {
        Ps2Keyboard { buffer: KeyboardBuffer::new(), shift: false, caps: false }
    }
}

/// ASCII of a key-press scancode under the given modifiers: the shifted
/// table with shift held, else the plain table with letters upper-cased
/// under caps lock; 0 for scancodes beyond the tables.
pub open spec fn ps2_ascii(scancode: u8, shift: bool, caps: bool) -> u8 {
    if scancode < 96 {
        let c = SCANCODE_TABLE@[scancode as int];
        if shift {
            SCANCODE_SHIFT_TABLE@[scancode as int]
        } else if caps && 97 <= c <= 122 {
            (c - 32) as u8
        } else {
            c
        }
    } else {
        0
    }
}

/// Read a buffered character, if any.
pub fn read_char(kbd: &mut Ps2Keyboard) -> (c: Option<u8>)
    requires
        old(kbd).buffer.wf(),
    ensures
        final(kbd).buffer.wf(),
        final(kbd).shift == old(kbd).shift,
        final(kbd).caps == old(kbd).caps,
        old(kbd).buffer.chars().len() == 0 ==> c is None && final(kbd).buffer.chars() == old(
            kbd,
        ).buffer.chars(),
        old(kbd).buffer.chars().len() > 0 ==> c == Some(old(kbd).buffer.chars()[0])
            && final(kbd).buffer.chars() == old(kbd).buffer.chars().drop_first(),
{
    kbd.buffer.pop()
}

/// Take up to `count` buffered characters, oldest first: as many as are
/// waiting, but no more than `count`.
pub fn read_chars(kbd: &mut Ps2Keyboard, count: usize) -> (keys: Vec<u8>)
    requires
        old(kbd).buffer.wf(),
    ensures
        final(kbd).buffer.wf(),
        final(kbd).shift == old(kbd).shift,
        final(kbd).caps == old(kbd).caps,
        keys@.len() == if count < old(kbd).buffer.chars().len() {
            count as int
        } else {
            old(kbd).buffer.chars().len() as int
        },
        keys@ == old(kbd).buffer.chars().take(keys@.len() as int),
        final(kbd).buffer.chars() == old(kbd).buffer.chars().skip(keys@.len() as int),
{
    let mut keys: Vec<u8> = Vec::new();
    while keys.len() < count
        invariant_except_break
            kbd.buffer.wf(),
            kbd.shift == old(kbd).shift,
            kbd.caps == old(kbd).caps,
            keys@.len() <= count,
            keys@.len() <= old(kbd).buffer.chars().len(),
            keys@ == old(kbd).buffer.chars().take(keys@.len() as int),
            kbd.buffer.chars() == old(kbd).buffer.chars().skip(keys@.len() as int),
        ensures
            kbd.buffer.wf(),
            kbd.shift == old(kbd).shift,
            kbd.caps == old(kbd).caps,
            keys@.len() == if count < old(kbd).buffer.chars().len() {
                count as int
            } else {
                old(kbd).buffer.chars().len() as int
            },
            keys@ == old(kbd).buffer.chars().take(keys@.len() as int),
            kbd.buffer.chars() == old(kbd).buffer.chars().skip(keys@.len() as int),
        decreases count - keys@.len(),
    {
        match read_char(kbd) {
            Some(c) => {
                keys.push(c);
                assert(keys@ =~= old(kbd).buffer.chars().take(keys@.len() as int));
                assert(kbd.buffer.chars() =~= old(kbd).buffer.chars().skip(keys@.len() as int));
            },
            None => break,
        }
    }
    keys
}

/// Whether a character is waiting.
pub fn has_char(kbd: &Ps2Keyboard) -> (b: bool)
    requires
        kbd.buffer.wf(),
    ensures
        b == (kbd.buffer.chars().len() > 0),
{
    kbd.buffer.is_nonempty()
}

/// Handle a scancode from the keyboard interrupt. Shift presses and
/// releases and caps lock update the modifiers; other releases are ignored.
/// A press is translated (see [`ps2_ascii`]); the result, which the caller
/// passes to the registered handler, is returned, and a nonzero character
/// is buffered.
pub fn handle_scancode(kbd: &mut Ps2Keyboard, scancode: u8) -> (handed: Option<u8>)
    requires
        old(kbd).buffer.wf(),
    ensures
        final(kbd).buffer.wf(),
        scancode == LSHIFT || scancode == RSHIFT ==> handed is None && final(kbd).shift
            && final(kbd).caps == old(kbd).caps && final(kbd).buffer.chars() == old(kbd).buffer.chars(),
        scancode == (LSHIFT | KEY_RELEASE) || scancode == (RSHIFT | KEY_RELEASE) ==> handed is None
            && !final(kbd).shift && final(kbd).caps == old(kbd).caps && final(kbd).buffer.chars()
            == old(kbd).buffer.chars(),
        scancode == CAPS_KEY ==> handed is None && final(kbd).shift == old(kbd).shift
            && final(kbd).caps == !old(kbd).caps && final(kbd).buffer.chars() == old(kbd).buffer.chars(),
        scancode != LSHIFT && scancode != RSHIFT && scancode != (LSHIFT | KEY_RELEASE) && scancode != (
        RSHIFT | KEY_RELEASE) && scancode != CAPS_KEY ==> {
            &&& final(kbd).shift == old(kbd).shift
            &&& final(kbd).caps == old(kbd).caps
            &&& if scancode >= KEY_RELEASE {
                handed is None && final(kbd).buffer.chars() == old(kbd).buffer.chars()
            } else {
                let a = ps2_ascii(scancode, old(kbd).shift, old(kbd).caps);
                &&& handed == Some(a)
                &&& final(kbd).buffer.chars() == if a != 0 && old(kbd).buffer.chars().len() < KB_BUF_SIZE - 1 {
                    old(kbd).buffer.chars().push(a)
                } else {
                    old(kbd).buffer.chars()
                }
            }
        },
{
    assert((LSHIFT | KEY_RELEASE) == 0xAA && (RSHIFT | KEY_RELEASE) == 0xB6) by (bit_vector);
    if scancode == LSHIFT || scancode == RSHIFT {
        kbd.shift = true;
        return None;
    }
    if scancode == (LSHIFT | KEY_RELEASE) || scancode == (RSHIFT | KEY_RELEASE) {
        kbd.shift = false;
        return None;
    }
    if scancode == CAPS_KEY {
        kbd.caps = !kbd.caps;
        return None;
    }
    assert((scancode & KEY_RELEASE != 0) == (scancode >= 128)) by (bit_vector);
    if scancode & KEY_RELEASE != 0 {
        return None;
    }
    let ascii = if (scancode as usize) < SCANCODE_TABLE.len() {
        let idx = scancode as usize;
        let mut c = SCANCODE_TABLE[idx];
        if kbd.shift {
            if idx < SCANCODE_SHIFT_TABLE.len() {
                c = SCANCODE_SHIFT_TABLE[idx];
            }
        } else if kbd.caps && c >= 97 && c <= 122 {
            c = c - 32;
        }
        c
    } else {
        0
    };
    if ascii != 0 {
        kbd.buffer.push(ascii);
    }
    Some(ascii)
}

/// The ring never holds more than `KB_BUF_SIZE - 1` characters.
pub proof fn lemma_keyboard_ring_bound(b: &KeyboardBuffer)
    requires
        b.wf(),
    ensures
        b.chars().len() < KB_BUF_SIZE,
{
}

} // verus!
