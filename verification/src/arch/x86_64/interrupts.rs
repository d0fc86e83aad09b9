//! x86_64 keyboard input: the ring of raw scancodes the keyboard interrupt
//! fills, and their translation to characters (US QWERTY).
use vstd::prelude::*;

verus! {

/// Size of the scancode ring; one place always stays empty.
pub const KEYBOARD_BUF_SIZE: usize = 32;

/// Scancodes received, oldest at `head`; `tail` is the next free place.
pub struct ScancodeBuffer {
    buf: [u8; 32],
    head: usize,
    tail: usize,
}

impl ScancodeBuffer {
    /// Well-formedness: both ends are positions of the ring.
    pub closed spec fn wf(&self) -> bool {
        self.head < KEYBOARD_BUF_SIZE && self.tail < KEYBOARD_BUF_SIZE
    }

    /// The scancodes waiting, oldest first.
    pub closed spec fn pending(&self) -> Seq<u8> {
        Seq::new(
            ((self.tail - self.head + 32) % 32) as nat,
            |i: int| self.buf@[(self.head + i) % 32],
        )
    }

    /// An empty ring.
    pub fn new() -> (b: Self)
        ensures
            b.wf(),
            b.pending() == Seq::<u8>::empty(),
    {
        let b = ScancodeBuffer { buf: [0; 32], head: 0, tail: 0 };
        assert(b.pending() =~= Seq::<u8>::empty());
        b
    }

    /// Store a scancode read by the keyboard interrupt; dropped when the
    /// ring already holds `KEYBOARD_BUF_SIZE - 1` scancodes.
    pub fn push(&mut self, scancode: u8)
        requires
            old(self).wf(),
        ensures
            final(self).wf(),
            old(self).pending().len() < KEYBOARD_BUF_SIZE - 1 ==> final(self).pending() == old(
                self,
            ).pending().push(scancode),
            old(self).pending().len() >= KEYBOARD_BUF_SIZE - 1 ==> final(self).pending() == old(
                self,
            ).pending(),
    {
        let next = (self.tail + 1) % KEYBOARD_BUF_SIZE;
        if next != self.head {
            let ghost before = self.pending();
            self.buf[self.tail] = scancode;
            self.tail = next;
            assert forall|i: int| 0 <= i < before.len() implies #[trigger] self.pending()[i] == before[i] by {
                assert((old(self).head + i) % 32 != old(self).tail as int);
            }
            assert(self.pending() =~= before.push(scancode));
        }
    }
}

/// Take the oldest scancode, if any.
pub fn read_scancode(b: &mut ScancodeBuffer) -> (sc: Option<u8>)
    requires
        old(b).wf(),
    ensures
        final(b).wf(),
        old(b).pending().len() == 0 ==> sc is None && final(b).pending() == old(b).pending(),
        old(b).pending().len() > 0 ==> sc == Some(old(b).pending()[0]) && final(b).pending() == old(
            b,
        ).pending().drop_first(),
{
    if b.head == b.tail {
        return None;
    }
    let scancode = b.buf[b.head];
    b.head = (b.head + 1) % KEYBOARD_BUF_SIZE;
    assert(b.pending() =~= old(b).pending().drop_first());
    Some(scancode)
}

/// The character of a make code: Escape, Backspace, Enter, Space, the
/// digit row and the letters; `None` for every other scancode.
pub open spec fn scancode_char(sc: u8) -> Option<char> {
    match sc {
        0x01 => Some('\u{1B}'),
        0x0E => Some('\u{8}'),
        0x1C => Some('\n'),
        0x39 => Some(' '),
        0x02 => Some('1'),
        0x03 => Some('2'),
        0x04 => Some('3'),
        0x05 => Some('4'),
        0x06 => Some('5'),
        0x07 => Some('6'),
        0x08 => Some('7'),
        0x09 => Some('8'),
        0x0A => Some('9'),
        0x0B => Some('0'),
        0x10 => Some('q'),
        0x11 => Some('w'),
        0x12 => Some('e'),
        0x13 => Some('r'),
        0x14 => Some('t'),
        0x15 => Some('y'),
        0x16 => Some('u'),
        0x17 => Some('i'),
        0x18 => Some('o'),
        0x19 => Some('p'),
        0x1E => Some('a'),
        0x1F => Some('s'),
        0x20 => Some('d'),
        0x21 => Some('f'),
        0x22 => Some('g'),
        0x23 => Some('h'),
        0x24 => Some('j'),
        0x25 => Some('k'),
        0x26 => Some('l'),
        0x2C => Some('z'),
        0x2D => Some('x'),
        0x2E => Some('c'),
        0x2F => Some('v'),
        0x30 => Some('b'),
        0x31 => Some('n'),
        0x32 => Some('m'),
        _ => None,
    }
}

/// Translate one scancode (see [`scancode_char`]).
pub fn scancode_to_char(sc: u8) -> (c: Option<char>)
    ensures
        c == scancode_char(sc),
{
    let ascii = match sc {
        0x01 => '\u{1B}',
        0x0E => '\u{8}',
        0x1C => '\n',
        0x39 => ' ',
        0x02 => '1',
        0x03 => '2',
        0x04 => '3',
        0x05 => '4',
        0x06 => '5',
        0x07 => '6',
        0x08 => '7',
        0x09 => '8',
        0x0A => '9',
        0x0B => '0',
        0x10 => 'q',
        0x11 => 'w',
        0x12 => 'e',
        0x13 => 'r',
        0x14 => 't',
        0x15 => 'y',
        0x16 => 'u',
        0x17 => 'i',
        0x18 => 'o',
        0x19 => 'p',
        0x1E => 'a',
        0x1F => 's',
        0x20 => 'd',
        0x21 => 'f',
        0x22 => 'g',
        0x23 => 'h',
        0x24 => 'j',
        0x25 => 'k',
        0x26 => 'l',
        0x2C => 'z',
        0x2D => 'x',
        0x2E => 'c',
        0x2F => 'v',
        0x30 => 'b',
        0x31 => 'n',
        0x32 => 'm',
        _ => return None,
    };
    Some(ascii)
}

/// Read a character: takes the oldest scancode and translates it; `None`
/// when no scancode is waiting or the one taken has no character (it is
/// consumed all the same).
pub fn read_char(b: &mut ScancodeBuffer) -> (c: Option<char>)
    requires
        old(b).wf(),
    ensures
        final(b).wf(),
        old(b).pending().len() == 0 ==> c is None && final(b).pending() == old(b).pending(),
        old(b).pending().len() > 0 ==> c == scancode_char(old(b).pending()[0]) && final(b).pending()
            == old(b).pending().drop_first(),
{
    let scancode = read_scancode(b)?;
    scancode_to_char(scancode)
}

} // verus!
