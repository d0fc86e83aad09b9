//! 16550 serial console output: the bytes a string becomes on the line.
use vstd::prelude::*;
use vstd::string::StringSliceAdditionalSpecFns;

verus! {

/// The bytes sent for `s`: each byte as is, with a carriage return before
/// every line feed.
pub open spec fn serial_bytes(s: Seq<u8>) -> Seq<u8>
    decreases s.len(),
{
    if s.len() == 0 {
        Seq::empty()
    } else {
        serial_bytes(s.drop_last()) + if s.last() == 10 {
            seq![13u8, 10u8]
        } else {
            seq![s.last()]
        }
    }
}

/// The bytes writing `s` to the serial port transmits, in order.
pub fn puts(s: &str) -> (out: Vec<u8>)
    ensures
        out@ == serial_bytes(s.spec_bytes()),
{
    let bytes = s.as_bytes();
    let mut out: Vec<u8> = Vec::new();
    let mut i: usize = 0;
    while i < bytes.len()
        invariant
            i <= bytes@.len(),
            out@ == serial_bytes(bytes@.take(i as int)),
        decreases bytes@.len() - i,
    {
        let c = bytes[i];
        if c == 10 {
            out.push(13);
        }
        out.push(c);
        assert(bytes@.take(i + 1).drop_last() == bytes@.take(i as int));
        i += 1;
        assert(out@ =~= serial_bytes(bytes@.take(i as int)));
    }
    assert(bytes@.take(bytes@.len() as int) == bytes@);
    out
}

} // verus!
