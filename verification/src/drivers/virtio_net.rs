//! Virtio network device. The virtqueues are not set up yet, so nothing is
//! ever sent or received.
use vstd::prelude::*;

verus! {

/// Send a packet: not supported yet, always false.
pub fn send_packet(_data: &[u8]) -> (sent: bool)
    ensures
        !sent,
{
    false
}

/// Receive a packet into `buf`: nothing arrives yet, always 0 bytes.
pub fn recv_packet(buf: &mut [u8]) -> (n: usize)
    ensures
        n == 0,
        final(buf)@ == old(buf)@,
{
    0
}

} // verus!
