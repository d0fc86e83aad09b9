//! ARP (address resolution).
use vstd::prelude::*;

verus! {

/// An ARP packet as it lies on the wire.
#[derive(Clone, Copy, Debug)]
pub struct ArpHeader {
    pub hw_type: u16,
    pub proto_type: u16,
    pub hw_size: u8,
    pub proto_size: u8,
    pub opcode: u16,
    pub sender_mac: [u8; 6],
    pub sender_ip: [u8; 4],
    pub target_mac: [u8; 6],
    pub target_ip: [u8; 4],
}

pub const ARP_OPCODE_REQUEST: u16 = 1;
pub const ARP_OPCODE_REPLY: u16 = 2;

/// Length of an ARP packet in bytes.
pub const ARP_HEADER_LEN: usize = 28;

/// Accept an ARP packet (requests and replies are not answered yet):
/// `Some` exactly when it is long enough to hold the header.
pub fn handle_arp(data: &[u8]) -> (r: Option<()>)
    ensures
        r is Some <==> data@.len() >= ARP_HEADER_LEN,
{
    if data.len() < ARP_HEADER_LEN {
        return None;
    }
    Some(())
}

} // verus!
