//! UDP datagrams.
use vstd::prelude::*;
use crate::net::{le16, read_le16};

verus! {

/// A UDP header; fields as stored (network order, read little-endian).
#[derive(Clone, Copy, PartialEq, Eq, Structural, Debug)]
pub struct UdpHeader {
    pub src_port: u16,
    pub dst_port: u16,
    pub len: u16,
    pub checksum: u16,
}

/// Length of a UDP header in bytes.
pub const UDP_HEADER_LEN: usize = 8;

/// Split a datagram into its header and payload; `None` when it is shorter
/// than a header.
pub fn parse(data: &[u8]) -> (r: Option<(UdpHeader, &[u8])>)
    ensures
        data@.len() < UDP_HEADER_LEN ==> r is None,
        data@.len() >= UDP_HEADER_LEN ==> (r matches Some((h, payload)) && h == (UdpHeader {
            src_port: le16(data@[0], data@[1]),
            dst_port: le16(data@[2], data@[3]),
            len: le16(data@[4], data@[5]),
            checksum: le16(data@[6], data@[7]),
        }) && payload@ == data@.skip(8)),
{
    if data.len() < UDP_HEADER_LEN {
        return None;
    }
    let hdr = UdpHeader {
        src_port: read_le16(data, 0),
        dst_port: read_le16(data, 2),
        len: read_le16(data, 4),
        checksum: read_le16(data, 6),
    };
    let payload = vstd::slice::slice_subrange(data, UDP_HEADER_LEN, data.len());
    Some((hdr, payload))
}

} // verus!
