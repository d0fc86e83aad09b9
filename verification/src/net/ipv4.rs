//! IPv4 packets.
use vstd::prelude::*;
use crate::net::{le16, read_le16, read_4};

verus! {

/// An IPv4 header; 16-bit fields as stored (network order, read
/// little-endian).
#[derive(Clone, Copy, Debug)]
pub struct IPv4Header {
    pub version_ihl: u8,
    pub dscp_ecn: u8,
    pub total_len: u16,
    pub identification: u16,
    pub flags_fragment: u16,
    pub ttl: u8,
    pub protocol: u8,
    pub checksum: u16,
    pub src_ip: [u8; 4],
    pub dst_ip: [u8; 4],
}

pub const PROTOCOL_ICMP: u8 = 1;
pub const PROTOCOL_TCP: u8 = 6;
pub const PROTOCOL_UDP: u8 = 17;

/// Length of the fixed part of an IPv4 header in bytes.
pub const IPV4_HEADER_LEN: usize = 20;

/// Whether `h` is the header stored in the first 20 bytes of `data`.
pub open spec fn is_header_of(h: IPv4Header, data: Seq<u8>) -> bool {
    &&& h.version_ihl == data[0]
    &&& h.dscp_ecn == data[1]
    &&& h.total_len == le16(data[2], data[3])
    &&& h.identification == le16(data[4], data[5])
    &&& h.flags_fragment == le16(data[6], data[7])
    &&& h.ttl == data[8]
    &&& h.protocol == data[9]
    &&& h.checksum == le16(data[10], data[11])
    &&& h.src_ip@ == data.subrange(12, 16)
    &&& h.dst_ip@ == data.subrange(16, 20)
}

/// Header length in bytes given by the IHL field (low nibble, in 32-bit
/// words).
pub open spec fn header_len(version_ihl: u8) -> int {
    (version_ihl % 16) * 4
}

/// Split a packet into its header and payload (which starts after the
/// IHL-given header length); `None` when the packet is shorter than the
/// fixed header or than that length.
pub fn parse(data: &[u8]) -> (r: Option<(IPv4Header, &[u8])>)
    ensures
        data@.len() < IPV4_HEADER_LEN ==> r is None,
        data@.len() >= IPV4_HEADER_LEN ==> match r {
            None => data@.len() < header_len(data@[0]),
            Some((h, payload)) => data@.len() >= header_len(data@[0]) && is_header_of(h, data@)
                && payload@ == data@.skip(header_len(data@[0])),
        },
{
    if data.len() < IPV4_HEADER_LEN {
        return None;
    }
    let hdr = IPv4Header {
        version_ihl: data[0],
        dscp_ecn: data[1],
        total_len: read_le16(data, 2),
        identification: read_le16(data, 4),
        flags_fragment: read_le16(data, 6),
        ttl: data[8],
        protocol: data[9],
        checksum: read_le16(data, 10),
        src_ip: read_4(data, 12),
        dst_ip: read_4(data, 16),
    };
    let vi = hdr.version_ihl;
    assert((vi & 0x0F) == vi % 16) by (bit_vector);
    let hdr_len = (hdr.version_ihl & 0x0F) as usize * 4;
    if data.len() < hdr_len {
        return None;
    }
    let payload = vstd::slice::slice_subrange(data, hdr_len, data.len());
    Some((hdr, payload))
}

} // verus!
