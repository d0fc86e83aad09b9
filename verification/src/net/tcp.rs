//! TCP segments.
use vstd::prelude::*;
use crate::net::{le16, le32, read_le16, read_le32};

verus! {

/// A TCP header; fields as stored (network order, read little-endian).
#[derive(Clone, Copy, PartialEq, Eq, Structural, Debug)]
pub struct TcpHeader {
    pub src_port: u16,
    pub dst_port: u16,
    pub seq_num: u32,
    pub ack_num: u32,
    pub data_offset_flags: u16,
    pub window: u16,
    pub checksum: u16,
    pub urgent: u16,
}

/// Length of the fixed part of a TCP header in bytes.
pub const TCP_HEADER_LEN: usize = 20;

/// Whether `h` is the header stored in the first 20 bytes of `data`.
pub open spec fn is_header_of(h: TcpHeader, data: Seq<u8>) -> bool {
    &&& h.src_port == le16(data[0], data[1])
    &&& h.dst_port == le16(data[2], data[3])
    &&& h.seq_num == le32(data[4], data[5], data[6], data[7])
    &&& h.ack_num == le32(data[8], data[9], data[10], data[11])
    &&& h.data_offset_flags == le16(data[12], data[13])
    &&& h.window == le16(data[14], data[15])
    &&& h.checksum == le16(data[16], data[17])
    &&& h.urgent == le16(data[18], data[19])
}

/// Header length in bytes: the data offset, the top four bits of byte 12
/// of the segment (the first byte of `data_offset_flags` on the wire), in
/// 32-bit words.
pub open spec fn header_len(offset_byte: u8) -> int {
    (offset_byte / 16) * 4
}

/// Split a segment into its header and payload (which starts after the
/// header length, see [`header_len`]); `None` when the segment is shorter
/// than the fixed header or than that length.
pub fn parse(data: &[u8]) -> (r: Option<(TcpHeader, &[u8])>)
    ensures
        data@.len() < TCP_HEADER_LEN ==> r is None,
        data@.len() >= TCP_HEADER_LEN ==> match r {
            None => data@.len() < header_len(data@[12]),
            Some((h, payload)) => data@.len() >= header_len(data@[12]) && is_header_of(h, data@)
                && payload@ == data@.skip(header_len(data@[12])),
        },
{
    if data.len() < TCP_HEADER_LEN {
        return None;
    }
    let hdr = TcpHeader {
        src_port: read_le16(data, 0),
        dst_port: read_le16(data, 2),
        seq_num: read_le32(data, 4),
        ack_num: read_le32(data, 8),
        data_offset_flags: read_le16(data, 12),
        window: read_le16(data, 14),
        checksum: read_le16(data, 16),
        urgent: read_le16(data, 18),
    };
    let offset_byte = data[12];
    assert((offset_byte >> 4u8) == offset_byte / 16) by (bit_vector);
    let hdr_len = (offset_byte >> 4u8) as usize * 4;
    if data.len() < hdr_len {
        return None;
    }
    let payload = vstd::slice::slice_subrange(data, hdr_len, data.len());
    Some((hdr, payload))
}

} // verus!
