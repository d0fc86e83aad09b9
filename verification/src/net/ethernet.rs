//! Ethernet II frames.
use vstd::prelude::*;
use crate::net::{le16, read_le16, read_6};

verus! {

pub const ETHERTYPE_IPV4: u16 = 0x0800;
pub const ETHERTYPE_ARP: u16 = 0x0806;
pub const ETHERTYPE_IPV6: u16 = 0x86DD;

/// Length of an Ethernet header in bytes.
pub const ETHERNET_HEADER_LEN: usize = 14;

/// An Ethernet header; `ethertype` is kept as the frame stores it (network
/// byte order, read little-endian).
#[derive(Clone, Copy, Debug)]
pub struct EthernetHeader {
    pub dst_mac: [u8; 6],
    pub src_mac: [u8; 6],
    pub ethertype: u16,
}

/// `x` with its two bytes exchanged: conversion between host order (little
/// endian) and network order.
pub open spec fn swap16(x: u16) -> u16 {
    ((x % 256) * 256 + x / 256) as u16
}

/// Exchange the two bytes of `x`.
pub fn byte_swap16(x: u16) -> (r: u16)
    ensures
        r == swap16(x),
{
    (x % 256) * 256 + x / 256
}

impl EthernetHeader {
    /// A header for a frame from `src` to `dst` carrying `ethertype`
    /// (given in host order).
    pub fn new(dst: [u8; 6], src: [u8; 6], ethertype: u16) -> (h: Self)
        ensures
            h == (EthernetHeader { dst_mac: dst, src_mac: src, ethertype: swap16(ethertype) }),
    {
        Self { dst_mac: dst, src_mac: src, ethertype: byte_swap16(ethertype) }
    }

    /// The ethertype in host order.
    pub fn ethertype(&self) -> (t: u16)
        ensures
            t == swap16(self.ethertype),
    {
        byte_swap16(self.ethertype)
    }
}



/// Split a frame into its header and payload; `None` when it is shorter
/// than a header.
pub fn parse(data: &[u8]) -> (r: Option<(EthernetHeader, &[u8])>)
    ensures
        data@.len() < ETHERNET_HEADER_LEN ==> r is None,
        data@.len() >= ETHERNET_HEADER_LEN ==> (r matches Some((h, payload)) && h.dst_mac@
            == data@.subrange(0, 6) && h.src_mac@ == data@.subrange(6, 12) && h.ethertype == le16(
            data@[12],
            data@[13],
        ) && payload@ == data@.skip(14)),
{
    if data.len() < ETHERNET_HEADER_LEN {
        return None;
    }
    let hdr = EthernetHeader {
        dst_mac: read_6(data, 0),
        src_mac: read_6(data, 6),
        ethertype: read_le16(data, 12),
    };
    let payload = vstd::slice::slice_subrange(data, ETHERNET_HEADER_LEN, data.len());
    assert(payload@ == data@.skip(14));
    Some((hdr, payload))
}

/// A header built for an ethertype reports that ethertype back: the byte
/// swap is its own inverse.
pub proof fn lemma_ethertype_roundtrip(t: u16)
    ensures
        swap16(swap16(t)) == t,
{
}

} // verus!
