//! Networking: header parsing and the dispatch of received frames.
//!
//! Multi-byte header fields hold the value a little-endian machine (the
//! kernel's targets, x86_64 and AArch64) reads from the wire bytes, as the
//! packed header structures do; network byte order is the byte-swapped
//! order.
use vstd::prelude::*;

pub mod arp;
pub mod ethernet;
pub mod ipv4;
pub mod tcp;
pub mod udp;

verus! {

/// The 16-bit value a little-endian read of bytes `b0, b1` gives.
pub open spec fn le16(b0: u8, b1: u8) -> u16 {
    (b0 + 256 * b1) as u16
}

/// The 32-bit value a little-endian read of bytes `b0..b3` gives.
pub open spec fn le32(b0: u8, b1: u8, b2: u8, b3: u8) -> u32 {
    (b0 + 256 * b1 + 65536 * b2 + 16777216 * b3) as u32
}

/// Little-endian read of `data[at]`, `data[at + 1]`.
pub fn read_le16(data: &[u8], at: usize) -> (v: u16)
    requires
        at + 2 <= data@.len(),
    ensures
        v == le16(data@[at as int], data@[at + 1]),
{
    data[at] as u16 + (data[at + 1] as u16) * 256
}

/// Little-endian read of `data[at..at + 4]`.
pub fn read_le32(data: &[u8], at: usize) -> (v: u32)
    requires
        at + 4 <= data@.len(),
    ensures
        v == le32(data@[at as int], data@[at + 1], data@[at + 2], data@[at + 3]),
{
    data[at] as u32 + (data[at + 1] as u32) * 256 + (data[at + 2] as u32) * 65536 + (data[at
        + 3] as u32) * 16777216
}

/// `data[at..at + 4]` as an array.
pub fn read_4(data: &[u8], at: usize) -> (a: [u8; 4])
    requires
        at + 4 <= data@.len(),
    ensures
        a@ == data@.subrange(at as int, at + 4),
{
    let a = [data[at], data[at + 1], data[at + 2], data[at + 3]];
    assert(a@ =~= data@.subrange(at as int, at + 4));
    a
}

/// `data[at..at + 6]` as an array.
pub fn read_6(data: &[u8], at: usize) -> (a: [u8; 6])
    requires
        at + 6 <= data@.len(),
    ensures
        a@ == data@.subrange(at as int, at + 6),
{
    let a = [data[at], data[at + 1], data[at + 2], data[at + 3], data[at + 4], data[at + 5]];
    assert(a@ =~= data@.subrange(at as int, at + 6));
    a
}

/// The interface's addresses.
#[derive(Clone, Copy, Debug)]
pub struct NetConfig {
    pub local_mac: [u8; 6],
    pub local_ip: [u8; 4],
}

/// The MAC address used until the device reports its own.
pub open spec fn default_mac() -> Seq<u8> {
    seq![0x52u8, 0x54u8, 0x00u8, 0x12u8, 0x34u8, 0x56u8]
}

/// The address QEMU's user-mode network gives the guest: 10.0.2.15.
pub open spec fn default_ip() -> Seq<u8> {
    seq![10u8, 0u8, 2u8, 15u8]
}

impl NetConfig {
    /// The default addresses.
    pub fn new() -> (c: Self)
        ensures
            c.local_mac@ == default_mac(),
            c.local_ip@ == default_ip(),
    {
        let c = NetConfig { local_mac: [0x52, 0x54, 0x00, 0x12, 0x34, 0x56], local_ip: [10, 0, 2, 15] };
        assert(c.local_mac@ =~= default_mac());
        assert(c.local_ip@ =~= default_ip());
        c
    }
}

/// The local IPv4 address.
pub fn get_local_ip(cfg: &NetConfig) -> (ip: [u8; 4])
    ensures
        ip == cfg.local_ip,
{
    cfg.local_ip
}

/// The local MAC address.
pub fn get_local_mac(cfg: &NetConfig) -> (mac: [u8; 6])
    ensures
        mac == cfg.local_mac,
{
    cfg.local_mac
}

/// What became of a received frame.
#[derive(Clone, Copy, PartialEq, Eq, Structural, Debug)]
pub enum Delivery {
    /// An ARP packet was accepted.
    Arp,
    /// A UDP packet for this host arrived.
    Udp,
    /// A TCP packet for this host arrived.
    Tcp,
    /// Nothing to do: malformed, for another host, or of another protocol.
    Ignored,
}

/// What an IPv4 packet `data` becomes for a host with address `local`.
pub open spec fn ipv4_delivery(data: Seq<u8>, local: Seq<u8>) -> Delivery {
    if data.len() < ipv4::IPV4_HEADER_LEN || data.len() < ipv4::header_len(data[0])
        || data.subrange(16, 20) != local {
        Delivery::Ignored
    } else if data[9] == ipv4::PROTOCOL_UDP {
        Delivery::Udp
    } else if data[9] == ipv4::PROTOCOL_TCP {
        Delivery::Tcp
    } else {
        Delivery::Ignored
    }
}

/// What a received Ethernet frame becomes: ARP packets long enough for
/// their header are accepted, IPv4 packets go through [`handle_ipv4`],
/// everything else is ignored.
pub open spec fn frame_delivery(frame: Seq<u8>, local: Seq<u8>) -> Delivery {
    if frame.len() < ethernet::ETHERNET_HEADER_LEN {
        Delivery::Ignored
    } else {
        let t = ethernet::swap16(le16(frame[12], frame[13]));
        if t == ethernet::ETHERTYPE_ARP {
            if frame.len() - 14 >= arp::ARP_HEADER_LEN {
                Delivery::Arp
            } else {
                Delivery::Ignored
            }
        } else if t == ethernet::ETHERTYPE_IPV4 {
            ipv4_delivery(frame.skip(14), local)
        } else {
            Delivery::Ignored
        }
    }
}

/// Whether two IPv4 addresses are the same.
fn same_ip(a: &[u8; 4], b: &[u8; 4]) -> (r: bool)
    ensures
        r == (a@ == b@),
{
    let r = a[0] == b[0] && a[1] == b[1] && a[2] == b[2] && a[3] == b[3];
    if r {
        assert(a@ =~= b@);
    }
    r
}

/// Handle an IPv4 packet: only packets addressed to this host count, by
/// protocol.
pub fn handle_ipv4(cfg: &NetConfig, data: &[u8]) -> (d: Delivery)
    ensures
        d == ipv4_delivery(data@, cfg.local_ip@),
{
    match ipv4::parse(data) {
        Some((hdr, _payload)) => {
            if !same_ip(&hdr.dst_ip, &cfg.local_ip) {
                return Delivery::Ignored;
            }
            if hdr.protocol == ipv4::PROTOCOL_UDP {
                Delivery::Udp
            } else if hdr.protocol == ipv4::PROTOCOL_TCP {
                Delivery::Tcp
            } else {
                Delivery::Ignored
            }
        },
        None => Delivery::Ignored,
    }
}

/// Handle a received Ethernet frame (see [`frame_delivery`]).
pub fn process_frame(cfg: &NetConfig, frame: &[u8]) -> (d: Delivery)
    ensures
        d == frame_delivery(frame@, cfg.local_ip@),
{
    match ethernet::parse(frame) {
        Some((hdr, payload)) => {
            let t = hdr.ethertype();
            if t == ethernet::ETHERTYPE_ARP {
                match arp::handle_arp(payload) {
                    Some(()) => Delivery::Arp,
                    None => Delivery::Ignored,
                }
            } else if t == ethernet::ETHERTYPE_IPV4 {
                handle_ipv4(cfg, payload)
            } else {
                Delivery::Ignored
            }
        },
        None => Delivery::Ignored,
    }
}

} // verus!
