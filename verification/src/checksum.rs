//! Who computes the checksums of a frame, and the hints that a frame's header
//! gives the device for computing one.

use vstd::prelude::*;
use smoltcp::wire::{EthernetFrame, EthernetProtocol, IpProtocol, Ipv4Packet, Ipv6Packet};
use crate::header::{NetHdrFlag, VirtioNetHdr};

verus! {

/// The length of the header of an Ethernet frame.
pub const ETHERNET_HEADER_LEN: usize = 14;

/// What the network stack does about the checksum of one protocol.
#[derive(Copy, Clone, Debug, PartialEq, Eq, Structural)]
pub enum Checksum {
    /// It verifies the checksum when receiving and computes it when sending.
    Both,
    /// It verifies the checksum when receiving.
    Rx,
    /// It computes the checksum before sending.
    Tx,
    /// It ignores the checksum.
    Neither,
}

impl Checksum {
    /// Whether the stack computes the checksum when sending.
    pub open spec fn tx_spec(self) -> bool {
        self is Both || self is Tx
    }

    /// Whether the stack computes the checksum when sending.
    pub fn tx(&self) -> (b: bool)
        ensures
            b == self.tx_spec(),
    {
        checksum_tx(*self)
    }
}

/// Calls `smoltcp::phy::Checksum::tx` on the value of that type which
/// stands for `checksum`. The claim: it answers `true` for `Both` and for
/// `Tx`, and `false` for `Rx` and for `Neither`.
#[verifier::external_body]
fn checksum_tx(checksum: Checksum) -> (b: bool)
    ensures
        b == (checksum is Both || checksum is Tx),
{
    match checksum {
        Checksum::Both => smoltcp::phy::Checksum::Both,
        Checksum::Rx => smoltcp::phy::Checksum::Rx,
        Checksum::Tx => smoltcp::phy::Checksum::Tx,
        Checksum::Neither => smoltcp::phy::Checksum::None,
    }.tx()
}

/// What the network stack does about the checksums of each protocol.
#[derive(Copy, Clone, Debug, PartialEq, Eq, Structural)]
pub struct ChecksumCapabilities {
    pub ipv4: Checksum,
    pub udp: Checksum,
    pub tcp: Checksum,
    pub icmpv4: Checksum,
    pub icmpv6: Checksum,
}

impl Default for ChecksumCapabilities {
    /// The stack verifies and computes every checksum.
    fn default() -> (caps: Self)
        ensures
            caps == ChecksumCapabilities::all_both(),
    {
        ChecksumCapabilities {
            ipv4: Checksum::Both,
            udp: Checksum::Both,
            tcp: Checksum::Both,
            icmpv4: Checksum::Both,
            icmpv6: Checksum::Both,
        }
    }
}

impl ChecksumCapabilities {
    /// The stack verifies and computes every checksum.
    pub open spec fn all_both() -> ChecksumCapabilities {
        ChecksumCapabilities {
            ipv4: Checksum::Both,
            udp: Checksum::Both,
            tcp: Checksum::Both,
            icmpv4: Checksum::Both,
            icmpv6: Checksum::Both,
        }
    }

    /// Whether the header of a frame that is sent asks the device for a
    /// checksum: it does where the stack computes the checksums of TCP and
    /// of UDP when sending, that is where neither is left to the device.
    pub open spec fn marks_frames(self) -> bool {
        self.tcp.tx_spec() && self.udp.tx_spec()
    }
}

/// The protocol that an Ethernet frame carries, as far as the driver tells
/// protocols apart.
#[derive(Copy, Clone, Debug, PartialEq, Eq, Structural)]
pub enum EtherKind {
    Ipv4,
    Ipv6,
    Other,
}

/// The protocol that an IP packet carries, as far as the driver tells
/// protocols apart.
#[derive(Copy, Clone, Debug, PartialEq, Eq, Structural)]
pub enum Transport {
    Tcp,
    Udp,
    Other,
}

/// The protocol that the type field of an Ethernet frame names. The field is
/// the 13th and 14th octet of the frame, the high octet first.
pub open spec fn ether_kind(frame: Seq<u8>) -> EtherKind {
    let ethertype = frame[12] * 256 + frame[13];
    if ethertype == 0x0800 {
        EtherKind::Ipv4
    } else if ethertype == 0x86DD {
        EtherKind::Ipv6
    } else {
        EtherKind::Other
    }
}

/// The protocol that a protocol number names.
pub open spec fn transport_of(number: u8) -> Transport {
    if number == 0x06 {
        Transport::Tcp
    } else if number == 0x11 {
        Transport::Udp
    } else {
        Transport::Other
    }
}

/// The length of the header of an IPv4 packet, from the low half of its
/// first octet, which counts 32-bit words.
pub open spec fn ipv4_header_len_spec(packet: Seq<u8>) -> u8 {
    ((packet[0] & 0x0f) * 4) as u8
}

/// The length of the header of an IPv6 packet.
pub const IPV6_HEADER_LEN: usize = 40;

/// Calls `smoltcp::wire::EthernetFrame::ethertype` on the frame that
/// `smoltcp::wire::EthernetFrame::new_unchecked` makes of the bytes. The
/// claim: it reads the type field and names IPv4 for 0x0800 and IPv6 for
/// 0x86DD. Shorter frames make the outside function panic and are left out.
#[verifier::external_body]
fn frame_ether_kind(frame: &[u8]) -> (kind: EtherKind)
    requires
        frame@.len() >= ETHERNET_HEADER_LEN,
    ensures
        kind == ether_kind(frame@),
{
    match EthernetFrame::new_unchecked(frame).ethertype() {
        EthernetProtocol::Ipv4 => EtherKind::Ipv4,
        EthernetProtocol::Ipv6 => EtherKind::Ipv6,
        EthernetProtocol::Arp => EtherKind::Other,
        EthernetProtocol::Unknown(_) => EtherKind::Other,
    }
}

/// Calls `smoltcp::wire::EthernetFrame::payload` on the frame that
/// `smoltcp::wire::EthernetFrame::new_unchecked` makes of the bytes. The
/// claim: it returns what follows the first 14 octets. Shorter frames make
/// the outside function panic and are left out.
#[verifier::external_body]
fn frame_payload(frame: &[u8]) -> (payload: &[u8])
    requires
        frame@.len() >= ETHERNET_HEADER_LEN,
    ensures
        payload@ == frame@.skip(ETHERNET_HEADER_LEN as int),
{
    EthernetFrame::new_unchecked(frame).payload()
}

/// Calls `smoltcp::wire::Ipv4Packet::header_len` on the packet that
/// `smoltcp::wire::Ipv4Packet::new_unchecked` makes of the bytes. The claim:
/// it returns four times the low half of the first octet. An empty packet
/// makes the outside function panic and is left out.
#[verifier::external_body]
fn ipv4_header_len(packet: &[u8]) -> (len: u8)
    requires
        packet@.len() >= 1,
    ensures
        len == ipv4_header_len_spec(packet@),
{
    Ipv4Packet::new_unchecked(packet).header_len()
}

/// Calls `smoltcp::wire::Ipv4Packet::next_header` on the packet that
/// `smoltcp::wire::Ipv4Packet::new_unchecked` makes of the bytes. The claim:
/// it names the protocol whose number is the tenth octet: TCP for 6 and UDP
/// for 17. Shorter packets make the outside function panic and are left out.
#[verifier::external_body]
fn ipv4_next_header(packet: &[u8]) -> (transport: Transport)
    requires
        packet@.len() >= 10,
    ensures
        transport == transport_of(packet@[9]),
{
    match Ipv4Packet::new_unchecked(packet).next_header() {
        IpProtocol::Tcp => Transport::Tcp,
        IpProtocol::Udp => Transport::Udp,
        _ => Transport::Other,
    }
}

/// Calls `smoltcp::wire::Ipv6Packet::header_len` on the packet that
/// `smoltcp::wire::Ipv6Packet::new_unchecked` makes of the bytes. The claim:
/// it returns 40 for every packet.
#[verifier::external_body]
fn ipv6_header_len(packet: &[u8]) -> (len: usize)
    ensures
        len == IPV6_HEADER_LEN,
{
    Ipv6Packet::new_unchecked(packet).header_len()
}

/// Calls `smoltcp::wire::Ipv6Packet::next_header` on the packet that
/// `smoltcp::wire::Ipv6Packet::new_unchecked` makes of the bytes. The claim:
/// it names the protocol whose number is the seventh octet: TCP for 6 and
/// UDP for 17. Shorter packets make the outside function panic and are left
/// out.
#[verifier::external_body]
fn ipv6_next_header(packet: &[u8]) -> (transport: Transport)
    requires
        packet@.len() >= 7,
    ensures
        transport == transport_of(packet@[6]),
{
    match Ipv6Packet::new_unchecked(packet).next_header() {
        IpProtocol::Tcp => Transport::Tcp,
        IpProtocol::Udp => Transport::Udp,
        _ => Transport::Other,
    }
}

/// The offset of the checksum field in the header of a transport protocol;
/// zero where the protocol is neither TCP nor UDP.
pub open spec fn checksum_offset(transport: Transport) -> u16 {
    match transport {
        Transport::Tcp => 16,
        Transport::Udp => 6,
        Transport::Other => 0,
    }
}

/// Where the checksum of a frame starts and where it is placed from there:
/// `csum_start` and `csum_offset` of the frame's header. The checksum
/// starts behind the Ethernet header and the header of the IP packet, and
/// it is placed where TCP or UDP keeps it. A frame that carries neither
/// IPv4 nor IPv6, or that ends before the fields that say so, has both as
/// for an empty IP header with no transport protocol.
pub open spec fn checksum_hints(frame: Seq<u8>) -> (u16, u16) {
    let packet = frame.skip(ETHERNET_HEADER_LEN as int);
    if frame.len() < ETHERNET_HEADER_LEN {
        (ETHERNET_HEADER_LEN as u16, 0)
    } else if ether_kind(frame) == EtherKind::Ipv4 && packet.len() >= 10 {
        (
            (ETHERNET_HEADER_LEN + ipv4_header_len_spec(packet)) as u16,
            checksum_offset(transport_of(packet[9])),
        )
    } else if ether_kind(frame) == EtherKind::Ipv6 && packet.len() >= 7 {
        ((ETHERNET_HEADER_LEN + IPV6_HEADER_LEN) as u16, checksum_offset(transport_of(packet[6])))
    } else {
        (ETHERNET_HEADER_LEN as u16, 0)
    }
}

/// The header that the driver puts before a frame that it sends: where the
/// stack computes the checksums of TCP and of UDP itself, the header asks
/// for a checksum and says where; else it is all zero.
pub open spec fn tx_header(checksums: ChecksumCapabilities, frame: Seq<u8>) -> VirtioNetHdr {
    if checksums.marks_frames() {
        VirtioNetHdr {
            flags: NetHdrFlag::VIRTIO_NET_HDR_F_NEEDS_CSUM.value(),
            gso_type: 0,
            hdr_len: 0,
            gso_size: 0,
            csum_start: checksum_hints(frame).0,
            csum_offset: checksum_hints(frame).1,
            num_buffers: 0,
        }
    } else {
        VirtioNetHdr::zeroed()
    }
}

proof fn lemma_low_half(octet: u8)
    by (bit_vector)
    ensures
        octet & 0x0f <= 15,
{
}

/// Reads from a frame where its checksum starts and where it is placed.
pub fn frame_checksum_hints(frame: &[u8]) -> (hints: (u16, u16))
    ensures
        hints == checksum_hints(frame@),
{
    if frame.len() < ETHERNET_HEADER_LEN {
        return (14, 0);
    }
    let packet = frame_payload(frame);
    let kind = frame_ether_kind(frame);
    let (header_len, transport): (u16, Transport) = match kind {
        EtherKind::Ipv4 => {
            if packet.len() >= 10 {
                proof {
                    lemma_low_half(packet@[0]);
                }
                let len: u8 = ipv4_header_len(packet);
                (len as u16, ipv4_next_header(packet))
            } else {
                (0, Transport::Other)
            }
        },
        EtherKind::Ipv6 => {
            if packet.len() >= 7 {
                let len: usize = ipv6_header_len(packet);
                (len as u16, ipv6_next_header(packet))
            } else {
                (0, Transport::Other)
            }
        },
        EtherKind::Other => (0, Transport::Other),
    };
    let offset: u16 = match transport {
        Transport::Tcp => 16,
        Transport::Udp => 6,
        Transport::Other => 0,
    };
    (14 + header_len, offset)
}

/// The header that the driver puts before a frame that it sends.
pub fn make_tx_header(checksums: &ChecksumCapabilities, frame: &[u8]) -> (hdr: VirtioNetHdr)
    ensures
        hdr == tx_header(*checksums, frame@),
{
    let mut hdr = VirtioNetHdr::default();
    if checksums.tcp.tx() && checksums.udp.tx() {
        let hints = frame_checksum_hints(frame);
        hdr.flags = u8::from(NetHdrFlag::VIRTIO_NET_HDR_F_NEEDS_CSUM);
        hdr.csum_start = hints.0;
        hdr.csum_offset = hints.1;
    }
    hdr
}

} // verus!
