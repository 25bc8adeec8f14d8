//! The header that precedes every frame in a transmit or receive buffer.
//!
//! It is twelve octets long, packed, with its 16-bit fields in little-endian
//! byte order: `flags`, `gso_type`, `hdr_len`, `gso_size`, `csum_start`,
//! `csum_offset`, `num_buffers`. The first octet holds any number of flags,
//! joined bitwise. Every twelve octets are a header.

use vstd::prelude::*;
use vstd::std_specs::convert::FromSpecImpl;

verus! {

/// The length of the header in octets.
pub const HEADER_SIZE: usize = 12;

/// The flags of the header, of which its first octet holds any number.
#[allow(non_camel_case_types)]
#[derive(Copy, Clone, Debug, PartialEq, Eq, Structural)]
pub enum NetHdrFlag {
    /// No further information.
    VIRTIO_NET_HDR_F_NONE,
    /// `csum_start` and `csum_offset` are to be used.
    VIRTIO_NET_HDR_F_NEEDS_CSUM,
    /// The checksum is valid.
    VIRTIO_NET_HDR_F_DATA_VALID,
    /// The header reports the number of coalesced TCP segments.
    VIRTIO_NET_HDR_F_RSC_INFO,
}

/// The kinds of segmentation offload that the second octet of the header
/// names; the last one is a flag that is joined to one of the others.
#[allow(non_camel_case_types)]
#[derive(Copy, Clone, Debug, PartialEq, Eq, Structural)]
pub enum NetHdrGSO {
    /// Not a GSO frame.
    VIRTIO_NET_HDR_GSO_NONE,
    /// GSO frame, TCP over IPv4.
    VIRTIO_NET_HDR_GSO_TCPV4,
    /// GSO frame, UDP over IPv4.
    VIRTIO_NET_HDR_GSO_UDP,
    /// GSO frame, TCP over IPv6.
    VIRTIO_NET_HDR_GSO_TCPV6,
    /// TCP has ECN set.
    VIRTIO_NET_HDR_GSO_ECN,
}

impl NetHdrFlag {
    /// The octet that stands for the flag.
    pub open spec fn value(self) -> u8 {
        match self {
            NetHdrFlag::VIRTIO_NET_HDR_F_NONE => 0,
            NetHdrFlag::VIRTIO_NET_HDR_F_NEEDS_CSUM => 1,
            NetHdrFlag::VIRTIO_NET_HDR_F_DATA_VALID => 2,
            NetHdrFlag::VIRTIO_NET_HDR_F_RSC_INFO => 4,
        }
    }
}

impl From<NetHdrFlag> for u8 {
    /// The octet that stands for the flag.
    fn from(val: NetHdrFlag) -> (r: u8) {
        match val {
            NetHdrFlag::VIRTIO_NET_HDR_F_NONE => 0,
            NetHdrFlag::VIRTIO_NET_HDR_F_NEEDS_CSUM => 1,
            NetHdrFlag::VIRTIO_NET_HDR_F_DATA_VALID => 2,
            NetHdrFlag::VIRTIO_NET_HDR_F_RSC_INFO => 4,
        }
    }
}

impl FromSpecImpl<NetHdrFlag> for u8 {
    open spec fn obeys_from_spec() -> bool {
        true
    }

    open spec fn from_spec(val: NetHdrFlag) -> u8 {
        val.value()
    }
}

impl NetHdrGSO {
    /// The octet that stands for the kind.
    pub open spec fn value(self) -> u8 {
        match self {
            NetHdrGSO::VIRTIO_NET_HDR_GSO_NONE => 0,
            NetHdrGSO::VIRTIO_NET_HDR_GSO_TCPV4 => 1,
            NetHdrGSO::VIRTIO_NET_HDR_GSO_UDP => 3,
            NetHdrGSO::VIRTIO_NET_HDR_GSO_TCPV6 => 4,
            NetHdrGSO::VIRTIO_NET_HDR_GSO_ECN => 0x80,
        }
    }
}

impl From<NetHdrGSO> for u8 {
    /// The octet that stands for the kind.
    fn from(val: NetHdrGSO) -> (r: u8) {
        match val {
            NetHdrGSO::VIRTIO_NET_HDR_GSO_NONE => 0,
            NetHdrGSO::VIRTIO_NET_HDR_GSO_TCPV4 => 1,
            NetHdrGSO::VIRTIO_NET_HDR_GSO_UDP => 3,
            NetHdrGSO::VIRTIO_NET_HDR_GSO_TCPV6 => 4,
            NetHdrGSO::VIRTIO_NET_HDR_GSO_ECN => 0x80,
        }
    }
}

impl FromSpecImpl<NetHdrGSO> for u8 {
    open spec fn obeys_from_spec() -> bool {
        true
    }

    open spec fn from_spec(val: NetHdrGSO) -> u8 {
        val.value()
    }
}

/// The low octet of a 16-bit value.
pub open spec fn low_octet(x: u16) -> u8 {
    (x % 256) as u8
}

/// The high octet of a 16-bit value.
pub open spec fn high_octet(x: u16) -> u8 {
    (x / 256) as u8
}

/// The 16-bit value whose little-endian form is the two octets.
pub open spec fn from_octets(low: u8, high: u8) -> u16 {
    (low + high * 256) as u16
}

/// The header of a frame.
#[derive(Copy, Clone, Debug, PartialEq, Eq, Structural)]
pub struct VirtioNetHdr {
    /// The flags of the frame: the octets of any of [`NetHdrFlag`], joined
    /// bitwise.
    pub flags: u8,
    /// The kind of segmentation offload: the octet of one of [`NetHdrGSO`],
    /// to which that of ECN may be joined.
    pub gso_type: u8,
    /// Length of the Ethernet, IP and TCP or UDP headers together.
    pub hdr_len: u16,
    /// Bytes to append to `hdr_len` per frame.
    pub gso_size: u16,
    /// Position to start checksumming from.
    pub csum_start: u16,
    /// Offset after that to place the checksum at.
    pub csum_offset: u16,
    /// Number of buffers that the packet consists of.
    pub num_buffers: u16,
}

impl Default for VirtioNetHdr {
    /// The header with no flag, no segmentation offload and all numbers zero.
    fn default() -> (hdr: Self)
        ensures
            hdr == VirtioNetHdr::zeroed(),
    {
        VirtioNetHdr {
            flags: 0,
            gso_type: 0,
            hdr_len: 0,
            gso_size: 0,
            csum_start: 0,
            csum_offset: 0,
            num_buffers: 0,
        }
    }
}

impl VirtioNetHdr {
    /// The header with no flag, no segmentation offload and all numbers zero.
    pub open spec fn zeroed() -> VirtioNetHdr {
        VirtioNetHdr {
            flags: 0,
            gso_type: 0,
            hdr_len: 0,
            gso_size: 0,
            csum_start: 0,
            csum_offset: 0,
            num_buffers: 0,
        }
    }

    /// The twelve octets of the header as they stand in a buffer.
    pub open spec fn encoding(self) -> Seq<u8> {
        seq![
            self.flags,
            self.gso_type,
            low_octet(self.hdr_len),
            high_octet(self.hdr_len),
            low_octet(self.gso_size),
            high_octet(self.gso_size),
            low_octet(self.csum_start),
            high_octet(self.csum_start),
            low_octet(self.csum_offset),
            high_octet(self.csum_offset),
            low_octet(self.num_buffers),
            high_octet(self.num_buffers),
        ]
    }

    /// The header that the first twelve octets of `bytes` stand for. There
    /// is none if there are fewer than twelve octets.
    pub open spec fn decoding(bytes: Seq<u8>) -> Option<VirtioNetHdr> {
        if bytes.len() < HEADER_SIZE {
            None
        } else {
            Some(
                VirtioNetHdr {
                    flags: bytes[0],
                    gso_type: bytes[1],
                    hdr_len: from_octets(bytes[2], bytes[3]),
                    gso_size: from_octets(bytes[4], bytes[5]),
                    csum_start: from_octets(bytes[6], bytes[7]),
                    csum_offset: from_octets(bytes[8], bytes[9]),
                    num_buffers: from_octets(bytes[10], bytes[11]),
                },
            )
        }
    }

    /// The twelve octets of the header as they stand in a buffer.
    pub fn encode(&self) -> (bytes: [u8; 12])
        ensures
            bytes@ == self.encoding(),
    {
        let bytes = [
            self.flags,
            self.gso_type,
            (self.hdr_len % 256) as u8,
            (self.hdr_len / 256) as u8,
            (self.gso_size % 256) as u8,
            (self.gso_size / 256) as u8,
            (self.csum_start % 256) as u8,
            (self.csum_start / 256) as u8,
            (self.csum_offset % 256) as u8,
            (self.csum_offset / 256) as u8,
            (self.num_buffers % 256) as u8,
            (self.num_buffers / 256) as u8,
        ];
        assert(bytes@ =~= self.encoding());
        bytes
    }

    /// Reads a header from the first twelve octets of `bytes`; there is none
    /// if there are fewer.
    pub fn decode(bytes: &[u8]) -> (hdr: Option<VirtioNetHdr>)
        ensures
            hdr == Self::decoding(bytes@),
    {
        if bytes.len() < HEADER_SIZE {
            return None;
        }
        Some(
            VirtioNetHdr {
                flags: bytes[0],
                gso_type: bytes[1],
                hdr_len: read_u16(bytes[2], bytes[3]),
                gso_size: read_u16(bytes[4], bytes[5]),
                csum_start: read_u16(bytes[6], bytes[7]),
                csum_offset: read_u16(bytes[8], bytes[9]),
                num_buffers: read_u16(bytes[10], bytes[11]),
            },
        )
    }
}

fn read_u16(low: u8, high: u8) -> (x: u16)
    ensures
        x == from_octets(low, high),
{
    low as u16 + (high as u16) * 256
}

/// Encoding a header gives twelve octets, and decoding them gives the
/// header back.
pub proof fn lemma_header_round_trip(hdr: VirtioNetHdr)
    ensures
        hdr.encoding().len() == HEADER_SIZE,
        VirtioNetHdr::decoding(hdr.encoding()) == Some(hdr),
{
}

/// Octets that follow the encoding of a header do not change what is
/// decoded.
pub proof fn lemma_decoding_reads_prefix(hdr: VirtioNetHdr, rest: Seq<u8>)
    ensures
        VirtioNetHdr::decoding(hdr.encoding() + rest) == Some(hdr),
{
    let bytes = hdr.encoding() + rest;
    assert forall|i: int| 0 <= i < 12 implies bytes[i] == hdr.encoding()[i] by {}
}

/// What decodes to a header starts with the encoding of that header.
pub proof fn lemma_decoding_is_inverse(bytes: Seq<u8>, hdr: VirtioNetHdr)
    requires
        VirtioNetHdr::decoding(bytes) == Some(hdr),
    ensures
        bytes.subrange(0, HEADER_SIZE as int) == hdr.encoding(),
{
    assert(bytes.subrange(0, HEADER_SIZE as int) =~= hdr.encoding());
}

/// Every twelve octets are the encoding of the header that they decode to:
/// decoding loses nothing, whatever flags the first octet holds.
pub proof fn lemma_every_header_decodes(bytes: Seq<u8>)
    requires
        bytes.len() >= HEADER_SIZE,
    ensures
        VirtioNetHdr::decoding(bytes) is Some,
        VirtioNetHdr::decoding(bytes).unwrap().encoding() == bytes.subrange(0, HEADER_SIZE as int),
        VirtioNetHdr::decoding(bytes).unwrap().num_buffers == from_octets(bytes[10], bytes[11]),
{
    lemma_decoding_is_inverse(bytes, VirtioNetHdr::decoding(bytes).unwrap());
}

} // verus!
