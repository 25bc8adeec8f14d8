use virtio_net::header::{NetHdrFlag, NetHdrGSO, VirtioNetHdr, HEADER_SIZE};

#[test]
fn default_header_is_all_zero() {
    let hdr = VirtioNetHdr::default();
    assert_eq!(hdr.flags, u8::from(NetHdrFlag::VIRTIO_NET_HDR_F_NONE));
    assert_eq!(hdr.gso_type, u8::from(NetHdrGSO::VIRTIO_NET_HDR_GSO_NONE));
    assert_eq!(hdr.encode(), [0u8; 12]);
    assert_eq!(HEADER_SIZE, 12);
}

#[test]
fn flag_and_gso_octets() {
    assert_eq!(u8::from(NetHdrFlag::VIRTIO_NET_HDR_F_NONE), 0);
    assert_eq!(u8::from(NetHdrFlag::VIRTIO_NET_HDR_F_NEEDS_CSUM), 1);
    assert_eq!(u8::from(NetHdrFlag::VIRTIO_NET_HDR_F_DATA_VALID), 2);
    assert_eq!(u8::from(NetHdrFlag::VIRTIO_NET_HDR_F_RSC_INFO), 4);
    assert_eq!(u8::from(NetHdrGSO::VIRTIO_NET_HDR_GSO_NONE), 0);
    assert_eq!(u8::from(NetHdrGSO::VIRTIO_NET_HDR_GSO_TCPV4), 1);
    assert_eq!(u8::from(NetHdrGSO::VIRTIO_NET_HDR_GSO_UDP), 3);
    assert_eq!(u8::from(NetHdrGSO::VIRTIO_NET_HDR_GSO_TCPV6), 4);
    assert_eq!(u8::from(NetHdrGSO::VIRTIO_NET_HDR_GSO_ECN), 0x80);
}

#[test]
fn header_is_packed_little_endian() {
    let hdr = VirtioNetHdr {
        flags: u8::from(NetHdrFlag::VIRTIO_NET_HDR_F_NEEDS_CSUM),
        gso_type: u8::from(NetHdrGSO::VIRTIO_NET_HDR_GSO_TCPV6),
        hdr_len: 0x1234,
        gso_size: 0x00ff,
        csum_start: 34,
        csum_offset: 16,
        num_buffers: 0xabcd,
    };
    assert_eq!(
        hdr.encode(),
        [1, 4, 0x34, 0x12, 0xff, 0x00, 34, 0, 16, 0, 0xcd, 0xab]
    );
}

#[test]
fn header_round_trip() {
    let hdr = VirtioNetHdr {
        flags: u8::from(NetHdrFlag::VIRTIO_NET_HDR_F_DATA_VALID),
        gso_type: u8::from(NetHdrGSO::VIRTIO_NET_HDR_GSO_ECN),
        hdr_len: 65535,
        gso_size: 256,
        csum_start: 255,
        csum_offset: 1,
        num_buffers: 3,
    };
    let bytes = hdr.encode();
    assert_eq!(bytes.len(), 12);
    assert_eq!(VirtioNetHdr::decode(&bytes), Some(hdr));
}

#[test]
fn decode_reads_only_the_first_twelve_octets() {
    let mut bytes = vec![0u8, 0, 0, 0, 0, 0, 0, 0, 0, 0, 2, 0];
    bytes.extend_from_slice(&[9, 9, 9]);
    let hdr = VirtioNetHdr::decode(&bytes).unwrap();
    assert_eq!(hdr.num_buffers, 2);
    assert_eq!(hdr.csum_start, 0);
}

#[test]
fn decode_refuses_only_what_is_shorter_than_a_header() {
    assert_eq!(VirtioNetHdr::decode(&[]), None);
    assert_eq!(VirtioNetHdr::decode(&[0u8; 11]), None);
    assert!(VirtioNetHdr::decode(&[0u8; 12]).is_some());
    assert!(VirtioNetHdr::decode(&[0xffu8; 12]).is_some());
}

#[test]
fn decode_keeps_every_flag_and_every_kind_of_offload() {
    // NEEDS_CSUM and DATA_VALID together; TCP over IPv4 with ECN.
    let bytes = [3u8, 0x81, 1, 0, 2, 0, 3, 0, 4, 0, 5, 0];
    let hdr = VirtioNetHdr::decode(&bytes).unwrap();
    assert_eq!(hdr.flags, 3);
    assert_eq!(hdr.gso_type, 0x81);
    assert_eq!(hdr.hdr_len, 1);
    assert_eq!(hdr.gso_size, 2);
    assert_eq!(hdr.csum_start, 3);
    assert_eq!(hdr.csum_offset, 4);
    assert_eq!(hdr.num_buffers, 5);
    assert_eq!(hdr.encode(), bytes);
}

#[test]
fn every_twelve_octets_round_trip() {
    for seed in 0..=255u8 {
        let mut bytes = [0u8; 12];
        for (i, byte) in bytes.iter_mut().enumerate() {
            *byte = seed.wrapping_mul(31).wrapping_add((i as u8).wrapping_mul(97));
        }
        bytes[0] = seed;
        let hdr = VirtioNetHdr::decode(&bytes).unwrap();
        assert_eq!(hdr.encode(), bytes);
        assert_eq!(hdr.num_buffers, u16::from_le_bytes([bytes[10], bytes[11]]));
    }
}
