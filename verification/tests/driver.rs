use virtio_net::checksum::{Checksum, ChecksumCapabilities};
use virtio_net::config::{
    ComCfg, IsrStatus, NetDevCfgRaw, ISR_CONFIG, ISR_QUEUE, STATUS_ACKNOWLEDGE, STATUS_DRIVER,
    STATUS_DRIVER_OK, STATUS_FAILED, STATUS_FEATURES_OK,
};
use virtio_net::ctrl::{CtrlClass, CtrlQueue};
use virtio_net::driver::{RxToken, TxToken, VirtioNetDriver, MAX_NUM_VQ, VIRTIO_MAX_QUEUE_SIZE};
use virtio_net::error::VirtioNetError;
use virtio_net::features::{FeatureSet, Features};
use virtio_net::header::{NetHdrFlag, VirtioNetHdr};
use virtio_net::virtq::Virtq;

const MAC: [u8; 6] = [0x52, 0x54, 0x00, 0x12, 0x34, 0x56];

fn offer(features: &[Features]) -> u64 {
    let mut set = FeatureSet::new(0);
    set.set_features(features);
    set.bits()
}

fn minimal() -> Vec<Features> {
    vec![Features::VIRTIO_F_VERSION_1, Features::VIRTIO_NET_F_MAC]
}

fn with_minimal(features: &[Features]) -> u64 {
    offer(&minimal()) | offer(features)
}

fn driver_for(offered: u64, mtu: u16, queue_size: u16) -> VirtioNetDriver {
    let raw = NetDevCfgRaw { mac: MAC, status: 0, max_virtqueue_pairs: 1, mtu };
    VirtioNetDriver::new(raw, 0x1041, ComCfg::new(offered, true, queue_size), 11)
}

fn tcp_ipv4_frame() -> Vec<u8> {
    let mut frame = vec![0u8; 14 + 20 + 20];
    frame[12] = 0x08;
    frame[13] = 0x00;
    frame[14] = 0x45;
    frame[14 + 9] = 6;
    frame
}

fn arp_frame() -> Vec<u8> {
    let mut frame = vec![0u8; 60];
    frame[12] = 0x08;
    frame[13] = 0x06;
    frame
}

fn sent_header(drv: &VirtioNetDriver) -> VirtioNetHdr {
    let sent = drv.send_vqs.vqs[0].in_flight.last().unwrap();
    VirtioNetHdr::decode(&sent.send).unwrap()
}

#[test]
fn new_driver_has_no_queues() {
    let drv = driver_for(0, 1500, 8);
    assert_eq!(drv.get_dev_id(), 0x1041);
    assert_eq!(drv.get_mtu(), 1500);
    assert_eq!(drv.get_checksums(), ChecksumCapabilities::default());
    assert_eq!(drv.irq, 11);
    assert_eq!(drv.num_vqs, 0);
    assert!(drv.ctrl_vq.0.is_none());
    assert_eq!(drv.recv_vqs.vqs.len(), 0);
    assert_eq!(drv.send_vqs.vqs.len(), 0);
    assert_eq!(drv.dev_cfg.features, FeatureSet::new(0));
    assert_eq!(MAX_NUM_VQ, 2);
    assert_eq!(VIRTIO_MAX_QUEUE_SIZE, 2048);
}

#[test]
fn minimal_ping() {
    let offered = with_minimal(&[Features::VIRTIO_NET_F_MTU]);
    let mut drv = driver_for(offered, 1500, 8);
    assert_eq!(drv.init_dev(), Ok(()));
    assert_eq!(drv.com_cfg.driver_features, offered);
    assert_eq!(
        drv.com_cfg.device_status,
        STATUS_ACKNOWLEDGE | STATUS_DRIVER | STATUS_FEATURES_OK | STATUS_DRIVER_OK
    );
    assert_eq!(drv.get_mtu(), 1500);
    assert_eq!(drv.get_checksums(), ChecksumCapabilities::default());
    assert_eq!(drv.get_mac_address(), MAC);
    assert_eq!(drv.dev_cfg.features, FeatureSet::new(offered));
    assert_eq!(drv.num_vqs, 2);
    assert_eq!(drv.recv_vqs.vqs.len(), 1);
    assert_eq!(drv.send_vqs.vqs.len(), 1);
    assert_eq!(drv.recv_vqs.vqs[0].index, 0);
    assert_eq!(drv.send_vqs.vqs[0].index, 1);
    assert!(drv.recv_vqs.vqs[0].notifs);
    assert!(!drv.send_vqs.vqs[0].notifs);
    assert!(!drv.recv_vqs.vqs[0].packed);
    assert_eq!(drv.recv_vqs.vqs[0].in_flight.len(), 8);
    assert_eq!(drv.recv_vqs.vqs[0].in_flight[0].recv.len(), 1512);
    assert_eq!(drv.send_vqs.ready_queue.len(), 8);
    assert_eq!(drv.send_vqs.ready_queue[0].send.len(), 1512);
    assert!(drv.ctrl_vq.0.is_none());
}

#[test]
fn init_takes_the_mtu_of_the_device_only_if_negotiated() {
    let mut with = driver_for(with_minimal(&[Features::VIRTIO_NET_F_MTU]), 9000, 2);
    assert_eq!(with.init_dev(), Ok(()));
    assert_eq!(with.get_mtu(), 9000);
    assert_eq!(with.recv_vqs.vqs[0].in_flight[0].recv.len(), 9012);
    let mut without = driver_for(with_minimal(&[]), 9000, 2);
    assert_eq!(without.init_dev(), Ok(()));
    assert_eq!(without.get_mtu(), 1500);
}

#[test]
fn checksum_offload_both_ways() {
    let offered = with_minimal(&[Features::VIRTIO_NET_F_CSUM, Features::VIRTIO_NET_F_GUEST_CSUM]);
    let mut drv = driver_for(offered, 1500, 4);
    assert_eq!(drv.init_dev(), Ok(()));
    let caps = drv.get_checksums();
    assert_eq!(caps.tcp, Checksum::Neither);
    assert_eq!(caps.udp, Checksum::Neither);
    assert!(!caps.tcp.tx());
    assert!(!caps.udp.tx());
    assert_eq!(caps.ipv4, Checksum::Both);
    drv.send_packet(&arp_frame());
    let sent = drv.send_vqs.vqs[0].in_flight.last().unwrap();
    assert_eq!(sent.len(), (72, 0));
    assert_eq!(&sent.send[..12], &[0u8; 12]);
    assert_eq!(sent_header(&drv).flags, u8::from(NetHdrFlag::VIRTIO_NET_HDR_F_NONE));
    assert_eq!(&sent.send[12..72], &arp_frame()[..]);
}

#[test]
fn software_tx_checksum() {
    let offered = with_minimal(&[Features::VIRTIO_NET_F_GUEST_CSUM]);
    let mut drv = driver_for(offered, 1500, 4);
    assert_eq!(drv.init_dev(), Ok(()));
    assert_eq!(drv.get_checksums().tcp, Checksum::Tx);
    assert_eq!(drv.get_checksums().udp, Checksum::Tx);
    drv.send_packet(&tcp_ipv4_frame());
    let hdr = sent_header(&drv);
    assert_eq!(hdr.flags, u8::from(NetHdrFlag::VIRTIO_NET_HDR_F_NEEDS_CSUM));
    assert_eq!(hdr.csum_start, 34);
    assert_eq!(hdr.csum_offset, 16);
    assert_eq!(hdr.num_buffers, 0);
}

#[test]
fn checksum_of_the_device_alone() {
    let offered = with_minimal(&[Features::VIRTIO_NET_F_CSUM]);
    let mut drv = driver_for(offered, 1500, 4);
    assert_eq!(drv.init_dev(), Ok(()));
    assert_eq!(drv.get_checksums().tcp, Checksum::Rx);
    assert_eq!(drv.get_checksums().udp, Checksum::Rx);
    drv.send_packet(&tcp_ipv4_frame());
    assert_eq!(sent_header(&drv), VirtioNetHdr::default());
}

#[test]
fn merged_receive() {
    let offered = with_minimal(&[Features::VIRTIO_NET_F_MRG_RXBUF]);
    let mut drv = driver_for(offered, 1500, 8);
    assert_eq!(drv.init_dev(), Ok(()));
    assert!(drv.dev_cfg.features.is_feature(Features::VIRTIO_NET_F_MRG_RXBUF));
    for tkn in &drv.recv_vqs.vqs[0].in_flight {
        assert_eq!(tkn.recv.len(), 1536);
    }
    let frame: Vec<u8> = (0..3000u32).map(|i| (i % 251) as u8).collect();
    let mut hdr = VirtioNetHdr::default();
    hdr.num_buffers = 3;
    let mut first = hdr.encode().to_vec();
    first.extend_from_slice(&frame[..1524]);
    assert_eq!(first.len(), 1536);
    assert!(drv.recv_vqs.vqs[0].device_complete(&first));
    assert!(drv.recv_vqs.vqs[0].device_complete(&frame[1524..2500]));
    assert!(drv.recv_vqs.vqs[0].device_complete(&frame[2500..]));
    assert_eq!(drv.recv_vqs.vqs[0].in_flight.len(), 5);
    assert!(drv.has_packet());
    let (rx, _tx) = drv.receive_packet().unwrap();
    assert_eq!(rx.buffer.len(), 3000);
    assert_eq!(rx.buffer, frame);
    assert_eq!(drv.recv_vqs.vqs[0].in_flight.len(), 8);
    assert_eq!(drv.recv_vqs.vqs[0].used.len(), 0);
    assert!(drv.recv_vqs.channel.is_empty());
    assert!(!drv.has_packet());
    assert!(drv.receive_packet().is_none());
}

#[test]
fn feature_fallback() {
    let offered = with_minimal(&[Features::VIRTIO_NET_F_STATUS, Features::VIRTIO_NET_F_MTU, Features::VIRTIO_NET_F_CSUM, Features::VIRTIO_NET_F_CTRL_VQ])
        | (1 << 63);
    let mut drv = driver_for(offered, 1400, 4);
    assert_eq!(drv.init_dev(), Ok(()));
    let chosen = with_minimal(&[Features::VIRTIO_NET_F_STATUS, Features::VIRTIO_NET_F_MTU, Features::VIRTIO_NET_F_CSUM]);
    assert_eq!(drv.com_cfg.driver_features, chosen);
    assert_eq!(drv.dev_cfg.features, FeatureSet::new(chosen));
    assert!(!drv.dev_cfg.features.is_feature(Features::VIRTIO_NET_F_MRG_RXBUF));
    assert_eq!(drv.com_cfg.device_status & STATUS_FEATURES_OK, STATUS_FEATURES_OK);
    assert_eq!(drv.com_cfg.device_status & STATUS_DRIVER_OK, STATUS_DRIVER_OK);
    assert_eq!(drv.recv_vqs.vqs[0].in_flight[0].recv.len(), 1412);
    assert_eq!(drv.get_mtu(), 1400);
    assert!(drv.ctrl_vq.0.is_none());
}

#[test]
fn init_with_all_desired_features() {
    let offered = u64::MAX;
    let mut drv = driver_for(offered, 1500, 4096);
    assert_eq!(drv.init_dev(), Ok(()));
    let desired = with_minimal(&[
        Features::VIRTIO_NET_F_STATUS,
        Features::VIRTIO_F_RING_INDIRECT_DESC,
        Features::VIRTIO_NET_F_MTU,
        Features::VIRTIO_F_RING_PACKED,
        Features::VIRTIO_NET_F_GUEST_CSUM,
        Features::VIRTIO_NET_F_CSUM,
        Features::VIRTIO_NET_F_MRG_RXBUF,
    ]);
    assert_eq!(drv.com_cfg.driver_features, desired);
    assert!(drv.recv_vqs.vqs[0].packed);
    assert!(drv.send_vqs.vqs[0].packed);
    // The device takes more descriptors than the driver does.
    assert_eq!(drv.recv_vqs.vqs[0].size, 2048);
    assert_eq!(drv.recv_vqs.vqs[0].in_flight.len(), 2048);
    assert_eq!(drv.send_vqs.ready_queue.len(), 2048);
}

#[test]
fn init_fails_without_the_minimal_features() {
    let offered = offer(&[Features::VIRTIO_F_VERSION_1, Features::VIRTIO_NET_F_MTU]);
    let mut drv = driver_for(offered, 1500, 4);
    assert_eq!(drv.init_dev(), Err(VirtioNetError::FailFeatureNeg(0x1041)));
    assert_eq!(drv.com_cfg.driver_features, 0);
    assert_eq!(drv.com_cfg.device_status, STATUS_ACKNOWLEDGE | STATUS_DRIVER);
    assert_eq!(drv.recv_vqs.vqs.len(), 0);
    assert_eq!(drv.send_vqs.vqs.len(), 0);
    assert_eq!(drv.dev_cfg.features, FeatureSet::new(0));
}

#[test]
fn init_fails_if_the_device_does_not_confirm() {
    let offered = with_minimal(&[Features::VIRTIO_NET_F_MTU]);
    let raw = NetDevCfgRaw { mac: MAC, status: 0, max_virtqueue_pairs: 1, mtu: 1500 };
    let mut drv = VirtioNetDriver::new(raw, 7, ComCfg::new(offered, false, 4), 5);
    assert_eq!(drv.init_dev(), Err(VirtioNetError::FailFeatureNeg(7)));
    assert_eq!(drv.com_cfg.driver_features, offered);
    assert_eq!(drv.com_cfg.device_status, STATUS_ACKNOWLEDGE | STATUS_DRIVER);
    assert_eq!(drv.recv_vqs.vqs.len(), 0);
    assert_eq!(drv.dev_cfg.features, FeatureSet::new(0));
    drv.set_failed();
    assert_eq!(drv.com_cfg.device_status, STATUS_FAILED);
}

#[test]
fn init_with_a_control_queue_and_several_queues() {
    let offered = with_minimal(&[]);
    let raw = NetDevCfgRaw { mac: MAC, status: 0, max_virtqueue_pairs: 4, mtu: 1500 };
    let mut drv = VirtioNetDriver::new(raw, 1, ComCfg::new(offered, true, 2), 5);
    drv.dev_cfg.features.set_features(&[Features::VIRTIO_NET_F_CTRL_VQ, Features::VIRTIO_NET_F_MQ]);
    assert_eq!(drv.get_max_vq_pairs(), 4);
    assert_eq!(drv.init_dev(), Ok(()));
    assert_eq!(drv.num_vqs, 2);
    assert_eq!(drv.recv_vqs.vqs.len(), 1);
    let ctrl = drv.ctrl_vq.0.as_ref().unwrap();
    assert_eq!(ctrl.index, 2);
    assert_eq!(ctrl.size, 2);
    assert!(ctrl.notifs);
    assert_eq!(ctrl.free, 2);
}

#[test]
fn init_with_several_queues_and_no_pair_sets_up_no_queue() {
    let raw = NetDevCfgRaw { mac: MAC, status: 0, max_virtqueue_pairs: 0, mtu: 1500 };
    let mut drv = VirtioNetDriver::new(raw, 1, ComCfg::new(with_minimal(&[]), true, 2), 5);
    drv.dev_cfg.features.set_features(&[Features::VIRTIO_NET_F_CTRL_VQ, Features::VIRTIO_NET_F_MQ]);
    assert_eq!(drv.init_dev(), Ok(()));
    assert_eq!(drv.num_vqs, 0);
    assert_eq!(drv.recv_vqs.vqs.len(), 0);
    assert_eq!(drv.send_vqs.vqs.len(), 0);
    assert_eq!(drv.ctrl_vq.0.as_ref().unwrap().index, 0);
}

#[test]
fn negotiate_features_one_round() {
    let mut drv = driver_for(with_minimal(&[Features::VIRTIO_NET_F_MTU]), 1500, 4);
    assert_eq!(drv.negotiate_features(&minimal()), Ok(()));
    assert_eq!(drv.com_cfg.driver_features, with_minimal(&[]));
    drv.com_cfg.set_drv_features(0);
    assert_eq!(
        drv.negotiate_features(&[Features::VIRTIO_F_VERSION_1, Features::VIRTIO_NET_F_CSUM]),
        Err(VirtioNetError::IncompatibleFeatureSets(
            FeatureSet::new(offer(&[Features::VIRTIO_F_VERSION_1, Features::VIRTIO_NET_F_CSUM])),
            FeatureSet::new(with_minimal(&[Features::VIRTIO_NET_F_MTU])),
        ))
    );
    assert_eq!(drv.com_cfg.driver_features, 0);
    assert_eq!(
        drv.negotiate_features(&[Features::VIRTIO_NET_F_MAC, Features::VIRTIO_NET_F_MQ]),
        Err(VirtioNetError::FeatureRequirementsNotMet(FeatureSet::new(offer(&[
            Features::VIRTIO_NET_F_MAC,
            Features::VIRTIO_NET_F_MQ
        ]))))
    );
    assert_eq!(drv.com_cfg.driver_features, 0);
}

#[test]
fn common_configuration_status_steps() {
    let mut cfg = ComCfg::new(0b1011, true, 16);
    cfg.reset_dev();
    assert_eq!(cfg.dev_features(), 0b1011);
    cfg.ack_dev();
    assert_eq!(cfg.device_status, 1);
    cfg.set_drv();
    assert_eq!(cfg.device_status, 3);
    cfg.set_drv_features(0b0011);
    cfg.features_ok();
    assert!(cfg.check_features());
    assert_eq!(cfg.device_status, 11);
    assert_eq!(cfg.select_vq(0, 2048), 16);
    assert_eq!(cfg.select_vq(1, 8), 8);
    cfg.drv_ok();
    assert_eq!(cfg.device_status, 15);
    cfg.reset_dev();
    assert_eq!(cfg.device_status, 0);
    assert_eq!(cfg.driver_features, 0);
    // A device does not confirm a feature that it does not offer.
    cfg.set_drv_features(0b0100);
    cfg.features_ok();
    assert!(!cfg.check_features());
    cfg.set_failed();
    assert_eq!(cfg.device_status, 128);
}

#[test]
fn mac_address_only_with_the_feature() {
    let mut drv = driver_for(with_minimal(&[]), 1500, 2);
    assert_eq!(drv.try_get_mac_address(), None);
    assert_eq!(drv.init_dev(), Ok(()));
    assert_eq!(drv.try_get_mac_address(), Some(MAC));
    assert_eq!(drv.get_mac_address(), MAC);
}

#[test]
fn can_send_packet_tells_whether_a_token_is_there() {
    let mut drv = driver_for(with_minimal(&[]), 1500, 1);
    assert_eq!(drv.init_dev(), Ok(()));
    assert!(drv.can_send_packet(60));
    assert!(drv.can_send_packet(0));
    drv.send_packet(&[1u8; 60]);
    assert!(!drv.can_send_packet(60));
    assert!(!drv.try_send_packet(&[2u8; 60]));
    assert!(drv.send_vqs.device_complete());
    assert!(drv.can_send_packet(60));
}

#[test]
fn receive_packet_with_several_flags_in_the_header() {
    let mut drv = driver_for(with_minimal(&[Features::VIRTIO_NET_F_MRG_RXBUF]), 1500, 4);
    assert_eq!(drv.init_dev(), Ok(()));
    let mut hdr = VirtioNetHdr::default();
    hdr.flags = u8::from(NetHdrFlag::VIRTIO_NET_HDR_F_NEEDS_CSUM)
        | u8::from(NetHdrFlag::VIRTIO_NET_HDR_F_DATA_VALID);
    hdr.gso_type = 0x81;
    hdr.hdr_len = 54;
    hdr.num_buffers = 2;
    let mut first = hdr.encode().to_vec();
    first.extend_from_slice(&[1, 2, 3, 4]);
    assert_eq!(VirtioNetHdr::decode(&first), Some(hdr));
    assert!(drv.recv_vqs.device_complete(0, &first));
    assert!(drv.recv_vqs.device_complete(0, &[5, 6]));
    let (rx, _) = drv.receive_packet().unwrap();
    assert_eq!(rx.buffer, vec![1, 2, 3, 4, 5, 6]);
    assert_eq!(drv.recv_vqs.vqs[0].in_flight.len(), 4);
}

#[test]
fn config_change_interrupt() {
    let mut drv = driver_for(with_minimal(&[]), 1500, 4);
    assert_eq!(drv.init_dev(), Ok(()));
    let status = drv.com_cfg.device_status;
    let in_flight = drv.recv_vqs.vqs[0].in_flight.len();
    drv.isr_stat.raise(ISR_CONFIG);
    assert!(drv.isr_stat.is_cfg_change());
    assert!(!drv.handle_interrupt());
    assert_eq!(drv.isr_stat.flags, 0);
    assert_eq!(drv.com_cfg.device_status, status);
    assert_eq!(drv.recv_vqs.vqs[0].in_flight.len(), in_flight);
    assert_eq!(drv.get_mtu(), 1500);
}

#[test]
fn queue_interrupt() {
    let mut drv = driver_for(with_minimal(&[]), 1500, 4);
    assert!(!drv.handle_interrupt());
    drv.isr_stat.raise(ISR_QUEUE);
    assert!(drv.handle_interrupt());
    assert_eq!(drv.isr_stat.flags, 0);
    assert!(!drv.handle_interrupt());
    drv.isr_stat.raise(ISR_QUEUE | ISR_CONFIG);
    assert!(drv.handle_interrupt());
    assert_eq!(drv.isr_stat.flags, 0);
    let mut isr = IsrStatus::new();
    isr.raise(ISR_QUEUE);
    assert!(isr.is_interrupt());
    assert!(!isr.is_cfg_change());
    isr.acknowledge();
    assert!(!isr.is_interrupt());
}

#[test]
fn polling_mode_switches_the_notifications_of_the_receive_rings() {
    let mut drv = driver_for(with_minimal(&[]), 1500, 2);
    assert_eq!(drv.init_dev(), Ok(()));
    drv.set_polling_mode(true);
    assert!(!drv.recv_vqs.vqs[0].notifs);
    assert!(!drv.send_vqs.vqs[0].notifs);
    drv.set_polling_mode(false);
    assert!(drv.recv_vqs.vqs[0].notifs);
    assert!(!drv.send_vqs.vqs[0].notifs);
    drv.disable_interrupts();
    assert!(!drv.recv_vqs.vqs[0].notifs);
    drv.enable_interrupts();
    assert!(drv.recv_vqs.vqs[0].notifs);
}

#[test]
fn device_status_and_link() {
    let offered = with_minimal(&[Features::VIRTIO_NET_F_STATUS]);
    let raw = NetDevCfgRaw { mac: MAC, status: 2, max_virtqueue_pairs: 3, mtu: 1500 };
    let mut drv = VirtioNetDriver::new(raw, 1, ComCfg::new(offered, true, 2), 5);
    // Before the status feature is negotiated, the link is taken to be up.
    assert_eq!(drv.dev_status(), 1);
    assert!(drv.is_link_up());
    assert!(!drv.is_announce());
    assert_eq!(drv.get_max_vq_pairs(), 1);
    assert_eq!(drv.init_dev(), Ok(()));
    assert_eq!(drv.dev_status(), 2);
    assert!(!drv.is_link_up());
    assert!(drv.is_announce());
    drv.dev_cfg.raw.status = 1;
    assert!(drv.is_link_up());
    assert!(!drv.is_announce());
    assert_eq!(drv.dev_cfg.raw.get_status(), 1);
    assert_eq!(drv.dev_cfg.raw.get_mac(), MAC);
    assert_eq!(drv.dev_cfg.raw.get_mtu(), 1500);
    assert_eq!(drv.dev_cfg.raw.get_max_virtqueue_pairs(), 3);
}

#[test]
fn receive_drops_short_fragments_and_provides_them_again() {
    let mut drv = driver_for(with_minimal(&[]), 1500, 2);
    assert_eq!(drv.init_dev(), Ok(()));
    assert!(drv.recv_vqs.vqs[0].device_complete(&[1, 2, 3]));
    assert!(drv.has_packet());
    assert!(drv.receive_packet().is_none());
    assert_eq!(drv.recv_vqs.vqs[0].in_flight.len(), 2);
    assert!(!drv.has_packet());
}

#[test]
fn send_and_receive_keep_the_tokens_of_their_rings() {
    let mut drv = driver_for(with_minimal(&[Features::VIRTIO_NET_F_MTU]), 1500, 4);
    assert_eq!(drv.init_dev(), Ok(()));
    for round in 0..5u8 {
        drv.send_packet(&vec![round; 100]);
        assert!(drv.send_vqs.vqs[0].device_complete(&[]));
        let mut bytes = VirtioNetHdr::default().encode().to_vec();
        bytes.push(round);
        assert!(drv.recv_vqs.vqs[0].device_complete(&bytes));
        let (rx, _) = drv.receive_packet().unwrap();
        assert_eq!(rx.buffer, vec![round]);
        let mut returned = Vec::new();
        while let Some(tkn) = drv.send_vqs.channel.try_recv() {
            returned.push(tkn);
        }
        let tx = &drv.send_vqs;
        assert_eq!(
            tx.ready_queue.len() + tx.vqs[0].in_flight.len() + tx.vqs[0].used.len() + returned.len(),
            4
        );
        assert_eq!(tx.vqs[0].free, 0);
        for tkn in returned {
            drv.send_vqs.channel.send(tkn);
        }
        let rx = &drv.recv_vqs;
        assert_eq!(rx.vqs[0].in_flight.len() + rx.vqs[0].used.len(), 4);
        assert!(rx.channel.is_empty());
    }
}

#[test]
fn control_queue_and_stack_tokens() {
    let ctrl = CtrlQueue::new(Some(Virtq::new(4, 2, true)));
    assert_eq!(ctrl.0.as_ref().unwrap().size, 4);
    assert!(CtrlQueue::new(None).0.is_none());
    let rx = RxToken::new(vec![1, 2, 3]);
    assert_eq!(rx.buffer, vec![1, 2, 3]);
    let _tx = TxToken::new();
    assert_eq!(u8::from(CtrlClass::VIRTIO_NET_CTRL_RX), 1);
    assert_eq!(u8::from(CtrlClass::VIRTIO_NET_CTRL_MAC), 2);
    assert_eq!(u8::from(CtrlClass::VIRTIO_NET_CTRL_VLAN), 4);
    assert_eq!(u8::from(CtrlClass::VIRTIO_NET_CTRL_ANNOUNCE), 8);
    assert_eq!(u8::from(CtrlClass::VIRTIO_NET_CTRL_MQ), 16);
}

#[test]
fn try_send_packet_tells_whether_a_token_was_there() {
    let mut drv = driver_for(with_minimal(&[]), 1500, 2);
    assert_eq!(drv.init_dev(), Ok(()));
    assert!(drv.try_send_packet(&[1u8; 20]));
    assert!(drv.try_send_packet(&[2u8; 20]));
    // Both tokens are in flight, and no descriptor is free.
    assert!(!drv.try_send_packet(&[3u8; 20]));
    assert_eq!(drv.send_vqs.vqs[0].in_flight.len(), 2);
    assert!(drv.send_vqs.vqs[0].device_complete(&[]));
    assert!(drv.try_send_packet(&[3u8; 20]));
    assert_eq!(drv.send_vqs.vqs[0].in_flight.len(), 2);
    assert_eq!(drv.send_vqs.vqs[0].in_flight[1].send[12], 3);
}
