use virtio_net::channel::TokenChannel;
use virtio_net::checksum::ChecksumCapabilities;
use virtio_net::config::{NetDevCfg, NetDevCfgRaw};
use virtio_net::features::{FeatureSet, Features};
use virtio_net::header::VirtioNetHdr;
use virtio_net::rx::{rx_buffer_size, RxQueues};
use virtio_net::token::BufferToken;
use virtio_net::tx::{tx_buffer_size, TxQueues};
use virtio_net::virtq::Virtq;

fn dev_cfg(features: &[Features], mtu: u16) -> NetDevCfg {
    let mut set = FeatureSet::new(0);
    set.set_features(features);
    NetDevCfg {
        raw: NetDevCfgRaw { mac: [2, 0, 0, 0, 0, 1], status: 0, max_virtqueue_pairs: 1, mtu },
        dev_id: 1,
        features: set,
    }
}

fn rx_set(size: u16, features: &[Features], mtu: u16) -> RxQueues {
    let mut rx = RxQueues::new(Vec::new(), false);
    rx.add(Virtq::new(size, 0, false), &dev_cfg(features, mtu));
    rx
}

fn tx_set(size: u16, features: &[Features], mtu: u16) -> TxQueues {
    let mut tx = TxQueues::new(Vec::new(), Vec::new(), false);
    tx.add(Virtq::new(size, 1, false), &dev_cfg(features, mtu));
    tx
}

fn rx_header(num_buffers: u16) -> Vec<u8> {
    let mut hdr = VirtioNetHdr::default();
    hdr.num_buffers = num_buffers;
    hdr.encode().to_vec()
}

/// Counts the tokens in a channel by taking each out and sending it again.
fn waiting(channel: &mut TokenChannel) -> usize {
    let mut taken = Vec::new();
    while let Some(tkn) = channel.try_recv() {
        taken.push(tkn);
    }
    let count = taken.len();
    for tkn in taken {
        channel.send(tkn);
    }
    count
}

fn rx_tokens(rx: &mut RxQueues) -> usize {
    let mut count = waiting(&mut rx.channel);
    for vq in &rx.vqs {
        count += vq.in_flight.len() + vq.used.len();
    }
    count
}

fn tx_tokens(tx: &mut TxQueues) -> usize {
    tx.ready_queue.len() + tx.vqs[0].in_flight.len() + tx.vqs[0].used.len() + waiting(&mut tx.channel)
}

#[test]
fn buffer_sizes() {
    let none = FeatureSet::new(0);
    assert_eq!(rx_buffer_size(none, 1500), 1512);
    assert_eq!(rx_buffer_size(none, 0), 12);
    assert_eq!(rx_buffer_size(none, 65535), 65547);
    let merged = FeatureSet::new(1 << 15);
    assert_eq!(rx_buffer_size(merged, 1500), 1536);
    assert_eq!(rx_buffer_size(merged, 9000), 1536);
    assert_eq!(tx_buffer_size(none, 1500), 1512);
    assert_eq!(tx_buffer_size(FeatureSet::new(1 << 7), 1500), 65562);
    assert_eq!(tx_buffer_size(FeatureSet::new(1 << 8), 1500), 65562);
    assert_eq!(tx_buffer_size(FeatureSet::new(1 << 10), 1500), 65562);
    assert_eq!(tx_buffer_size(FeatureSet::new(1 << 15), 9000), 9012);
}

#[test]
fn post_processing_is_the_identity() {
    let mut tkn = BufferToken::new(0, 4, 3);
    assert!(tkn.write_seq(None, Some(&[1, 2, 3, 4])).is_ok());
    let tkn = RxQueues::post_processing(tkn).unwrap();
    assert_eq!(tkn.recv, vec![1, 2, 3, 4]);
    assert_eq!(tkn.queue, 3);
}

#[test]
fn rx_add_fills_the_ring() {
    let rx = rx_set(4, &[], 1500);
    assert!(!rx.is_multi);
    assert_eq!(rx.vqs.len(), 1);
    assert_eq!(rx.vqs[0].free, 0);
    assert_eq!(rx.vqs[0].in_flight.len(), 4);
    for tkn in &rx.vqs[0].in_flight {
        assert_eq!(tkn.len(), (0, 1512));
        assert_eq!(tkn.recv, vec![0u8; 1512]);
        assert_eq!(tkn.queue, 0);
    }
    assert!(rx.channel.is_empty());
}

#[test]
fn rx_add_of_a_second_ring_makes_the_set_multi() {
    let mut rx = rx_set(2, &[Features::VIRTIO_NET_F_MRG_RXBUF], 1500);
    rx.add(Virtq::new(3, 2, false), &dev_cfg(&[Features::VIRTIO_NET_F_MRG_RXBUF], 1500));
    assert!(rx.is_multi);
    assert_eq!(rx.vqs[1].in_flight.len(), 3);
    assert_eq!(rx.vqs[1].in_flight[0].recv.len(), 1536);
    assert_eq!(rx.vqs[1].in_flight[2].queue, 1);
    assert_eq!(rx.vqs[0].in_flight[0].queue, 0);
}

#[test]
fn rx_get_next_polls_when_the_channel_is_empty() {
    let mut rx = rx_set(2, &[], 100);
    assert!(rx.get_next().is_none());
    assert!(rx.vqs[0].device_complete(&[1, 2, 3]));
    let tkn = rx.get_next().unwrap();
    assert_eq!(tkn.recv_len, 3);
    assert!(rx.get_next().is_none());
    rx.recycle(tkn);
    assert_eq!(rx.vqs[0].in_flight.len(), 2);
    assert_eq!(rx.vqs[0].in_flight[1].recv_len, 112);
    // The memory is not cleared when a token is made ready again.
    assert_eq!(rx.vqs[0].in_flight[1].recv[0], 1);
}

#[test]
fn rx_poll_collects_every_ring_only_in_a_multi_set() {
    let mut rx = rx_set(1, &[], 100);
    rx.add(Virtq::new(1, 2, false), &dev_cfg(&[], 100));
    assert!(rx.vqs[0].device_complete(&[1]));
    assert!(rx.vqs[1].device_complete(&[2, 2]));
    rx.poll();
    assert_eq!(rx.channel.try_recv().unwrap().recv_len, 1);
    assert_eq!(rx.channel.try_recv().unwrap().recv_len, 2);

    let mut single = RxQueues::new(Vec::new(), false);
    single.add(Virtq::new(1, 0, false), &dev_cfg(&[], 100));
    single.add(Virtq::new(1, 2, false), &dev_cfg(&[], 100));
    single.is_multi = false;
    assert!(single.vqs[0].device_complete(&[1]));
    assert!(single.vqs[1].device_complete(&[2, 2]));
    single.poll();
    assert_eq!(single.channel.try_recv().unwrap().recv_len, 1);
    assert!(single.channel.try_recv().is_none());
    assert_eq!(single.vqs[1].used.len(), 1);
}

#[test]
fn rx_notifications() {
    let mut rx = rx_set(1, &[], 100);
    rx.add(Virtq::new(1, 2, false), &dev_cfg(&[], 100));
    rx.disable_notifs();
    assert!(!rx.vqs[0].notifs && !rx.vqs[1].notifs);
    rx.is_multi = false;
    rx.enable_notifs();
    assert!(rx.vqs[0].notifs && !rx.vqs[1].notifs);
}

#[test]
fn receive_one_frame_in_one_buffer() {
    let mut rx = rx_set(2, &[], 1500);
    let mut bytes = rx_header(1);
    bytes.extend_from_slice(&[10, 20, 30, 40]);
    assert!(rx.vqs[0].device_complete(&bytes));
    assert_eq!(rx.receive(1500), Some(vec![10, 20, 30, 40]));
    assert_eq!(rx.vqs[0].in_flight.len(), 2);
    assert_eq!(rx.receive(1500), None);
}

#[test]
fn receive_treats_zero_buffers_as_one() {
    let mut rx = rx_set(2, &[], 1500);
    let mut bytes = rx_header(0);
    bytes.extend_from_slice(&[7]);
    assert!(rx.vqs[0].device_complete(&bytes));
    assert_eq!(rx.receive(1500), Some(vec![7]));
    assert_eq!(rx_tokens(&mut rx), 2);
}

#[test]
fn receive_of_a_header_alone_is_an_empty_frame() {
    let mut rx = rx_set(1, &[], 1500);
    assert!(rx.vqs[0].device_complete(&rx_header(1)));
    assert_eq!(rx.receive(1500), Some(Vec::new()));
}

#[test]
fn receive_drops_a_fragment_shorter_than_a_header() {
    let mut rx = rx_set(3, &[], 1500);
    assert!(rx.vqs[0].device_complete(&[0u8; 11]));
    let mut good = rx_header(1);
    good.extend_from_slice(&[5, 5]);
    assert!(rx.vqs[0].device_complete(&good));
    assert_eq!(rx.receive(1500), None);
    // The dropped buffer is in flight again, behind the one that was not used.
    assert_eq!(rx.vqs[0].in_flight.len(), 2);
    assert_eq!(rx.vqs[0].in_flight[1].recv_len, 1512);
    assert_eq!(rx.receive(1500), Some(vec![5, 5]));
    assert_eq!(rx.vqs[0].in_flight.len(), 3);
    assert_eq!(rx_tokens(&mut rx), 3);
}

#[test]
fn receive_reads_the_count_whatever_the_flags_are() {
    let mut rx = rx_set(2, &[], 1500);
    let mut bytes = rx_header(1);
    // NEEDS_CSUM and DATA_VALID together, and an offload kind with ECN.
    bytes[0] = 3;
    bytes[1] = 0x81;
    bytes.extend_from_slice(&[1, 2, 3]);
    assert!(rx.vqs[0].device_complete(&bytes));
    assert_eq!(rx.receive(1500), Some(vec![1, 2, 3]));
    assert_eq!(rx.vqs[0].in_flight.len(), 2);

    let mut first = rx_header(2);
    first[0] = 0xff;
    first[1] = 0xff;
    first.push(7);
    assert!(rx.vqs[0].device_complete(&first));
    assert!(rx.vqs[0].device_complete(&[8, 9]));
    assert_eq!(rx.receive(1500), Some(vec![7, 8, 9]));
    assert_eq!(rx.vqs[0].in_flight.len(), 2);
}

#[test]
fn receive_drops_a_token_without_a_receive_area() {
    let mut ring = Virtq::new(1, 0, false);
    let tkn = ring.prep_buffer(Some(4), None).unwrap();
    ring.provide(tkn);
    let mut rx = RxQueues::new(vec![ring], false);
    assert!(rx.device_complete(0, &[]));
    assert_eq!(rx.receive(1500), None);
    assert_eq!(rx.vqs[0].in_flight.len(), 1);
    assert_eq!(rx.vqs[0].in_flight[0].send, vec![0u8; 4]);
}

#[test]
fn receive_concatenates_exactly_the_announced_buffers() {
    let mut rx = rx_set(4, &[Features::VIRTIO_NET_F_MRG_RXBUF], 1500);
    let mut first = rx_header(2);
    first.extend_from_slice(&[1, 2, 3]);
    assert!(rx.vqs[0].device_complete(&first));
    assert!(rx.vqs[0].device_complete(&[4, 5]));
    let mut next = rx_header(1);
    next.extend_from_slice(&[9]);
    assert!(rx.vqs[0].device_complete(&next));
    assert_eq!(rx.receive(1500), Some(vec![1, 2, 3, 4, 5]));
    assert_eq!(rx.vqs[0].in_flight.len(), 3);
    assert_eq!(rx.receive(1500), Some(vec![9]));
    assert_eq!(rx.vqs[0].in_flight.len(), 4);
}

#[test]
fn receive_with_a_missing_fragment_returns_nothing_and_recycles() {
    let mut rx = rx_set(4, &[Features::VIRTIO_NET_F_MRG_RXBUF], 1500);
    let mut first = rx_header(3);
    first.extend_from_slice(&[1, 2, 3]);
    assert!(rx.vqs[0].device_complete(&first));
    assert!(rx.vqs[0].device_complete(&[4, 5]));
    assert_eq!(rx.receive(1500), None);
    assert_eq!(rx.vqs[0].in_flight.len(), 4);
    assert_eq!(rx.vqs[0].used.len(), 0);
    assert!(rx.channel.is_empty());
}

#[test]
fn receive_returns_each_token_to_its_own_ring() {
    let mut rx = rx_set(1, &[], 100);
    rx.add(Virtq::new(1, 2, false), &dev_cfg(&[], 100));
    let mut first = rx_header(2);
    first.push(1);
    assert!(rx.vqs[0].device_complete(&first));
    assert!(rx.vqs[1].device_complete(&[2]));
    assert_eq!(rx.receive(100), Some(vec![1, 2]));
    assert_eq!(rx.vqs[0].in_flight.len(), 1);
    assert_eq!(rx.vqs[1].in_flight.len(), 1);
    assert_eq!(rx.vqs[0].in_flight[0].queue, 0);
    assert_eq!(rx.vqs[1].in_flight[0].queue, 1);
}

#[test]
fn tx_add_fills_the_ready_queue_of_the_first_ring_only() {
    let mut tx = tx_set(3, &[], 1500);
    assert!(!tx.is_multi);
    assert_eq!(tx.ready_queue.len(), 3);
    assert_eq!(tx.vqs[0].free, 0);
    for tkn in &tx.ready_queue {
        assert_eq!(tkn.len(), (1512, 0));
        assert_eq!(tkn.send, vec![0u8; 1512]);
    }
    tx.add(Virtq::new(5, 3, false), &dev_cfg(&[], 1500));
    assert!(tx.is_multi);
    assert_eq!(tx.ready_queue.len(), 3);
    assert_eq!(tx.vqs[1].free, 5);
    assert_eq!(tx.vqs[1].in_flight.len(), 0);
}

#[test]
fn tx_add_sizes_buffers_for_large_sends() {
    let tx = tx_set(1, &[Features::VIRTIO_NET_F_GUEST_TSO4, Features::VIRTIO_NET_F_GUEST_CSUM], 1500);
    assert_eq!(tx.ready_queue[0].send.len(), 65562);
}

#[test]
fn get_tkn_returns_a_ready_token_of_equal_capacity_unshrunk() {
    let mut tx = tx_set(1, &[], 1500);
    let (tkn, index) = tx.get_tkn(1512).unwrap();
    assert_eq!(index, 0);
    assert_eq!(tkn.len(), (1512, 0));
    assert_eq!(tkn.send.len(), 1512);
    assert_eq!(tx.ready_queue.len(), 0);
    assert_eq!(tx.vqs[0].free, 0);
}

#[test]
fn get_tkn_shrinks_a_larger_ready_token() {
    let mut tx = tx_set(2, &[], 1500);
    let (tkn, index) = tx.get_tkn(72).unwrap();
    assert_eq!(index, 0);
    assert_eq!(tkn.len(), (72, 0));
    assert_eq!(tkn.send.len(), 1512);
    assert_eq!(tx.ready_queue.len(), 1);
    assert_eq!(tx.vqs[0].free, 0);
}

#[test]
fn get_tkn_skips_ready_tokens_that_are_too_small() {
    let mut tx = tx_set(2, &[], 1500);
    // Both ready tokens are given up, and a new one of the exact size is made.
    let (tkn, index) = tx.get_tkn(1513).unwrap();
    assert_eq!(index, 0);
    assert_eq!(tkn.len(), (1513, 0));
    assert_eq!(tkn.send.len(), 1513);
    assert_eq!(tx.ready_queue.len(), 0);
    assert_eq!(tx.vqs[0].free, 1);
}

#[test]
fn get_tkn_takes_the_last_ready_token_that_fits() {
    let mut tx = TxQueues::new(Vec::new(), Vec::new(), false);
    tx.add(Virtq::new(3, 1, false), &dev_cfg(&[], 100));
    // Capacities, from the first ready token to the last: 112, 50, 20.
    assert!(tx.ready_queue[1].restr_size(Some(50), None).is_ok());
    assert!(tx.ready_queue[2].restr_size(Some(20), None).is_ok());
    let (tkn, _) = tx.get_tkn(30).unwrap();
    assert_eq!(tkn.len(), (30, 0));
    assert_eq!(tx.ready_queue.len(), 1);
    assert_eq!(tx.ready_queue[0].send_len, 112);
    assert_eq!(tx.vqs[0].free, 1);
}

#[test]
fn get_tkn_reuses_tokens_that_have_come_back() {
    let mut tx = tx_set(1, &[], 100);
    let caps = ChecksumCapabilities::default();
    tx.send(&[1u8; 20], &caps);
    assert_eq!(tx.ready_queue.len(), 0);
    assert!(tx.get_tkn(10).is_none());
    assert!(tx.vqs[0].device_complete(&[]));
    // The ring is polled, and the token is made ready again before it is fitted.
    let (tkn, index) = tx.get_tkn(112).unwrap();
    assert_eq!(index, 0);
    assert_eq!(tkn.len(), (112, 0));
    assert_eq!(tx.vqs[0].used.len(), 0);
    assert!(tx.channel.is_empty());
}

#[test]
fn get_tkn_gives_up_returned_tokens_that_are_too_small() {
    let mut tx = tx_set(2, &[], 100);
    let caps = ChecksumCapabilities::default();
    tx.send(&[1u8; 20], &caps);
    tx.send(&[2u8; 20], &caps);
    assert!(tx.vqs[0].device_complete(&[]));
    assert!(tx.vqs[0].device_complete(&[]));
    tx.poll();
    let (tkn, _) = tx.get_tkn(200).unwrap();
    assert_eq!(tkn.send.len(), 200);
    assert!(tx.channel.is_empty());
    assert_eq!(tx.vqs[0].free, 1);
}

#[test]
fn get_tkn_returns_nothing_without_a_token_or_a_descriptor() {
    let mut tx = tx_set(1, &[], 100);
    let caps = ChecksumCapabilities::default();
    tx.send(&[0u8; 10], &caps);
    assert!(tx.get_tkn(22).is_none());
    let mut empty_ring = TxQueues::new(Vec::new(), Vec::new(), false);
    empty_ring.add(Virtq::new(0, 1, false), &dev_cfg(&[], 100));
    assert!(empty_ring.get_tkn(1).is_none());
    let mut zero = tx_set(1, &[], 100);
    // A request for zero bytes is answered by a ready token, shrunk to nothing.
    assert_eq!(zero.get_tkn(0).unwrap().0.len(), (0, 0));
    // With no token left and a free descriptor, no token of zero bytes is made.
    let mut bare = TxQueues::new(vec![Virtq::new(1, 1, false)], Vec::new(), false);
    assert!(bare.get_tkn(0).is_none());
    assert!(bare.get_tkn(5).is_some());
}

#[test]
fn send_writes_the_header_and_the_frame() {
    let mut tx = tx_set(2, &[], 1500);
    let mut caps = ChecksumCapabilities::default();
    caps.tcp = virtio_net::checksum::Checksum::Neither;
    caps.udp = virtio_net::checksum::Checksum::Neither;
    let frame: Vec<u8> = (1..=60).collect();
    tx.send(&frame, &caps);
    let sent = &tx.vqs[0].in_flight[0];
    assert_eq!(sent.len(), (72, 0));
    assert_eq!(&sent.send[..12], &[0u8; 12]);
    assert_eq!(&sent.send[12..72], &frame[..]);
    assert_eq!(VirtioNetHdr::decode(&sent.send), Some(VirtioNetHdr::default()));
}

#[test]
fn send_keeps_the_number_of_tokens() {
    let mut tx = tx_set(4, &[], 1500);
    let caps = ChecksumCapabilities::default();
    assert_eq!(tx_tokens(&mut tx), 4);
    for round in 0..3 {
        for len in [0usize, 14, 60, 1500] {
            tx.send(&vec![round as u8; len], &caps);
            assert_eq!(tx_tokens(&mut tx), 4);
            assert_eq!(tx.vqs[0].free, 0);
        }
        for _ in 0..4 {
            assert!(tx.vqs[0].device_complete(&[]));
        }
    }
    tx.poll();
    assert_eq!(tx.ready_queue.len(), 0);
    assert_eq!(tx.vqs[0].in_flight.len(), 0);
    assert_eq!(waiting(&mut tx.channel), 4);
    let mut in_channel = 0;
    while tx.channel.try_recv().is_some() {
        in_channel += 1;
    }
    assert_eq!(in_channel, 4);
}

#[test]
fn send_of_a_frame_larger_than_the_buffers_gives_tokens_up() {
    let mut tx = tx_set(3, &[], 100);
    let caps = ChecksumCapabilities::default();
    tx.send(&[0u8; 101], &caps);
    // All three ready tokens were too small; one new token is in flight.
    assert_eq!(tx_tokens(&mut tx), 1);
    assert_eq!(tx.vqs[0].free, 2);
    assert_eq!(tx.vqs[0].in_flight[0].send.len(), 113);
}

#[test]
fn tx_notifications() {
    let mut tx = tx_set(1, &[], 100);
    tx.add(Virtq::new(1, 3, false), &dev_cfg(&[], 100));
    tx.disable_notifs();
    assert!(!tx.vqs[0].notifs && !tx.vqs[1].notifs);
    tx.enable_notifs();
    assert!(tx.vqs[0].notifs && tx.vqs[1].notifs);
}

#[test]
fn device_events_on_the_queue_sets() {
    let mut rx = rx_set(2, &[], 100);
    assert!(!rx.device_complete(0, &[0u8; 113]));
    assert!(rx.device_complete(0, &[1, 2]));
    assert!(rx.device_complete(0, &[]));
    assert!(!rx.device_complete(0, &[3]));
    assert_eq!(rx.vqs[0].used.len(), 2);
    assert_eq!(rx.vqs[0].used[0].recv_len, 2);
    assert_eq!(rx_tokens(&mut rx), 2);

    let mut tx = tx_set(2, &[], 100);
    assert!(!tx.device_complete());
    assert!(tx.try_send(&[7u8; 30], &ChecksumCapabilities::default()));
    assert!(tx.device_complete());
    assert!(!tx.device_complete());
    assert_eq!(tx.vqs[0].used.len(), 1);
    assert_eq!(tx.vqs[0].used[0].send_len, 42);
    assert_eq!(tx_tokens(&mut tx), 2);
}

#[test]
fn a_token_that_was_handed_out_is_provided_with_its_header() {
    let mut tx = tx_set(1, &[], 100);
    let (mut tkn, index) = tx.get_tkn(12 + 4).unwrap();
    assert_eq!(index, 0);
    let mut hdr = VirtioNetHdr::default();
    hdr.csum_start = 14;
    assert!(tkn.write_seq(Some(&hdr.encode()), None).is_ok());
    tx.provide(tkn);
    assert_eq!(tx.vqs[0].in_flight.len(), 1);
    assert_eq!(VirtioNetHdr::decode(&tx.vqs[0].in_flight[0].send), Some(hdr));
    assert_eq!(tx_tokens(&mut tx), 1);
}

#[test]
fn has_token_for_tells_what_get_tkn_will_answer() {
    let mut tx = tx_set(1, &[], 100);
    assert!(tx.has_token_for(0));
    assert!(tx.has_token_for(112));
    // The ready token is too small, but its descriptor serves a new one.
    assert!(tx.has_token_for(5000));
    let caps = ChecksumCapabilities::default();
    assert!(tx.try_send(&[1u8; 10], &caps));
    assert!(!tx.has_token_for(0));
    assert!(!tx.has_token_for(22));
    assert!(tx.get_tkn(22).is_none());
    assert!(tx.device_complete());
    assert!(tx.has_token_for(22));
    assert!(tx.has_token_for(0));
    assert!(tx.get_tkn(22).is_some());

    let bare = TxQueues::new(vec![Virtq::new(1, 1, false)], Vec::new(), false);
    assert!(!bare.has_token_for(0));
    assert!(bare.has_token_for(1));
}

#[test]
fn try_send_leaves_the_ring_alone_without_a_token() {
    let mut tx = tx_set(1, &[], 100);
    let caps = ChecksumCapabilities::default();
    assert!(tx.try_send(&[1u8; 10], &caps));
    assert!(!tx.try_send(&[2u8; 10], &caps));
    assert_eq!(tx.vqs[0].in_flight.len(), 1);
    assert_eq!(tx.vqs[0].in_flight[0].send[12], 1);
    assert_eq!(tx.vqs[0].free, 0);
}

#[test]
fn a_set_of_several_rings_may_have_none() {
    let mut rx = RxQueues::new(Vec::new(), true);
    rx.poll();
    assert!(rx.get_next().is_none());
    assert_eq!(rx.receive(1500), None);
    rx.enable_notifs();
    rx.disable_notifs();
    let mut tx = TxQueues::new(Vec::new(), Vec::new(), true);
    tx.poll();
    tx.enable_notifs();
    tx.disable_notifs();
    assert!(tx.channel.is_empty());
}

#[test]
fn empty_queue_sets() {
    let rx = RxQueues::new(Vec::new(), false);
    assert!(rx.vqs.is_empty());
    assert!(rx.channel.is_empty());
    assert!(!rx.is_multi);
    let tx = TxQueues::new(Vec::new(), Vec::new(), true);
    assert!(tx.vqs.is_empty());
    assert!(tx.ready_queue.is_empty());
    assert!(tx.is_multi);
}
