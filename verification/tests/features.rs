use virtio_net::config::Status;
use virtio_net::error::VirtioNetError;
use virtio_net::features::{FeatureSet, Features};

fn bit(index: u32) -> u64 {
    1u64 << index
}

#[test]
fn feature_bits_are_the_documented_positions() {
    assert_eq!(u64::from(Features::VIRTIO_NET_F_CSUM), bit(0));
    assert_eq!(u64::from(Features::VIRTIO_NET_F_GUEST_CSUM), bit(1));
    assert_eq!(u64::from(Features::VIRTIO_NET_F_CTRL_GUEST_OFFLOADS), bit(2));
    assert_eq!(u64::from(Features::VIRTIO_NET_F_MTU), bit(3));
    assert_eq!(u64::from(Features::VIRTIO_NET_F_MAC), bit(5));
    assert_eq!(u64::from(Features::VIRTIO_NET_F_GUEST_TSO4), bit(7));
    assert_eq!(u64::from(Features::VIRTIO_NET_F_GUEST_TSO6), bit(8));
    assert_eq!(u64::from(Features::VIRTIO_NET_F_GUEST_ECN), bit(9));
    assert_eq!(u64::from(Features::VIRTIO_NET_F_GUEST_UFO), bit(10));
    assert_eq!(u64::from(Features::VIRTIO_NET_F_HOST_TSO4), bit(11));
    assert_eq!(u64::from(Features::VIRTIO_NET_F_HOST_TSO6), bit(12));
    assert_eq!(u64::from(Features::VIRTIO_NET_F_HOST_ECN), bit(13));
    assert_eq!(u64::from(Features::VIRTIO_NET_F_HOST_UFO), bit(14));
    assert_eq!(u64::from(Features::VIRTIO_NET_F_MRG_RXBUF), bit(15));
    assert_eq!(u64::from(Features::VIRTIO_NET_F_STATUS), bit(16));
    assert_eq!(u64::from(Features::VIRTIO_NET_F_CTRL_VQ), bit(17));
    assert_eq!(u64::from(Features::VIRTIO_NET_F_CTRL_RX), bit(18));
    assert_eq!(u64::from(Features::VIRTIO_NET_F_CTRL_VLAN), bit(19));
    assert_eq!(u64::from(Features::VIRTIO_NET_F_GUEST_ANNOUNCE), bit(21));
    assert_eq!(u64::from(Features::VIRTIO_NET_F_MQ), bit(22));
    assert_eq!(u64::from(Features::VIRTIO_NET_F_CTRL_MAC_ADDR), bit(23));
    assert_eq!(u64::from(Features::VIRTIO_F_RING_INDIRECT_DESC), bit(28));
    assert_eq!(u64::from(Features::VIRTIO_F_RING_EVENT_IDX), bit(29));
    assert_eq!(u64::from(Features::VIRTIO_F_VERSION_1), bit(32));
    assert_eq!(u64::from(Features::VIRTIO_F_ACCESS_PLATFORM), bit(33));
    assert_eq!(u64::from(Features::VIRTIO_F_RING_PACKED), bit(34));
    assert_eq!(u64::from(Features::VIRTIO_F_IN_ORDER), bit(35));
    assert_eq!(u64::from(Features::VIRTIO_F_ORDER_PLATFORM), bit(36));
    assert_eq!(u64::from(Features::VIRTIO_F_SR_IOV), bit(37));
    assert_eq!(u64::from(Features::VIRTIO_F_NOTIFICATION_DATA), bit(38));
    assert_eq!(u64::from(Features::VIRTIO_NET_F_GUEST_HDRLEN), bit(59));
    assert_eq!(u64::from(Features::VIRTIO_NET_F_RSC_EXT), bit(61));
    assert_eq!(u64::from(Features::VIRTIO_NET_F_STANDBY), bit(62));
}

#[test]
fn feature_index_and_bits_agree() {
    assert_eq!(Features::VIRTIO_F_VERSION_1.index(), 32);
    assert_eq!(Features::VIRTIO_F_VERSION_1.bits(), 0x1_0000_0000);
    assert_eq!(Features::VIRTIO_NET_F_STANDBY.index(), 62);
}

#[test]
fn feature_names() {
    assert_eq!(Features::VIRTIO_NET_F_CSUM.name(), "VIRTIO_NET_F_CSUM");
    assert_eq!(Features::VIRTIO_F_RING_PACKED.name(), "VIRTIO_F_RING_PACKED");
    assert_eq!(Features::VIRTIO_NET_F_GUEST_UFO.name(), "VIRTIO_NET_FGUEST_UFO");
}

#[test]
fn status_values() {
    assert_eq!(u16::from(Status::VIRTIO_NET_S_LINK_UP), 1);
    assert_eq!(u16::from(Status::VIRTIO_NET_S_ANNOUNCE), 2);
}

#[test]
fn operators_on_features_and_sets() {
    let csum = Features::VIRTIO_NET_F_CSUM;
    let mac = Features::VIRTIO_NET_F_MAC;
    assert_eq!(csum | mac, 0b10_0001);
    assert_eq!(csum & mac, 0);
    assert_eq!(csum & csum, 1);
    assert_eq!(0b100u64 | mac, 0b10_0100);
    assert_eq!(0b10_0100u64 & mac, 0b10_0000);
    let mut value = 2u64;
    value |= mac;
    assert_eq!(value, 0b10_0010);
    value &= mac;
    assert_eq!(value, 0b10_0000);

    let a = FeatureSet::new(0b0110);
    let b = FeatureSet::new(0b0011);
    assert_eq!(a | b, FeatureSet::new(0b0111));
    assert_eq!(a & b, FeatureSet::new(0b0010));
    assert_eq!(0b1000u64 | a, 0b1110);
    assert_eq!(0b1100u64 & a, 0b0100);
    let mut value = 0b1000u64;
    value |= a;
    assert_eq!(value, 0b1110);
    value &= b;
    assert_eq!(value, 0b0010);
    let mut set = FeatureSet::new(0);
    set |= Features::VIRTIO_NET_F_MTU;
    assert_eq!(u64::from(set), 8);
    assert_eq!(set.bits(), 8);
}

#[test]
fn is_feature_tests_one_bit() {
    let set = FeatureSet::new(bit(5) | bit(32));
    assert!(set.is_feature(Features::VIRTIO_NET_F_MAC));
    assert!(set.is_feature(Features::VIRTIO_F_VERSION_1));
    assert!(!set.is_feature(Features::VIRTIO_NET_F_CSUM));
    assert!(!FeatureSet::new(0).is_feature(Features::VIRTIO_NET_F_MAC));
}

#[test]
fn set_features_keeps_what_was_set() {
    let mut set = FeatureSet::new(bit(40));
    set.set_features(&[Features::VIRTIO_NET_F_MAC, Features::VIRTIO_NET_F_MTU, Features::VIRTIO_NET_F_MAC]);
    assert_eq!(set, FeatureSet::new(bit(40) | bit(5) | bit(3)));
    set.set_features(&[]);
    assert_eq!(set, FeatureSet::new(bit(40) | bit(5) | bit(3)));
}

#[test]
fn from_set_lists_the_known_features_from_the_lowest_bit_up() {
    let set = FeatureSet::new(bit(32) | bit(0) | bit(15) | bit(5));
    assert_eq!(
        Features::from_set(set),
        Some(vec![
            Features::VIRTIO_NET_F_CSUM,
            Features::VIRTIO_NET_F_MAC,
            Features::VIRTIO_NET_F_MRG_RXBUF,
            Features::VIRTIO_F_VERSION_1,
        ])
    );
}

#[test]
fn from_set_of_no_known_feature_is_none() {
    assert_eq!(Features::from_set(FeatureSet::new(0)), None);
    // Bits 4, 6 and 63 belong to no known feature.
    assert_eq!(Features::from_set(FeatureSet::new(bit(4) | bit(6) | bit(63))), None);
}

#[test]
fn from_set_of_all_bits_lists_all_features() {
    let list = Features::from_set(FeatureSet::new(u64::MAX)).unwrap();
    assert_eq!(list.len(), 33);
    assert_eq!(list[0], Features::VIRTIO_NET_F_CSUM);
    assert_eq!(list[32], Features::VIRTIO_NET_F_STANDBY);
}

#[test]
fn list_form_round_trip_loses_only_unknown_bits() {
    let bits = bit(1) | bit(3) | bit(22) | bit(17) | bit(61) | bit(11) | bit(0);
    let list = Features::from_set(FeatureSet::new(bits | bit(63))).unwrap();
    let mut set = FeatureSet::new(0);
    set.set_features(&list);
    assert_eq!(set, FeatureSet::new(bits));
}

#[test]
fn check_features_accepts_independent_features() {
    let list = [Features::VIRTIO_F_VERSION_1, Features::VIRTIO_NET_F_MAC];
    assert_eq!(FeatureSet::check_features(&list), Ok(()));
    assert_eq!(FeatureSet::check_features(&[]), Ok(()));
}

#[test]
fn check_features_rejects_tso_without_checksum() {
    let list = [Features::VIRTIO_NET_F_GUEST_TSO4, Features::VIRTIO_NET_F_MAC];
    let bits = bit(7) | bit(5);
    assert_eq!(
        FeatureSet::check_features(&list),
        Err(VirtioNetError::FeatureRequirementsNotMet(FeatureSet::new(bits)))
    );
}

fn rejected(list: &[Features]) -> bool {
    let mut set = FeatureSet::new(0);
    set.set_features(list);
    FeatureSet::check_features(list) == Err(VirtioNetError::FeatureRequirementsNotMet(set))
}

#[test]
fn check_features_follows_every_dependency() {
    // Each dependent feature alone is rejected, and accepted with what it requires.
    for (feature, required) in [
        (Features::VIRTIO_NET_F_GUEST_TSO4, Features::VIRTIO_NET_F_GUEST_CSUM),
        (Features::VIRTIO_NET_F_GUEST_TSO6, Features::VIRTIO_NET_F_GUEST_CSUM),
        (Features::VIRTIO_NET_F_GUEST_UFO, Features::VIRTIO_NET_F_GUEST_CSUM),
        (Features::VIRTIO_NET_F_HOST_TSO4, Features::VIRTIO_NET_F_CSUM),
        (Features::VIRTIO_NET_F_HOST_TSO6, Features::VIRTIO_NET_F_CSUM),
        (Features::VIRTIO_NET_F_HOST_UFO, Features::VIRTIO_NET_F_CSUM),
        (Features::VIRTIO_NET_F_CTRL_RX, Features::VIRTIO_NET_F_CTRL_VQ),
        (Features::VIRTIO_NET_F_CTRL_VLAN, Features::VIRTIO_NET_F_CTRL_VQ),
        (Features::VIRTIO_NET_F_GUEST_ANNOUNCE, Features::VIRTIO_NET_F_CTRL_VQ),
        (Features::VIRTIO_NET_F_MQ, Features::VIRTIO_NET_F_CTRL_VQ),
        (Features::VIRTIO_NET_F_CTRL_MAC_ADDR, Features::VIRTIO_NET_F_CTRL_VQ),
    ] {
        assert!(rejected(&[feature]));
        assert_eq!(FeatureSet::check_features(&[feature, required]), Ok(()));
        assert_eq!(FeatureSet::check_features(&[required, feature]), Ok(()));
    }
}

#[test]
fn check_features_accepts_either_of_two_alternatives() {
    assert!(rejected(&[Features::VIRTIO_NET_F_GUEST_ECN]));
    assert!(rejected(&[Features::VIRTIO_NET_F_GUEST_ECN, Features::VIRTIO_NET_F_GUEST_CSUM]));
    assert_eq!(
        FeatureSet::check_features(&[Features::VIRTIO_NET_F_GUEST_ECN, Features::VIRTIO_NET_F_GUEST_TSO4, Features::VIRTIO_NET_F_GUEST_CSUM]),
        Ok(())
    );
    assert_eq!(
        FeatureSet::check_features(&[Features::VIRTIO_NET_F_GUEST_ECN, Features::VIRTIO_NET_F_GUEST_TSO6, Features::VIRTIO_NET_F_GUEST_CSUM]),
        Ok(())
    );
    assert!(rejected(&[Features::VIRTIO_NET_F_HOST_ECN, Features::VIRTIO_NET_F_CSUM]));
    assert_eq!(
        FeatureSet::check_features(&[Features::VIRTIO_NET_F_HOST_ECN, Features::VIRTIO_NET_F_HOST_TSO4, Features::VIRTIO_NET_F_CSUM]),
        Ok(())
    );
    assert!(rejected(&[Features::VIRTIO_NET_F_RSC_EXT]));
    assert_eq!(
        FeatureSet::check_features(&[Features::VIRTIO_NET_F_RSC_EXT, Features::VIRTIO_NET_F_HOST_TSO6, Features::VIRTIO_NET_F_CSUM]),
        Ok(())
    );
}

#[test]
fn check_features_does_not_depend_on_order_or_repetition() {
    let a = [Features::VIRTIO_NET_F_MQ, Features::VIRTIO_NET_F_CTRL_VQ, Features::VIRTIO_NET_F_HOST_TSO4];
    let b = [Features::VIRTIO_NET_F_HOST_TSO4, Features::VIRTIO_NET_F_HOST_TSO4, Features::VIRTIO_NET_F_CTRL_VQ, Features::VIRTIO_NET_F_MQ];
    let expected = Err(VirtioNetError::FeatureRequirementsNotMet(FeatureSet::new(
        bit(22) | bit(17) | bit(11),
    )));
    assert_eq!(FeatureSet::check_features(&a), expected);
    assert_eq!(FeatureSet::check_features(&b), expected);
    assert_eq!(FeatureSet::check_features(&a), FeatureSet::check_features(&a));
}
