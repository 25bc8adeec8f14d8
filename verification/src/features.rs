//! Feature bits of a virtio network device and sets of them.
//!
//! A feature is one position in a 64-bit space. A [`FeatureSet`] packs any
//! number of them into one `u64`; the list form is a sequence of [`Features`].

use vstd::prelude::*;
use crate::error::VirtioNetError;

verus! {

/// The features of a virtio network device and the general virtio features
/// that the driver knows, each with its bit position.
#[allow(non_camel_case_types)]
#[derive(Copy, Clone, Debug, PartialEq, Eq, Structural)]
pub enum Features {
    VIRTIO_NET_F_CSUM,
    VIRTIO_NET_F_GUEST_CSUM,
    VIRTIO_NET_F_CTRL_GUEST_OFFLOADS,
    VIRTIO_NET_F_MTU,
    VIRTIO_NET_F_MAC,
    VIRTIO_NET_F_GUEST_TSO4,
    VIRTIO_NET_F_GUEST_TSO6,
    VIRTIO_NET_F_GUEST_ECN,
    VIRTIO_NET_F_GUEST_UFO,
    VIRTIO_NET_F_HOST_TSO4,
    VIRTIO_NET_F_HOST_TSO6,
    VIRTIO_NET_F_HOST_ECN,
    VIRTIO_NET_F_HOST_UFO,
    VIRTIO_NET_F_MRG_RXBUF,
    VIRTIO_NET_F_STATUS,
    VIRTIO_NET_F_CTRL_VQ,
    VIRTIO_NET_F_CTRL_RX,
    VIRTIO_NET_F_CTRL_VLAN,
    VIRTIO_NET_F_GUEST_ANNOUNCE,
    VIRTIO_NET_F_MQ,
    VIRTIO_NET_F_CTRL_MAC_ADDR,
    VIRTIO_F_RING_INDIRECT_DESC,
    VIRTIO_F_RING_EVENT_IDX,
    VIRTIO_F_VERSION_1,
    VIRTIO_F_ACCESS_PLATFORM,
    VIRTIO_F_RING_PACKED,
    VIRTIO_F_IN_ORDER,
    VIRTIO_F_ORDER_PLATFORM,
    VIRTIO_F_SR_IOV,
    VIRTIO_F_NOTIFICATION_DATA,
    VIRTIO_NET_F_GUEST_HDRLEN,
    VIRTIO_NET_F_RSC_EXT,
    VIRTIO_NET_F_STANDBY,
}

/// The number of features that the driver knows.
pub const NUM_FEATURES: usize = 33;

impl Features {
    /// The position of the feature's bit in the 64-bit feature space.
    pub open spec fn bit_index(self) -> u64 {
        match self {
            Features::VIRTIO_NET_F_CSUM => 0,
            Features::VIRTIO_NET_F_GUEST_CSUM => 1,
            Features::VIRTIO_NET_F_CTRL_GUEST_OFFLOADS => 2,
            Features::VIRTIO_NET_F_MTU => 3,
            Features::VIRTIO_NET_F_MAC => 5,
            Features::VIRTIO_NET_F_GUEST_TSO4 => 7,
            Features::VIRTIO_NET_F_GUEST_TSO6 => 8,
            Features::VIRTIO_NET_F_GUEST_ECN => 9,
            Features::VIRTIO_NET_F_GUEST_UFO => 10,
            Features::VIRTIO_NET_F_HOST_TSO4 => 11,
            Features::VIRTIO_NET_F_HOST_TSO6 => 12,
            Features::VIRTIO_NET_F_HOST_ECN => 13,
            Features::VIRTIO_NET_F_HOST_UFO => 14,
            Features::VIRTIO_NET_F_MRG_RXBUF => 15,
            Features::VIRTIO_NET_F_STATUS => 16,
            Features::VIRTIO_NET_F_CTRL_VQ => 17,
            Features::VIRTIO_NET_F_CTRL_RX => 18,
            Features::VIRTIO_NET_F_CTRL_VLAN => 19,
            Features::VIRTIO_NET_F_GUEST_ANNOUNCE => 21,
            Features::VIRTIO_NET_F_MQ => 22,
            Features::VIRTIO_NET_F_CTRL_MAC_ADDR => 23,
            Features::VIRTIO_F_RING_INDIRECT_DESC => 28,
            Features::VIRTIO_F_RING_EVENT_IDX => 29,
            Features::VIRTIO_F_VERSION_1 => 32,
            Features::VIRTIO_F_ACCESS_PLATFORM => 33,
            Features::VIRTIO_F_RING_PACKED => 34,
            Features::VIRTIO_F_IN_ORDER => 35,
            Features::VIRTIO_F_ORDER_PLATFORM => 36,
            Features::VIRTIO_F_SR_IOV => 37,
            Features::VIRTIO_F_NOTIFICATION_DATA => 38,
            Features::VIRTIO_NET_F_GUEST_HDRLEN => 59,
            Features::VIRTIO_NET_F_RSC_EXT => 61,
            Features::VIRTIO_NET_F_STANDBY => 62,
        }
    }

    /// The feature as a 64-bit value with only its own bit set.
    pub open spec fn mask(self) -> u64 {
        1u64 << self.bit_index()
    }

    /// What the feature needs of the set it stands in: the dependencies
    /// between the features of a network device.
    pub open spec fn requirement_met(self, set: FeatureSet) -> bool {
        match self {
            Features::VIRTIO_NET_F_GUEST_TSO4
            | Features::VIRTIO_NET_F_GUEST_TSO6
            | Features::VIRTIO_NET_F_GUEST_UFO => set.contains(Features::VIRTIO_NET_F_GUEST_CSUM),
            Features::VIRTIO_NET_F_GUEST_ECN => set.contains(Features::VIRTIO_NET_F_GUEST_TSO4)
                || set.contains(Features::VIRTIO_NET_F_GUEST_TSO6),
            Features::VIRTIO_NET_F_HOST_TSO4
            | Features::VIRTIO_NET_F_HOST_TSO6
            | Features::VIRTIO_NET_F_HOST_UFO => set.contains(Features::VIRTIO_NET_F_CSUM),
            Features::VIRTIO_NET_F_HOST_ECN | Features::VIRTIO_NET_F_RSC_EXT => set.contains(
                Features::VIRTIO_NET_F_HOST_TSO4,
            ) || set.contains(Features::VIRTIO_NET_F_HOST_TSO6),
            Features::VIRTIO_NET_F_CTRL_RX
            | Features::VIRTIO_NET_F_CTRL_VLAN
            | Features::VIRTIO_NET_F_GUEST_ANNOUNCE
            | Features::VIRTIO_NET_F_MQ
            | Features::VIRTIO_NET_F_CTRL_MAC_ADDR => set.contains(Features::VIRTIO_NET_F_CTRL_VQ),
            _ => true,
        }
    }

    /// The position of the feature's bit.
    pub fn index(self) -> (i: u64)
        ensures
            i == self.bit_index(),
            i < 64,
    {
        match self {
            Features::VIRTIO_NET_F_CSUM => 0,
            Features::VIRTIO_NET_F_GUEST_CSUM => 1,
            Features::VIRTIO_NET_F_CTRL_GUEST_OFFLOADS => 2,
            Features::VIRTIO_NET_F_MTU => 3,
            Features::VIRTIO_NET_F_MAC => 5,
            Features::VIRTIO_NET_F_GUEST_TSO4 => 7,
            Features::VIRTIO_NET_F_GUEST_TSO6 => 8,
            Features::VIRTIO_NET_F_GUEST_ECN => 9,
            Features::VIRTIO_NET_F_GUEST_UFO => 10,
            Features::VIRTIO_NET_F_HOST_TSO4 => 11,
            Features::VIRTIO_NET_F_HOST_TSO6 => 12,
            Features::VIRTIO_NET_F_HOST_ECN => 13,
            Features::VIRTIO_NET_F_HOST_UFO => 14,
            Features::VIRTIO_NET_F_MRG_RXBUF => 15,
            Features::VIRTIO_NET_F_STATUS => 16,
            Features::VIRTIO_NET_F_CTRL_VQ => 17,
            Features::VIRTIO_NET_F_CTRL_RX => 18,
            Features::VIRTIO_NET_F_CTRL_VLAN => 19,
            Features::VIRTIO_NET_F_GUEST_ANNOUNCE => 21,
            Features::VIRTIO_NET_F_MQ => 22,
            Features::VIRTIO_NET_F_CTRL_MAC_ADDR => 23,
            Features::VIRTIO_F_RING_INDIRECT_DESC => 28,
            Features::VIRTIO_F_RING_EVENT_IDX => 29,
            Features::VIRTIO_F_VERSION_1 => 32,
            Features::VIRTIO_F_ACCESS_PLATFORM => 33,
            Features::VIRTIO_F_RING_PACKED => 34,
            Features::VIRTIO_F_IN_ORDER => 35,
            Features::VIRTIO_F_ORDER_PLATFORM => 36,
            Features::VIRTIO_F_SR_IOV => 37,
            Features::VIRTIO_F_NOTIFICATION_DATA => 38,
            Features::VIRTIO_NET_F_GUEST_HDRLEN => 59,
            Features::VIRTIO_NET_F_RSC_EXT => 61,
            Features::VIRTIO_NET_F_STANDBY => 62,
        }
    }

    /// The feature as a 64-bit value with only its own bit set.
    pub fn bits(self) -> (r: u64)
        ensures
            r == self.mask(),
    {
        let i: u64 = self.index();
        1u64 << i
    }

    /// The place of the feature among all the features, counted from the
    /// lowest bit up.
    pub open spec fn ordinal(self) -> int {
        match self {
            Features::VIRTIO_NET_F_CSUM => 0,
            Features::VIRTIO_NET_F_GUEST_CSUM => 1,
            Features::VIRTIO_NET_F_CTRL_GUEST_OFFLOADS => 2,
            Features::VIRTIO_NET_F_MTU => 3,
            Features::VIRTIO_NET_F_MAC => 4,
            Features::VIRTIO_NET_F_GUEST_TSO4 => 5,
            Features::VIRTIO_NET_F_GUEST_TSO6 => 6,
            Features::VIRTIO_NET_F_GUEST_ECN => 7,
            Features::VIRTIO_NET_F_GUEST_UFO => 8,
            Features::VIRTIO_NET_F_HOST_TSO4 => 9,
            Features::VIRTIO_NET_F_HOST_TSO6 => 10,
            Features::VIRTIO_NET_F_HOST_ECN => 11,
            Features::VIRTIO_NET_F_HOST_UFO => 12,
            Features::VIRTIO_NET_F_MRG_RXBUF => 13,
            Features::VIRTIO_NET_F_STATUS => 14,
            Features::VIRTIO_NET_F_CTRL_VQ => 15,
            Features::VIRTIO_NET_F_CTRL_RX => 16,
            Features::VIRTIO_NET_F_CTRL_VLAN => 17,
            Features::VIRTIO_NET_F_GUEST_ANNOUNCE => 18,
            Features::VIRTIO_NET_F_MQ => 19,
            Features::VIRTIO_NET_F_CTRL_MAC_ADDR => 20,
            Features::VIRTIO_F_RING_INDIRECT_DESC => 21,
            Features::VIRTIO_F_RING_EVENT_IDX => 22,
            Features::VIRTIO_F_VERSION_1 => 23,
            Features::VIRTIO_F_ACCESS_PLATFORM => 24,
            Features::VIRTIO_F_RING_PACKED => 25,
            Features::VIRTIO_F_IN_ORDER => 26,
            Features::VIRTIO_F_ORDER_PLATFORM => 27,
            Features::VIRTIO_F_SR_IOV => 28,
            Features::VIRTIO_F_NOTIFICATION_DATA => 29,
            Features::VIRTIO_NET_F_GUEST_HDRLEN => 30,
            Features::VIRTIO_NET_F_RSC_EXT => 31,
            Features::VIRTIO_NET_F_STANDBY => 32,
        }
    }

    /// The name of the feature as text.
    pub open spec fn name_spec(self) -> Seq<char> {
        match self {
            Features::VIRTIO_NET_F_CSUM => "VIRTIO_NET_F_CSUM"@,
            Features::VIRTIO_NET_F_GUEST_CSUM => "VIRTIO_NET_F_GUEST_CSUM"@,
            Features::VIRTIO_NET_F_CTRL_GUEST_OFFLOADS => "VIRTIO_NET_F_CTRL_GUEST_OFFLOADS"@,
            Features::VIRTIO_NET_F_MTU => "VIRTIO_NET_F_MTU"@,
            Features::VIRTIO_NET_F_MAC => "VIRTIO_NET_F_MAC"@,
            Features::VIRTIO_NET_F_GUEST_TSO4 => "VIRTIO_NET_F_GUEST_TSO4"@,
            Features::VIRTIO_NET_F_GUEST_TSO6 => "VIRTIO_NET_F_GUEST_TSO6"@,
            Features::VIRTIO_NET_F_GUEST_ECN => "VIRTIO_NET_F_GUEST_ECN"@,
            Features::VIRTIO_NET_F_GUEST_UFO => "VIRTIO_NET_FGUEST_UFO"@,
            Features::VIRTIO_NET_F_HOST_TSO4 => "VIRTIO_NET_F_HOST_TSO4"@,
            Features::VIRTIO_NET_F_HOST_TSO6 => "VIRTIO_NET_F_HOST_TSO6"@,
            Features::VIRTIO_NET_F_HOST_ECN => "VIRTIO_NET_F_HOST_ECN"@,
            Features::VIRTIO_NET_F_HOST_UFO => "VIRTIO_NET_F_HOST_UFO"@,
            Features::VIRTIO_NET_F_MRG_RXBUF => "VIRTIO_NET_F_MRG_RXBUF"@,
            Features::VIRTIO_NET_F_STATUS => "VIRTIO_NET_F_STATUS"@,
            Features::VIRTIO_NET_F_CTRL_VQ => "VIRTIO_NET_F_CTRL_VQ"@,
            Features::VIRTIO_NET_F_CTRL_RX => "VIRTIO_NET_F_CTRL_RX"@,
            Features::VIRTIO_NET_F_CTRL_VLAN => "VIRTIO_NET_F_CTRL_VLAN"@,
            Features::VIRTIO_NET_F_GUEST_ANNOUNCE => "VIRTIO_NET_F_GUEST_ANNOUNCE"@,
            Features::VIRTIO_NET_F_MQ => "VIRTIO_NET_F_MQ"@,
            Features::VIRTIO_NET_F_CTRL_MAC_ADDR => "VIRTIO_NET_F_CTRL_MAC_ADDR"@,
            Features::VIRTIO_F_RING_INDIRECT_DESC => "VIRTIO_F_RING_INDIRECT_DESC"@,
            Features::VIRTIO_F_RING_EVENT_IDX => "VIRTIO_F_RING_EVENT_IDX"@,
            Features::VIRTIO_F_VERSION_1 => "VIRTIO_F_VERSION_1"@,
            Features::VIRTIO_F_ACCESS_PLATFORM => "VIRTIO_F_ACCESS_PLATFORM"@,
            Features::VIRTIO_F_RING_PACKED => "VIRTIO_F_RING_PACKED"@,
            Features::VIRTIO_F_IN_ORDER => "VIRTIO_F_IN_ORDER"@,
            Features::VIRTIO_F_ORDER_PLATFORM => "VIRTIO_F_ORDER_PLATFORM"@,
            Features::VIRTIO_F_SR_IOV => "VIRTIO_F_SR_IOV"@,
            Features::VIRTIO_F_NOTIFICATION_DATA => "VIRTIO_F_NOTIFICATION_DATA"@,
            Features::VIRTIO_NET_F_GUEST_HDRLEN => "VIRTIO_NET_F_GUEST_HDRLEN"@,
            Features::VIRTIO_NET_F_RSC_EXT => "VIRTIO_NET_F_RSC_EXT"@,
            Features::VIRTIO_NET_F_STANDBY => "VIRTIO_NET_F_STANDBY"@,
        }
    }

    /// The name of the feature as text.
    pub fn name(self) -> (s: &'static str)
        ensures
            s@ == self.name_spec(),
    {
        match self {
            Features::VIRTIO_NET_F_CSUM => "VIRTIO_NET_F_CSUM",
            Features::VIRTIO_NET_F_GUEST_CSUM => "VIRTIO_NET_F_GUEST_CSUM",
            Features::VIRTIO_NET_F_CTRL_GUEST_OFFLOADS => "VIRTIO_NET_F_CTRL_GUEST_OFFLOADS",
            Features::VIRTIO_NET_F_MTU => "VIRTIO_NET_F_MTU",
            Features::VIRTIO_NET_F_MAC => "VIRTIO_NET_F_MAC",
            Features::VIRTIO_NET_F_GUEST_TSO4 => "VIRTIO_NET_F_GUEST_TSO4",
            Features::VIRTIO_NET_F_GUEST_TSO6 => "VIRTIO_NET_F_GUEST_TSO6",
            Features::VIRTIO_NET_F_GUEST_ECN => "VIRTIO_NET_F_GUEST_ECN",
            Features::VIRTIO_NET_F_GUEST_UFO => "VIRTIO_NET_FGUEST_UFO",
            Features::VIRTIO_NET_F_HOST_TSO4 => "VIRTIO_NET_F_HOST_TSO4",
            Features::VIRTIO_NET_F_HOST_TSO6 => "VIRTIO_NET_F_HOST_TSO6",
            Features::VIRTIO_NET_F_HOST_ECN => "VIRTIO_NET_F_HOST_ECN",
            Features::VIRTIO_NET_F_HOST_UFO => "VIRTIO_NET_F_HOST_UFO",
            Features::VIRTIO_NET_F_MRG_RXBUF => "VIRTIO_NET_F_MRG_RXBUF",
            Features::VIRTIO_NET_F_STATUS => "VIRTIO_NET_F_STATUS",
            Features::VIRTIO_NET_F_CTRL_VQ => "VIRTIO_NET_F_CTRL_VQ",
            Features::VIRTIO_NET_F_CTRL_RX => "VIRTIO_NET_F_CTRL_RX",
            Features::VIRTIO_NET_F_CTRL_VLAN => "VIRTIO_NET_F_CTRL_VLAN",
            Features::VIRTIO_NET_F_GUEST_ANNOUNCE => "VIRTIO_NET_F_GUEST_ANNOUNCE",
            Features::VIRTIO_NET_F_MQ => "VIRTIO_NET_F_MQ",
            Features::VIRTIO_NET_F_CTRL_MAC_ADDR => "VIRTIO_NET_F_CTRL_MAC_ADDR",
            Features::VIRTIO_F_RING_INDIRECT_DESC => "VIRTIO_F_RING_INDIRECT_DESC",
            Features::VIRTIO_F_RING_EVENT_IDX => "VIRTIO_F_RING_EVENT_IDX",
            Features::VIRTIO_F_VERSION_1 => "VIRTIO_F_VERSION_1",
            Features::VIRTIO_F_ACCESS_PLATFORM => "VIRTIO_F_ACCESS_PLATFORM",
            Features::VIRTIO_F_RING_PACKED => "VIRTIO_F_RING_PACKED",
            Features::VIRTIO_F_IN_ORDER => "VIRTIO_F_IN_ORDER",
            Features::VIRTIO_F_ORDER_PLATFORM => "VIRTIO_F_ORDER_PLATFORM",
            Features::VIRTIO_F_SR_IOV => "VIRTIO_F_SR_IOV",
            Features::VIRTIO_F_NOTIFICATION_DATA => "VIRTIO_F_NOTIFICATION_DATA",
            Features::VIRTIO_NET_F_GUEST_HDRLEN => "VIRTIO_NET_F_GUEST_HDRLEN",
            Features::VIRTIO_NET_F_RSC_EXT => "VIRTIO_NET_F_RSC_EXT",
            Features::VIRTIO_NET_F_STANDBY => "VIRTIO_NET_F_STANDBY",
        }
    }

    /// The list form of a set: the known features whose bit is set, from the
    /// lowest bit up. `None` if the set holds no known feature.
    pub fn from_set(feature_set: FeatureSet) -> (r: Option<Vec<Features>>)
        ensures
            match r {
                Some(list) => list@ == listed(feature_set) && list@.len() > 0,
                None => listed(feature_set).len() == 0,
            },
    {
        let table = feature_table();
        let mut list: Vec<Features> = Vec::new();
        let mut i: usize = 0;
        while i < NUM_FEATURES
            invariant
                i <= NUM_FEATURES,
                table@ == all_features(),
                all_features().len() == NUM_FEATURES,
                list@ == all_features().take(i as int).filter(|f: Features| feature_set.contains(f)),
            decreases NUM_FEATURES - i,
        {
            proof {
                assert(all_features().take(i + 1).drop_last() =~= all_features().take(i as int));
                assert(all_features().take(i + 1).last() == all_features()[i as int]);
                reveal(Seq::filter);
            }
            if feature_set.is_feature(table[i]) {
                list.push(table[i]);
            }
            i = i + 1;
        }
        proof {
            assert(all_features().take(NUM_FEATURES as int) =~= all_features());
        }
        if list.len() == 0 {
            None
        } else {
            Some(list)
        }
    }
}

/// All the features that the driver knows, from the lowest bit up.
pub open spec fn all_features() -> Seq<Features> {
    seq![
        Features::VIRTIO_NET_F_CSUM,
        Features::VIRTIO_NET_F_GUEST_CSUM,
        Features::VIRTIO_NET_F_CTRL_GUEST_OFFLOADS,
        Features::VIRTIO_NET_F_MTU,
        Features::VIRTIO_NET_F_MAC,
        Features::VIRTIO_NET_F_GUEST_TSO4,
        Features::VIRTIO_NET_F_GUEST_TSO6,
        Features::VIRTIO_NET_F_GUEST_ECN,
        Features::VIRTIO_NET_F_GUEST_UFO,
        Features::VIRTIO_NET_F_HOST_TSO4,
        Features::VIRTIO_NET_F_HOST_TSO6,
        Features::VIRTIO_NET_F_HOST_ECN,
        Features::VIRTIO_NET_F_HOST_UFO,
        Features::VIRTIO_NET_F_MRG_RXBUF,
        Features::VIRTIO_NET_F_STATUS,
        Features::VIRTIO_NET_F_CTRL_VQ,
        Features::VIRTIO_NET_F_CTRL_RX,
        Features::VIRTIO_NET_F_CTRL_VLAN,
        Features::VIRTIO_NET_F_GUEST_ANNOUNCE,
        Features::VIRTIO_NET_F_MQ,
        Features::VIRTIO_NET_F_CTRL_MAC_ADDR,
        Features::VIRTIO_F_RING_INDIRECT_DESC,
        Features::VIRTIO_F_RING_EVENT_IDX,
        Features::VIRTIO_F_VERSION_1,
        Features::VIRTIO_F_ACCESS_PLATFORM,
        Features::VIRTIO_F_RING_PACKED,
        Features::VIRTIO_F_IN_ORDER,
        Features::VIRTIO_F_ORDER_PLATFORM,
        Features::VIRTIO_F_SR_IOV,
        Features::VIRTIO_F_NOTIFICATION_DATA,
        Features::VIRTIO_NET_F_GUEST_HDRLEN,
        Features::VIRTIO_NET_F_RSC_EXT,
        Features::VIRTIO_NET_F_STANDBY,
    ]
}

/// The known features of a set, from the lowest bit up.
pub open spec fn listed(set: FeatureSet) -> Seq<Features> {
    all_features().filter(|f: Features| set.contains(f))
}

/// The bits of all the features that the driver knows.
pub open spec fn known_bits() -> u64 {
    union_of(all_features())
}

fn feature_table() -> (table: [Features; 33])
    ensures
        table@ == all_features(),
{
    let table = [
        Features::VIRTIO_NET_F_CSUM,
        Features::VIRTIO_NET_F_GUEST_CSUM,
        Features::VIRTIO_NET_F_CTRL_GUEST_OFFLOADS,
        Features::VIRTIO_NET_F_MTU,
        Features::VIRTIO_NET_F_MAC,
        Features::VIRTIO_NET_F_GUEST_TSO4,
        Features::VIRTIO_NET_F_GUEST_TSO6,
        Features::VIRTIO_NET_F_GUEST_ECN,
        Features::VIRTIO_NET_F_GUEST_UFO,
        Features::VIRTIO_NET_F_HOST_TSO4,
        Features::VIRTIO_NET_F_HOST_TSO6,
        Features::VIRTIO_NET_F_HOST_ECN,
        Features::VIRTIO_NET_F_HOST_UFO,
        Features::VIRTIO_NET_F_MRG_RXBUF,
        Features::VIRTIO_NET_F_STATUS,
        Features::VIRTIO_NET_F_CTRL_VQ,
        Features::VIRTIO_NET_F_CTRL_RX,
        Features::VIRTIO_NET_F_CTRL_VLAN,
        Features::VIRTIO_NET_F_GUEST_ANNOUNCE,
        Features::VIRTIO_NET_F_MQ,
        Features::VIRTIO_NET_F_CTRL_MAC_ADDR,
        Features::VIRTIO_F_RING_INDIRECT_DESC,
        Features::VIRTIO_F_RING_EVENT_IDX,
        Features::VIRTIO_F_VERSION_1,
        Features::VIRTIO_F_ACCESS_PLATFORM,
        Features::VIRTIO_F_RING_PACKED,
        Features::VIRTIO_F_IN_ORDER,
        Features::VIRTIO_F_ORDER_PLATFORM,
        Features::VIRTIO_F_SR_IOV,
        Features::VIRTIO_F_NOTIFICATION_DATA,
        Features::VIRTIO_NET_F_GUEST_HDRLEN,
        Features::VIRTIO_NET_F_RSC_EXT,
        Features::VIRTIO_NET_F_STANDBY,
    ];
    assert(table@ =~= all_features());
    table
}

/// The bits of all the features of a list, taken together.
pub open spec fn union_of(features: Seq<Features>) -> u64
    decreases features.len(),
{
    if features.len() == 0 {
        0
    } else {
        union_of(features.drop_last()) | features.last().mask()
    }
}

/// A set of features, packed into 64 bits. Bits that belong to no known
/// feature are kept as they are.
#[derive(Debug, Copy, Clone, PartialEq, Eq, Structural)]
pub struct FeatureSet(pub u64);

impl View for FeatureSet {
    type V = u64;

    /// The 64 bits of the set.
    open spec fn view(&self) -> u64 {
        self.0
    }
}

impl FeatureSet {
    /// Whether the feature's bit is set.
    pub open spec fn contains(self, feature: Features) -> bool {
        self.0 & feature.mask() != 0
    }

    /// Whether every feature of the set has what it needs in the set.
    pub open spec fn dependencies_hold(self) -> bool {
        forall|f: Features| #[trigger] self.contains(f) ==> f.requirement_met(self)
    }

    /// What [`FeatureSet::check_features`] answers for a list of features.
    pub open spec fn check_spec(features: Seq<Features>) -> Result<(), VirtioNetError> {
        let set = FeatureSet(union_of(features));
        if set.dependencies_hold() {
            Ok(())
        } else {
            Err(VirtioNetError::FeatureRequirementsNotMet(set))
        }
    }

    /// A set with the given bits.
    pub fn new(val: u64) -> (set: Self)
        ensures
            set@ == val,
    {
        FeatureSet(val)
    }

    /// The 64 bits of the set.
    pub fn bits(self) -> (r: u64)
        ensures
            r == self@,
    {
        self.0
    }

    /// Checks if a given feature is set.
    pub fn is_feature(self, feature: Features) -> (b: bool)
        ensures
            b == self.contains(feature),
    {
        self.0 & feature.bits() != 0
    }

    /// Adds the features of the list to the set. What was set stays set.
    pub fn set_features(&mut self, features: &[Features])
        ensures
            final(self)@ == old(self)@ | union_of(features@),
    {
        let n: usize = features.len();
        let mut i: usize = 0;
        proof {
            lemma_or_zero(self.0);
        }
        while i < n
            invariant
                i <= n,
                n == features@.len(),
                self.0 == old(self).0 | union_of(features@.take(i as int)),
            decreases n - i,
        {
            proof {
                let done = union_of(features@.take(i as int));
                assert(features@.take(i + 1).drop_last() =~= features@.take(i as int));
                assert(features@.take(i + 1).last() == features@[i as int]);
                lemma_or_assoc(old(self).0, done, features@[i as int].mask());
            }
            self.0 = self.0 | features[i].bits();
            i = i + 1;
        }
        proof {
            assert(features@.take(n as int) =~= features@);
        }
    }

    /// Checks whether a list of features satisfies the dependencies between
    /// features. The answer depends on the features that occur in the list,
    /// not on their order: it is `Ok` if and only if each of them finds what
    /// it requires among them, and otherwise the error carries the bits of
    /// all of them.
    pub fn check_features(features: &[Features]) -> (r: Result<(), VirtioNetError>)
        ensures
            r == Self::check_spec(features@),
    {
        let n: usize = features.len();
        let mut bits: u64 = 0;
        let mut i: usize = 0;
        while i < n
            invariant
                i <= n,
                n == features@.len(),
                bits == union_of(features@.take(i as int)),
            decreases n - i,
        {
            proof {
                assert(features@.take(i + 1).drop_last() =~= features@.take(i as int));
                assert(features@.take(i + 1).last() == features@[i as int]);
            }
            bits = bits | features[i].bits();
            i = i + 1;
        }
        proof {
            assert(features@.take(n as int) =~= features@);
        }
        let set = FeatureSet(bits);
        let csum = set.is_feature(Features::VIRTIO_NET_F_CSUM);
        let guest_csum = set.is_feature(Features::VIRTIO_NET_F_GUEST_CSUM);
        let guest_tso = set.is_feature(Features::VIRTIO_NET_F_GUEST_TSO4) || set.is_feature(
            Features::VIRTIO_NET_F_GUEST_TSO6,
        );
        let host_tso = set.is_feature(Features::VIRTIO_NET_F_HOST_TSO4) || set.is_feature(
            Features::VIRTIO_NET_F_HOST_TSO6,
        );
        let ctrl_vq = set.is_feature(Features::VIRTIO_NET_F_CTRL_VQ);
        let mut k: usize = 0;
        while k < n
            invariant
                k <= n,
                n == features@.len(),
                bits == union_of(features@),
                set == FeatureSet(bits),
                csum == set.contains(Features::VIRTIO_NET_F_CSUM),
                guest_csum == set.contains(Features::VIRTIO_NET_F_GUEST_CSUM),
                guest_tso == (set.contains(Features::VIRTIO_NET_F_GUEST_TSO4) || set.contains(
                    Features::VIRTIO_NET_F_GUEST_TSO6,
                )),
                host_tso == (set.contains(Features::VIRTIO_NET_F_HOST_TSO4) || set.contains(
                    Features::VIRTIO_NET_F_HOST_TSO6,
                )),
                ctrl_vq == set.contains(Features::VIRTIO_NET_F_CTRL_VQ),
                forall|j: int| 0 <= j < k ==> (#[trigger] features@[j]).requirement_met(set),
            decreases n - k,
        {
            let met = match features[k] {
                Features::VIRTIO_NET_F_GUEST_TSO4
                | Features::VIRTIO_NET_F_GUEST_TSO6
                | Features::VIRTIO_NET_F_GUEST_UFO => guest_csum,
                Features::VIRTIO_NET_F_GUEST_ECN => guest_tso,
                Features::VIRTIO_NET_F_HOST_TSO4
                | Features::VIRTIO_NET_F_HOST_TSO6
                | Features::VIRTIO_NET_F_HOST_UFO => csum,
                Features::VIRTIO_NET_F_HOST_ECN | Features::VIRTIO_NET_F_RSC_EXT => host_tso,
                Features::VIRTIO_NET_F_CTRL_RX
                | Features::VIRTIO_NET_F_CTRL_VLAN
                | Features::VIRTIO_NET_F_GUEST_ANNOUNCE
                | Features::VIRTIO_NET_F_MQ
                | Features::VIRTIO_NET_F_CTRL_MAC_ADDR => ctrl_vq,
                _ => true,
            };
            if !met {
                proof {
                    lemma_union_contains(features@, features@[k as int]);
                    assert(set.contains(features@[k as int]));
                    assert(!set.dependencies_hold());
                }
                return Err(VirtioNetError::FeatureRequirementsNotMet(set));
            }
            k = k + 1;
        }
        proof {
            assert forall|f: Features| #[trigger] set.contains(f) implies f.requirement_met(set) by {
                lemma_union_contains(features@, f);
                let j = choose|j: int| 0 <= j < features@.len() && features@[j] == f;
                assert(features@[j].requirement_met(set));
            }
        }
        Ok(())
    }
}

/// Facts on the bits of 64-bit values that the proofs below rest on.
proof fn lemma_bits()
    by (bit_vector)
    ensures
        forall|i: u64, j: u64| i < 64 && j < 64 && i != j ==> #[trigger] ((1u64 << i) & (1u64 << j)) == 0,
        forall|i: u64| i < 64 ==> #[trigger] (1u64 << i) != 0,
        forall|a: u64, b: u64, m: u64| #[trigger] ((a | b) & m) == (a & m) | (b & m),
        forall|a: u64, b: u64| (#[trigger] (a | b)) == 0 <==> a == 0 && b == 0,
        forall|a: u64| #[trigger] (a & a) == a,
        forall|a: u64| #[trigger] (0u64 & a) == 0,
        forall|a: u64, b: u64| #[trigger] (a & b) == b & a,
        forall|a: u64, b: u64| #[trigger] (a | b) == b | a,
        forall|x: u64, a: u64, b: u64| #[trigger] (x & (a | b)) == (x & a) | (x & b),
        forall|x: u64, i: u64| i < 64 && #[trigger] (x & (1u64 << i)) != 0 ==> x & (1u64 << i) == 1u64 << i,
        forall|a: u64| #[trigger] (a | 0u64) == a,
{
}

pub proof fn lemma_or_zero(a: u64)
    by (bit_vector)
    ensures
        a | 0 == a,
        0 | a == a,
{
}

pub proof fn lemma_or_assoc(a: u64, b: u64, c: u64)
    by (bit_vector)
    ensures
        (a | b) | c == a | (b | c),
{
}

/// Two features have the same bit only if they are the same feature.
pub proof fn lemma_mask_distinct(f: Features, g: Features)
    ensures
        f.bit_index() < 64,
        f.mask() != 0,
        f.mask() & g.mask() != 0 <==> f == g,
{
    lemma_bits();
}

/// The bits of a list hold a feature if and only if the list does.
pub proof fn lemma_union_contains(features: Seq<Features>, f: Features)
    ensures
        FeatureSet(union_of(features)).contains(f) <==> features.contains(f),
    decreases features.len(),
{
    lemma_bits();
    if features.len() == 0 {
    } else {
        let front = features.drop_last();
        let last = features.last();
        lemma_union_contains(front, f);
        lemma_mask_distinct(last, f);
        assert((union_of(front) | last.mask()) & f.mask() == (union_of(front) & f.mask()) | (
        last.mask() & f.mask()));
        if features.contains(f) {
            let i = choose|i: int| 0 <= i < features.len() && features[i] == f;
            if i < features.len() - 1 {
                assert(front[i] == f);
            }
        }
        if front.contains(f) {
            let i = choose|i: int| 0 <= i < front.len() && front[i] == f;
            assert(features[i] == f);
        }
        assert(features[features.len() - 1] == last);
    }
}

/// Every feature stands in the list of all features, at its place.
pub proof fn lemma_all_features(f: Features)
    ensures
        0 <= f.ordinal() < all_features().len(),
        all_features()[f.ordinal()] == f,
        all_features().contains(f),
{
}

/// The list form of a set holds a feature if and only if the set does.
pub proof fn lemma_listed_contains(set: FeatureSet, f: Features)
    ensures
        listed(set).contains(f) <==> set.contains(f),
{
    let pred = |f: Features| set.contains(f);
    lemma_all_features(f);
    if set.contains(f) {
        all_features().lemma_filter_contains(pred, f.ordinal());
    }
    if listed(set).contains(f) {
        all_features().lemma_filter_contains_rev(pred, f);
    }
}

/// The bits of the features that a set and a list share are the bits of
/// those features of the list that the set holds.
proof fn lemma_union_filter(set: FeatureSet, features: Seq<Features>)
    ensures
        union_of(features.filter(|f: Features| set.contains(f))) == set@ & union_of(features),
    decreases features.len(),
{
    let pred = |f: Features| set.contains(f);
    lemma_bits();
    reveal(Seq::filter);
    if features.len() == 0 {
    } else {
        let front = features.drop_last();
        let last = features.last();
        lemma_union_filter(set, front);
        lemma_mask_distinct(last, last);
        if pred(last) {
            assert(front.filter(pred).push(last).drop_last() =~= front.filter(pred));
            assert(set@ & last.mask() == last.mask());
        } else {
            assert(set@ & last.mask() == 0);
        }
    }
}

/// Nothing is lost in the list form but the bits of no known feature: the
/// bits of the list form of a set are the bits of the set that belong to
/// known features.
pub proof fn lemma_list_form_lossless(set: FeatureSet)
    ensures
        union_of(listed(set)) == set@ & known_bits(),
{
    lemma_union_filter(set, all_features());
}

/// The bits of a list of features all belong to known features.
pub proof fn lemma_union_known(features: Seq<Features>)
    ensures
        union_of(features) & known_bits() == union_of(features),
    decreases features.len(),
{
    lemma_bits();
    if features.len() > 0 {
        let last = features.last();
        lemma_union_known(features.drop_last());
        lemma_all_features(last);
        lemma_union_contains(all_features(), last);
        lemma_mask_distinct(last, last);
        assert(known_bits() & last.mask() == last.mask());
    }
}

/// A list of features passes the check if and only if each feature that
/// occurs in it finds what it requires among the features of the list.
pub proof fn lemma_check_iff_dependencies(features: Seq<Features>)
    ensures
        FeatureSet::check_spec(features) is Ok <==> (forall|f: Features|
            features.contains(f) ==> f.requirement_met(FeatureSet(union_of(features)))),
{
    let set = FeatureSet(union_of(features));
    assert forall|f: Features| set.contains(f) <==> features.contains(f) by {
        lemma_union_contains(features, f);
    }
    if forall|f: Features| features.contains(f) ==> f.requirement_met(set) {
        assert forall|f: Features| #[trigger] set.contains(f) implies f.requirement_met(set) by {}
    }
}

/// What an intersection of two sets and the known bits have to do with the
/// sets themselves.
pub proof fn lemma_intersection(offered: u64, desired: u64, known: u64, mask: u64)
    by (bit_vector)
    requires
        desired & known == desired,
    ensures
        (offered & desired) & known == offered & desired,
        offered & (offered & desired) == offered & desired,
        (offered & desired) & mask != 0 ==> desired & mask != 0,
        offered & desired == desired ==> offered & desired == desired & offered,
        (offered & desired) & mask != 0 ==> offered & mask != 0,
{
}

/// A set that holds all of a second set holds all of a third that the
/// second holds.
pub proof fn lemma_subset_transitive(a: u64, b: u64, c: u64)
    by (bit_vector)
    requires
        a & b == b,
        b & c == c,
    ensures
        a & c == c,
        c & a == c,
{
}

/// A feature that two sets hold is in their intersection, and a feature
/// of a set is in every set that holds all of that set.
pub proof fn lemma_shared_bit(a: u64, b: u64, i: u64)
    by (bit_vector)
    requires
        i < 64,
    ensures
        a & (1u64 << i) != 0 && b & (1u64 << i) != 0 ==> (a & b) & (1u64 << i) != 0,
        a & b == b && b & (1u64 << i) != 0 ==> a & (1u64 << i) != 0,
        a & b == b <==> b & a == b,
{
}

/// The bits of a list whose features all occur in a second list are among
/// the bits of the second list.
pub proof fn lemma_subset_of_lists(part: Seq<Features>, whole: Seq<Features>)
    requires
        forall|f: Features| part.contains(f) ==> whole.contains(f),
    ensures
        union_of(whole) & union_of(part) == union_of(part),
    decreases part.len(),
{
    let all = FeatureSet(union_of(whole));
    if part.len() == 0 {
        lemma_and_zero(union_of(whole));
    } else {
        let last = part.last();
        assert(part.contains(last)) by {
            assert(part[part.len() - 1] == last);
        }
        assert forall|f: Features| part.drop_last().contains(f) implies whole.contains(f) by {
            let i = choose|i: int| 0 <= i < part.drop_last().len() && part.drop_last()[i] == f;
            assert(part[i] == f);
        }
        lemma_subset_of_lists(part.drop_last(), whole);
        lemma_union_contains(whole, last);
        lemma_single_bit_in(union_of(whole), union_of(part.drop_last()), last.bit_index());
    }
}

proof fn lemma_and_zero(a: u64)
    by (bit_vector)
    ensures
        a & 0 == 0,
{
}

proof fn lemma_single_bit_in(whole: u64, part: u64, i: u64)
    by (bit_vector)
    requires
        i < 64,
        whole & part == part,
        whole & (1u64 << i) != 0,
    ensures
        whole & (part | (1u64 << i)) == part | (1u64 << i),
{
}

/// A set that holds all of a second set, which holds all of the first, is
/// the second set.
proof fn lemma_mutual_subsets(a: u64, b: u64)
    by (bit_vector)
    requires
        a & b == b,
        b & a == a,
    ensures
        a == b,
{
}

/// Two lists in which the same features occur have the same bits, whatever
/// the order of the features and however often each occurs.
pub proof fn lemma_union_of_same_members(a: Seq<Features>, b: Seq<Features>)
    requires
        forall|f: Features| a.contains(f) <==> b.contains(f),
    ensures
        union_of(a) == union_of(b),
{
    lemma_subset_of_lists(a, b);
    lemma_subset_of_lists(b, a);
    lemma_mutual_subsets(union_of(a), union_of(b));
}

/// The check of a list of features answers the same for every list in which
/// the same features occur.
pub proof fn lemma_check_same_members(a: Seq<Features>, b: Seq<Features>)
    requires
        forall|f: Features| a.contains(f) <==> b.contains(f),
    ensures
        FeatureSet::check_spec(a) == FeatureSet::check_spec(b),
{
    lemma_union_of_same_members(a, b);
}

} // verus!
