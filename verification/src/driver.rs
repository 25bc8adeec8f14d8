//! The driver of a virtio network device: the configuration of the device,
//! the three queue sets, and what the network stack asks of a network card.

use vstd::prelude::*;
use pci_types::InterruptLine;
use crate::checksum::{tx_header, Checksum, ChecksumCapabilities};
use crate::ctrl::CtrlQueue;
use crate::config::{
    lemma_status_steps, ComCfg, ConfigStep, IsrStatus, NetDevCfg, NotifCfg, Status, ISR_QUEUE,
    STATUS_KNOWN, STATUS_LIVE,
};
use crate::error::VirtioNetError;
use crate::features::{
    lemma_intersection, lemma_list_form_lossless, lemma_listed_contains, lemma_mask_distinct,
    lemma_or_zero, lemma_shared_bit, lemma_subset_of_lists, lemma_subset_transitive,
    lemma_union_contains, lemma_union_known, listed, union_of, FeatureSet, Features,
};
use crate::header::HEADER_SIZE;
use crate::rx::{consumed, frame_of, recycled, rx_buffer_size_spec, RxQueues};
use crate::token::BufferToken;
use crate::tx::{tx_buffer_size_spec, TxQueues};
use crate::virtq::Virtq;

verus! {

/// The largest number of queues for frames that the driver sets up.
pub const MAX_NUM_VQ: u16 = 2;

/// The largest number of descriptors that the driver takes for a queue.
pub const VIRTIO_MAX_QUEUE_SIZE: u16 = 2048;

/// The features without which the driver does not drive a device.
pub open spec fn minimal_features() -> Seq<Features> {
    seq![Features::VIRTIO_F_VERSION_1, Features::VIRTIO_NET_F_MAC]
}

/// The features that the driver would like to use.
pub open spec fn desired_features() -> Seq<Features> {
    seq![
        Features::VIRTIO_F_VERSION_1,
        Features::VIRTIO_NET_F_MAC,
        Features::VIRTIO_NET_F_STATUS,
        Features::VIRTIO_F_RING_INDIRECT_DESC,
        Features::VIRTIO_NET_F_MTU,
        Features::VIRTIO_F_RING_PACKED,
        Features::VIRTIO_NET_F_GUEST_CSUM,
        Features::VIRTIO_NET_F_CSUM,
        Features::VIRTIO_NET_F_MRG_RXBUF,
    ]
}

/// What one round of negotiation answers: the wanted features must pass the
/// check of their dependencies, and the device must offer each of them.
pub open spec fn negotiation(wanted: Seq<Features>, offered: u64) -> Result<(), VirtioNetError> {
    let driver = FeatureSet(union_of(wanted));
    match FeatureSet::check_spec(wanted) {
        Err(e) => Err(e),
        Ok(_) => if offered & driver@ == driver@ {
            Ok(())
        } else {
            Err(VirtioNetError::IncompatibleFeatureSets(driver, FeatureSet(offered)))
        },
    }
}

/// The features that the driver chooses of those that a device offers: the
/// desired ones among them.
pub open spec fn chosen_features(offered: u64) -> u64 {
    offered & union_of(desired_features())
}

/// Whether a device offers all of the minimal features.
pub open spec fn offers_minimal(offered: u64) -> bool {
    offered & union_of(minimal_features()) == union_of(minimal_features())
}

/// What the initialisation of a device answers: it succeeds if the device
/// offers the minimal features and confirms the features that the driver
/// chooses; else negotiation has failed.
pub open spec fn init_outcome(com_cfg: ComCfg, dev_id: u16) -> Result<(), VirtioNetError> {
    if offers_minimal(com_cfg.device_features) && com_cfg.confirms_features {
        Ok(())
    } else {
        Err(VirtioNetError::FailFeatureNeg(dev_id))
    }
}

/// The number of queues for frames: two, unless several queues were
/// negotiated; then two for each pair that the device supports, and no more
/// than the driver sets up.
pub open spec fn num_vqs_for(features: FeatureSet, max_pairs: u16) -> u16 {
    if features.contains(Features::VIRTIO_NET_F_MQ) {
        if 2 * max_pairs >= MAX_NUM_VQ {
            MAX_NUM_VQ
        } else {
            (2 * max_pairs) as u16
        }
    } else {
        2
    }
}

/// The number of descriptors of a queue: as many as the device takes, and
/// no more than the driver takes.
pub open spec fn ring_size(com_cfg: ComCfg) -> u16 {
    if com_cfg.queue_size < VIRTIO_MAX_QUEUE_SIZE {
        com_cfg.queue_size
    } else {
        VIRTIO_MAX_QUEUE_SIZE
    }
}

/// What the stack does about checksums once the features are negotiated:
/// with both checksum features, neither side computes the checksums of TCP
/// and UDP; with the device's alone, the stack verifies them; with the
/// driver's alone, the stack computes them; with neither, nothing changes.
pub open spec fn checksums_for(features: FeatureSet, before: ChecksumCapabilities) -> ChecksumCapabilities {
    let host = features.contains(Features::VIRTIO_NET_F_CSUM);
    let guest = features.contains(Features::VIRTIO_NET_F_GUEST_CSUM);
    if host && guest {
        ChecksumCapabilities { udp: Checksum::Neither, tcp: Checksum::Neither, ..before }
    } else if host {
        ChecksumCapabilities { udp: Checksum::Rx, tcp: Checksum::Rx, ..before }
    } else if guest {
        ChecksumCapabilities { udp: Checksum::Tx, tcp: Checksum::Tx, ..before }
    } else {
        before
    }
}

/// The accesses to the common configuration by which the features are
/// negotiated with a device that offers `offered`: the offer is read; if it
/// holds all that is desired, that is written; else, if it holds the minimal
/// features, the offer is read again and what is chosen of it is written;
/// else nothing is written.
pub open spec fn negotiation_steps(offered: u64) -> Seq<ConfigStep> {
    let desired = union_of(desired_features());
    if offered & desired == desired {
        seq![ConfigStep::ReadFeatures, ConfigStep::WriteFeatures(chosen_features(offered))]
    } else if offers_minimal(offered) {
        seq![
            ConfigStep::ReadFeatures,
            ConfigStep::ReadFeatures,
            ConfigStep::WriteFeatures(chosen_features(offered)),
        ]
    } else {
        seq![ConfigStep::ReadFeatures]
    }
}

/// The accesses to the common configuration by which the queues are set up:
/// for `num_vqs` queues for frames, the receive queue and then the transmit
/// queue of each pair; behind them the control queue, if there is one.
pub open spec fn queue_steps(num_vqs: u16, ctrl: bool) -> Seq<ConfigStep> {
    (if num_vqs == 0 {
        Seq::<ConfigStep>::empty()
    } else {
        seq![ConfigStep::SetUpQueue(0), ConfigStep::SetUpQueue(1)]
    }) + (if ctrl {
        seq![ConfigStep::SetUpQueue(num_vqs)]
    } else {
        Seq::<ConfigStep>::empty()
    })
}

/// The accesses to the common configuration that the initialisation of a
/// device makes, in their order: reset, acknowledge, driver; the negotiation
/// of the features; then, if the device offers the minimal features, the
/// request to confirm and the look at the answer; then, if the device has
/// confirmed, the setup of the queues and at last the word that the driver
/// is ready. After a step that fails, none follows.
pub open spec fn init_steps(com_cfg: ComCfg, num_vqs: u16, ctrl: bool) -> Seq<ConfigStep> {
    let offered = com_cfg.device_features;
    seq![ConfigStep::Reset, ConfigStep::Acknowledge, ConfigStep::Driver] + negotiation_steps(
        offered,
    ) + (if !offers_minimal(offered) {
        Seq::<ConfigStep>::empty()
    } else {
        seq![ConfigStep::FeaturesOk, ConfigStep::CheckFeatures] + (if !com_cfg.confirms_features {
            Seq::<ConfigStep>::empty()
        } else {
            queue_steps(num_vqs, ctrl) + seq![ConfigStep::DriverOk]
        })
    })
}

/// The desired features require nothing, so that the dependencies hold in
/// every set of them.
pub proof fn lemma_desired_features(set: FeatureSet)
    requires
        forall|f: Features| #[trigger] set.contains(f) ==> desired_features().contains(f),
    ensures
        set.dependencies_hold(),
{
    assert forall|f: Features| #[trigger] set.contains(f) implies f.requirement_met(set) by {
        let i = choose|i: int| 0 <= i < desired_features().len() && desired_features()[i] == f;
        assert(desired_features()[i] == f);
    }
}

/// The dependencies hold in the set of the desired features and in what a
/// device offers of it.
proof fn lemma_desired_set(set: FeatureSet, offered: u64)
    requires
        set@ == offered & union_of(desired_features()) || set@ == union_of(desired_features()),
    ensures
        set.dependencies_hold(),
{
    assert forall|f: Features| #[trigger] set.contains(f) implies desired_features().contains(f) by {
        lemma_union_known(desired_features());
        lemma_intersection(offered, union_of(desired_features()), crate::features::known_bits(), f.mask());
        lemma_union_contains(desired_features(), f);
    }
    lemma_desired_features(set);
}

/// The minimal features are among the desired ones: a device that offers
/// the desired features offers the minimal ones, and of a device that offers
/// the minimal ones the driver chooses at least the first of them.
proof fn lemma_minimal_in_desired(offered: u64)
    ensures
        offered & union_of(desired_features()) == union_of(desired_features()) ==> offers_minimal(
            offered,
        ),
        offers_minimal(offered) ==> FeatureSet(chosen_features(offered)).contains(
            Features::VIRTIO_F_VERSION_1,
        ),
{
    let desired = union_of(desired_features());
    let minimal = union_of(minimal_features());
    let version = Features::VIRTIO_F_VERSION_1;
    assert(minimal_features().contains(version)) by {
        assert(minimal_features()[0] == version);
    }
    assert(desired_features().contains(version)) by {
        assert(desired_features()[0] == version);
    }
    lemma_union_contains(desired_features(), version);
    lemma_union_contains(minimal_features(), version);
    lemma_mask_distinct(version, version);
    if offers_minimal(offered) {
        lemma_shared_bit(offered, minimal, version.bit_index());
        lemma_shared_bit(offered, desired, version.bit_index());
    }
    if offered & desired == desired {
        assert forall|f: Features| minimal_features().contains(f) implies desired_features().contains(
            f,
        ) by {
            let i = choose|i: int| 0 <= i < minimal_features().len() && minimal_features()[i] == f;
            assert(desired_features()[i] == f);
        }
        lemma_subset_of_lists(minimal_features(), desired_features());
        lemma_subset_transitive(offered, desired, minimal);
    }
}

/// A device offers what the driver chooses of its offer.
proof fn lemma_chosen_offered(offered: u64, desired: u64)
    by (bit_vector)
    ensures
        (offered & desired) & offered == offered & desired,
{
}

/// What the list form of the chosen features is worth in a second round of
/// negotiation with a device that offers the minimal features: the list is
/// not empty, the round succeeds, and the features written are the chosen
/// ones.
proof fn lemma_fallback(offered: u64)
    requires
        offers_minimal(offered),
    ensures
        listed(FeatureSet(chosen_features(offered))).len() > 0,
        negotiation(listed(FeatureSet(chosen_features(offered))), offered) is Ok,
        union_of(listed(FeatureSet(chosen_features(offered)))) == chosen_features(offered),
{
    let desired = union_of(desired_features());
    let chosen = FeatureSet(chosen_features(offered));
    lemma_union_known(desired_features());
    lemma_list_form_lossless(chosen);
    lemma_intersection(offered, desired, crate::features::known_bits(), 0);
    lemma_desired_set(chosen, offered);
    lemma_minimal_in_desired(offered);
    lemma_listed_contains(chosen, Features::VIRTIO_F_VERSION_1);
}

/// A frame that was received, for the network stack to read.
pub struct RxToken {
    pub buffer: Vec<u8>,
}

impl RxToken {
    /// The token for a frame.
    pub fn new(buffer: Vec<u8>) -> (tkn: Self)
        ensures
            tkn.buffer == buffer,
    {
        RxToken { buffer }
    }
}

/// The permission to send one frame in answer to a received one.
pub struct TxToken {}

impl TxToken {
    /// The permission to send one frame.
    pub fn new() -> Self {
        TxToken {  }
    }
}

/// The driver of one virtio network device.
pub struct VirtioNetDriver {
    pub dev_cfg: NetDevCfg,
    pub com_cfg: ComCfg,
    pub isr_stat: IsrStatus,
    pub notif_cfg: NotifCfg,
    pub ctrl_vq: CtrlQueue,
    pub recv_vqs: RxQueues,
    pub send_vqs: TxQueues,
    pub num_vqs: u16,
    pub irq: InterruptLine,
    pub mtu: u16,
    pub checksums: ChecksumCapabilities,
}

impl VirtioNetDriver {
    /// Both queue sets for frames are well formed.
    pub open spec fn wf(&self) -> bool {
        &&& self.recv_vqs.wf()
        &&& self.send_vqs.wf()
    }

    /// Whether nothing but the receive queue set differs between the two.
    pub open spec fn same_but_recv(&self, other: &VirtioNetDriver) -> bool {
        &&& self.dev_cfg == other.dev_cfg
        &&& self.com_cfg == other.com_cfg
        &&& self.isr_stat == other.isr_stat
        &&& self.notif_cfg == other.notif_cfg
        &&& self.ctrl_vq == other.ctrl_vq
        &&& self.send_vqs == other.send_vqs
        &&& self.num_vqs == other.num_vqs
        &&& self.irq == other.irq
        &&& self.mtu == other.mtu
        &&& self.checksums == other.checksums
    }

    /// Whether nothing but the transmit queue set differs between the two.
    pub open spec fn same_but_send(&self, other: &VirtioNetDriver) -> bool {
        &&& self.dev_cfg == other.dev_cfg
        &&& self.com_cfg == other.com_cfg
        &&& self.isr_stat == other.isr_stat
        &&& self.notif_cfg == other.notif_cfg
        &&& self.ctrl_vq == other.ctrl_vq
        &&& self.recv_vqs == other.recv_vqs
        &&& self.num_vqs == other.num_vqs
        &&& self.irq == other.irq
        &&& self.mtu == other.mtu
        &&& self.checksums == other.checksums
    }

    /// A driver for a device with the given configuration, before it is
    /// initialised: it has no queue, no feature is negotiated, and the stack
    /// computes all checksums.
    pub fn new(raw: crate::config::NetDevCfgRaw, dev_id: u16, com_cfg: ComCfg, irq: InterruptLine) -> (drv:
        VirtioNetDriver)
        ensures
            drv.wf(),
            drv.dev_cfg.raw == raw,
            drv.dev_cfg.dev_id == dev_id,
            drv.dev_cfg.features@ == 0,
            drv.com_cfg == com_cfg,
            drv.isr_stat.flags == 0,
            drv.ctrl_vq.0 is None,
            drv.recv_vqs.vqs@.len() == 0,
            drv.recv_vqs.channel@.len() == 0,
            !drv.recv_vqs.is_multi,
            drv.send_vqs.vqs@.len() == 0,
            drv.send_vqs.ready_queue@.len() == 0,
            drv.send_vqs.channel@.len() == 0,
            !drv.send_vqs.is_multi,
            drv.num_vqs == 0,
            drv.irq == irq,
            drv.mtu == 1500,
            drv.checksums == ChecksumCapabilities::all_both(),
    {
        VirtioNetDriver {
            dev_cfg: NetDevCfg { raw, dev_id, features: FeatureSet::new(0) },
            com_cfg,
            isr_stat: IsrStatus::new(),
            notif_cfg: NotifCfg { multiplier: 0 },
            ctrl_vq: CtrlQueue::new(None),
            recv_vqs: RxQueues::new(Vec::new(), false),
            send_vqs: TxQueues::new(Vec::new(), Vec::new(), false),
            num_vqs: 0,
            irq,
            mtu: 1500,
            checksums: ChecksumCapabilities::default(),
        }
    }

    /// The MAC address of the device. The feature that gives the device a
    /// MAC address must have been negotiated.
    pub fn get_mac_address(&self) -> (mac: [u8; 6])
        requires
            self.dev_cfg.features.contains(Features::VIRTIO_NET_F_MAC),
        ensures
            mac == self.dev_cfg.raw.mac,
    {
        self.dev_cfg.raw.get_mac()
    }

    /// The MAC address of the device, if the feature that gives the device
    /// a MAC address was negotiated. Without it there is no address, neither
    /// one of zeros nor any other.
    pub fn try_get_mac_address(&self) -> (mac: Option<[u8; 6]>)
        ensures
            mac == (if self.dev_cfg.features.contains(Features::VIRTIO_NET_F_MAC) {
                Some(self.dev_cfg.raw.mac)
            } else {
                None
            }),
    {
        if self.dev_cfg.features.is_feature(Features::VIRTIO_NET_F_MAC) {
            Some(self.get_mac_address())
        } else {
            None
        }
    }

    /// The largest payload of a frame.
    pub fn get_mtu(&self) -> (mtu: u16)
        ensures
            mtu == self.mtu,
    {
        self.mtu
    }

    /// What the network stack does about checksums.
    pub fn get_checksums(&self) -> (checksums: ChecksumCapabilities)
        ensures
            checksums == self.checksums,
    {
        self.checksums
    }

    /// Whether a finished token waits to be received, once the receive
    /// rings are polled.
    pub fn has_packet(&mut self) -> (b: bool)
        requires
            old(self).recv_vqs.wf(),
            old(self).recv_vqs.is_multi || old(self).recv_vqs.vqs@.len() > 0,
        ensures
            b == (old(self).recv_vqs.pending().len() > 0),
            final(self).same_but_recv(old(self)),
            final(self).recv_vqs.wf(),
            final(self).recv_vqs.same_rings_but_used(&old(self).recv_vqs),
            final(self).recv_vqs.channel@ == old(self).recv_vqs.pending(),
            final(self).recv_vqs.polled().len() == 0,
    {
        self.recv_vqs.poll();
        !self.recv_vqs.channel.is_empty()
    }

    /// Whether a token for a frame of `len` bytes and its header can be had,
    /// so that the frame can be sent.
    pub fn can_send_packet(&self, len: usize) -> (b: bool)
        requires
            self.send_vqs.vqs@.len() > 0,
            len + HEADER_SIZE <= usize::MAX,
        ensures
            b == self.send_vqs.can_provide((len + HEADER_SIZE) as usize),
    {
        self.send_vqs.has_token_for(len + HEADER_SIZE)
    }

    /// Sends a frame if a token for it can be had, and tells whether it did.
    /// The frame is written behind a header into a token of the transmit
    /// queue set, which is provided to the first transmit ring. The header
    /// asks the device for a checksum where the stack computes the
    /// checksums of TCP and of UDP itself; else it is all zero.
    pub fn try_send_packet(&mut self, frame: &[u8]) -> (done: bool)
        requires
            old(self).send_vqs.wf(),
            old(self).send_vqs.vqs@.len() > 0,
            frame@.len() + HEADER_SIZE <= usize::MAX,
        ensures
            final(self).same_but_send(old(self)),
            final(self).send_vqs.wf(),
            done == old(self).send_vqs.can_provide((frame@.len() + HEADER_SIZE) as usize),
            final(self).send_vqs.asked(
                &old(self).send_vqs,
                (frame@.len() + HEADER_SIZE) as usize,
            ),
            done ==> final(self).send_vqs.sent(
                &old(self).send_vqs,
                frame@,
                tx_header(old(self).checksums, frame@),
            ),
            !done ==> final(self).send_vqs.vqs@[0].in_flight == old(self).send_vqs.vqs@[0].in_flight,
            forall|cap: usize|
                done && frame@.len() + HEADER_SIZE <= cap && old(self).send_vqs.vqs@[0].free == 0
                    && #[trigger] old(self).send_vqs.holds_all(cap)
                    ==> final(self).send_vqs.vqs@[0].free == 0
                    && final(self).send_vqs.holds_all(cap),
    {
        self.send_vqs.try_send(frame, &self.checksums)
    }

    /// Sends a frame, for which a token must be there to be had: see
    /// [`VirtioNetDriver::try_send_packet`].
    pub fn send_packet(&mut self, frame: &[u8])
        requires
            old(self).send_vqs.wf(),
            old(self).send_vqs.vqs@.len() > 0,
            frame@.len() + HEADER_SIZE <= usize::MAX,
            old(self).send_vqs.can_provide((frame@.len() + HEADER_SIZE) as usize),
        ensures
            final(self).same_but_send(old(self)),
            final(self).send_vqs.wf(),
            final(self).send_vqs.asked(
                &old(self).send_vqs,
                (frame@.len() + HEADER_SIZE) as usize,
            ),
            final(self).send_vqs.sent(
                &old(self).send_vqs,
                frame@,
                tx_header(old(self).checksums, frame@),
            ),
            forall|cap: usize|
                frame@.len() + HEADER_SIZE <= cap && old(self).send_vqs.vqs@[0].free == 0
                    && #[trigger] old(self).send_vqs.holds_all(cap)
                    ==> final(self).send_vqs.vqs@[0].free == 0
                    && final(self).send_vqs.holds_all(cap),
    {
        self.send_vqs.send(frame, &self.checksums)
    }

    /// Receives a frame, if the finished tokens of the receive queue set
    /// deliver one. Every token that was looked at is provided to its ring
    /// again before the function returns, whether a frame is received or
    /// not.
    pub fn receive_packet(&mut self) -> (r: Option<(RxToken, TxToken)>)
        requires
            old(self).recv_vqs.wf(),
            old(self).recv_vqs.is_multi || old(self).recv_vqs.vqs@.len() > 0,
        ensures
            final(self).same_but_recv(old(self)),
            final(self).recv_vqs.wf(),
            final(self).recv_vqs.same_rings_but_tokens(&old(self).recv_vqs),
            final(self).recv_vqs.pending() == old(self).recv_vqs.pending().skip(
                consumed(old(self).recv_vqs.pending()) as int,
            ),
            match r {
                Some((rx, tx)) => frame_of(old(self).recv_vqs.pending()) == Some(rx.buffer@),
                None => frame_of(old(self).recv_vqs.pending()) is None,
            },
            forall|p: int|
                0 <= p < final(self).recv_vqs.vqs@.len() ==> (
                #[trigger] final(self).recv_vqs.vqs@[p]).in_flight@ == old(
                    self,
                ).recv_vqs.vqs@[p].in_flight@ + recycled(
                    old(self).recv_vqs.pending().take(
                        consumed(old(self).recv_vqs.pending()) as int,
                    ),
                    p,
                ),
    {
        match self.recv_vqs.receive(self.mtu) {
            Some(frame) => Some((RxToken::new(frame), TxToken::new())),
            None => None,
        }
    }

    /// With polling, the device is asked not to notify the driver of
    /// received frames; without, it is asked to.
    pub fn set_polling_mode(&mut self, value: bool)
        requires
            old(self).recv_vqs.wf(),
            old(self).recv_vqs.is_multi || old(self).recv_vqs.vqs@.len() > 0,
        ensures
            final(self).same_but_recv(old(self)),
            final(self).recv_vqs.wf(),
            final(self).recv_vqs.channel@ == old(self).recv_vqs.channel@,
            final(self).recv_vqs.is_multi == old(self).recv_vqs.is_multi,
            final(self).recv_vqs.vqs@.len() == old(self).recv_vqs.vqs@.len(),
            forall|p: int|
                0 <= p < final(self).recv_vqs.vqs@.len() ==> (
                #[trigger] final(self).recv_vqs.vqs@[p]).same_but_notifs(
                    &old(self).recv_vqs.vqs@[p],
                ) && final(self).recv_vqs.vqs@[p].notifs == (if old(self).recv_vqs.is_multi || p
                    == 0 {
                    !value
                } else {
                    old(self).recv_vqs.vqs@[p].notifs
                }),
    {
        if value {
            self.disable_interrupts();
        } else {
            self.enable_interrupts();
        }
    }

    /// Answers an interrupt of the device: tells whether it was raised
    /// because a queue has used buffers, and acknowledges it. A change of
    /// the configuration is acknowledged and not acted on.
    pub fn handle_interrupt(&mut self) -> (queue_interrupt: bool)
        ensures
            queue_interrupt == (old(self).isr_stat.flags & ISR_QUEUE == ISR_QUEUE),
            final(self).isr_stat.flags == 0,
            final(self).dev_cfg == old(self).dev_cfg,
            final(self).com_cfg == old(self).com_cfg,
            final(self).notif_cfg == old(self).notif_cfg,
            final(self).ctrl_vq == old(self).ctrl_vq,
            final(self).recv_vqs == old(self).recv_vqs,
            final(self).send_vqs == old(self).send_vqs,
            final(self).num_vqs == old(self).num_vqs,
            final(self).irq == old(self).irq,
            final(self).mtu == old(self).mtu,
            final(self).checksums == old(self).checksums,
    {
        let result = if self.isr_stat.is_interrupt() {
            true
        } else if self.isr_stat.is_cfg_change() {
            false
        } else {
            false
        };
        self.isr_stat.acknowledge();
        result
    }

    /// The id of the device.
    pub fn get_dev_id(&self) -> (id: u16)
        ensures
            id == self.dev_cfg.dev_id,
    {
        self.dev_cfg.dev_id
    }

    /// Marks the device as failed.
    pub fn set_failed(&mut self)
        ensures
            final(self).com_cfg.same_but_status(&old(self).com_cfg),
            final(self).com_cfg.device_status == crate::config::STATUS_FAILED,
            final(self).com_cfg.steps@ == old(self).com_cfg.steps@.push(ConfigStep::Failed),
            final(self).dev_cfg == old(self).dev_cfg,
            final(self).isr_stat == old(self).isr_stat,
            final(self).notif_cfg == old(self).notif_cfg,
            final(self).ctrl_vq == old(self).ctrl_vq,
            final(self).recv_vqs == old(self).recv_vqs,
            final(self).send_vqs == old(self).send_vqs,
            final(self).num_vqs == old(self).num_vqs,
            final(self).irq == old(self).irq,
            final(self).mtu == old(self).mtu,
            final(self).checksums == old(self).checksums,
    {
        self.com_cfg.set_failed();
    }

    /// The status of the device, if the status feature was negotiated; else
    /// the status of a device whose link is up.
    pub fn dev_status(&self) -> (status: u16)
        ensures
            status == (if self.dev_cfg.features.contains(Features::VIRTIO_NET_F_STATUS) {
                self.dev_cfg.raw.status
            } else {
                Status::VIRTIO_NET_S_LINK_UP.value()
            }),
    {
        if self.dev_cfg.features.is_feature(Features::VIRTIO_NET_F_STATUS) {
            self.dev_cfg.raw.get_status()
        } else {
            u16::from(Status::VIRTIO_NET_S_LINK_UP)
        }
    }

    /// Whether the link is up. It is taken to be up if the status feature
    /// was not negotiated.
    pub fn is_link_up(&self) -> (up: bool)
        ensures
            up == (if self.dev_cfg.features.contains(Features::VIRTIO_NET_F_STATUS) {
                self.dev_cfg.raw.status & Status::VIRTIO_NET_S_LINK_UP.value()
                    == Status::VIRTIO_NET_S_LINK_UP.value()
            } else {
                true
            }),
    {
        if self.dev_cfg.features.is_feature(Features::VIRTIO_NET_F_STATUS) {
            self.dev_cfg.raw.get_status() & u16::from(Status::VIRTIO_NET_S_LINK_UP) == u16::from(
                Status::VIRTIO_NET_S_LINK_UP,
            )
        } else {
            true
        }
    }

    /// Whether the device asks the driver to announce itself. It does not
    /// if the status feature was not negotiated.
    pub fn is_announce(&self) -> (announce: bool)
        ensures
            announce == (if self.dev_cfg.features.contains(Features::VIRTIO_NET_F_STATUS) {
                self.dev_cfg.raw.status & Status::VIRTIO_NET_S_ANNOUNCE.value()
                    == Status::VIRTIO_NET_S_ANNOUNCE.value()
            } else {
                false
            }),
    {
        if self.dev_cfg.features.is_feature(Features::VIRTIO_NET_F_STATUS) {
            self.dev_cfg.raw.get_status() & u16::from(Status::VIRTIO_NET_S_ANNOUNCE) == u16::from(
                Status::VIRTIO_NET_S_ANNOUNCE,
            )
        } else {
            false
        }
    }

    /// The largest number of pairs of queues that the device allows: one,
    /// unless several queues were negotiated.
    pub fn get_max_vq_pairs(&self) -> (pairs: u16)
        ensures
            pairs == (if self.dev_cfg.features.contains(Features::VIRTIO_NET_F_MQ) {
                self.dev_cfg.raw.max_virtqueue_pairs
            } else {
                1
            }),
    {
        if self.dev_cfg.features.is_feature(Features::VIRTIO_NET_F_MQ) {
            self.dev_cfg.raw.get_max_virtqueue_pairs()
        } else {
            1
        }
    }

    /// Asks the device not to notify the driver of received frames.
    pub fn disable_interrupts(&mut self)
        requires
            old(self).recv_vqs.wf(),
            old(self).recv_vqs.is_multi || old(self).recv_vqs.vqs@.len() > 0,
        ensures
            final(self).same_but_recv(old(self)),
            final(self).recv_vqs.wf(),
            final(self).recv_vqs.channel@ == old(self).recv_vqs.channel@,
            final(self).recv_vqs.is_multi == old(self).recv_vqs.is_multi,
            final(self).recv_vqs.vqs@.len() == old(self).recv_vqs.vqs@.len(),
            forall|p: int|
                0 <= p < final(self).recv_vqs.vqs@.len() ==> (
                #[trigger] final(self).recv_vqs.vqs@[p]).same_but_notifs(
                    &old(self).recv_vqs.vqs@[p],
                ) && final(self).recv_vqs.vqs@[p].notifs == (if old(self).recv_vqs.is_multi || p
                    == 0 {
                    false
                } else {
                    old(self).recv_vqs.vqs@[p].notifs
                }),
    {
        self.recv_vqs.disable_notifs();
    }

    /// Asks the device to notify the driver of received frames.
    pub fn enable_interrupts(&mut self)
        requires
            old(self).recv_vqs.wf(),
            old(self).recv_vqs.is_multi || old(self).recv_vqs.vqs@.len() > 0,
        ensures
            final(self).same_but_recv(old(self)),
            final(self).recv_vqs.wf(),
            final(self).recv_vqs.channel@ == old(self).recv_vqs.channel@,
            final(self).recv_vqs.is_multi == old(self).recv_vqs.is_multi,
            final(self).recv_vqs.vqs@.len() == old(self).recv_vqs.vqs@.len(),
            forall|p: int|
                0 <= p < final(self).recv_vqs.vqs@.len() ==> (
                #[trigger] final(self).recv_vqs.vqs@[p]).same_but_notifs(
                    &old(self).recv_vqs.vqs@[p],
                ) && final(self).recv_vqs.vqs@[p].notifs == (if old(self).recv_vqs.is_multi || p
                    == 0 {
                    true
                } else {
                    old(self).recv_vqs.vqs@[p].notifs
                }),
    {
        self.recv_vqs.enable_notifs();
    }
}

impl VirtioNetDriver {
    /// Whether the queues for frames are as the initialisation sets them up,
    /// starting from the given queue sets: for each pair of queues, a
    /// receive ring with notifications and a transmit ring without are
    /// added, both filled.
    pub open spec fn frame_queues_set_up(&self, recv: &RxQueues, send: &TxQueues) -> bool {
        let features = self.dev_cfg.features;
        let packed = features.contains(Features::VIRTIO_F_RING_PACKED);
        let size = ring_size(self.com_cfg);
        let mtu = self.dev_cfg.raw.mtu;
        &&& self.num_vqs == num_vqs_for(features, self.dev_cfg.raw.max_virtqueue_pairs)
        &&& self.recv_vqs.wf()
        &&& self.send_vqs.wf()
        &&& if self.num_vqs == 0 {
            &&& self.recv_vqs == *recv
            &&& self.send_vqs == *send
        } else {
            &&& self.recv_vqs.added(recv, 0, size, packed, true, rx_buffer_size_spec(features, mtu))
            &&& self.send_vqs.added(send, 1, size, packed, false, tx_buffer_size_spec(features, mtu))
        }
    }

    /// Whether the control queue is as the initialisation sets it up: with
    /// the control queue negotiated, a ring behind the queues for frames,
    /// with notifications and all descriptors free; else as before.
    pub open spec fn ctrl_queue_set_up(&self, ctrl: &CtrlQueue) -> bool {
        let features = self.dev_cfg.features;
        if features.contains(Features::VIRTIO_NET_F_CTRL_VQ) {
            &&& self.ctrl_vq.0 matches Some(vq)
            &&& vq.index == self.num_vqs
            &&& vq.size == ring_size(self.com_cfg)
            &&& vq.packed == features.contains(Features::VIRTIO_F_RING_PACKED)
            &&& vq.notifs
            &&& vq.is_fresh()
        } else {
            self.ctrl_vq == *ctrl
        }
    }

    /// Whether nothing but the queues, and the record of the accesses to the
    /// common configuration, differs between the two.
    pub open spec fn same_but_queues(&self, other: &VirtioNetDriver) -> bool {
        &&& self.dev_cfg == other.dev_cfg
        &&& self.com_cfg.same_but_status(&other.com_cfg)
        &&& self.com_cfg.device_status == other.com_cfg.device_status
        &&& self.isr_stat == other.isr_stat
        &&& self.notif_cfg == other.notif_cfg
        &&& self.irq == other.irq
        &&& self.mtu == other.mtu
        &&& self.checksums == other.checksums
    }

    /// One round of negotiation: the offer of the device is read; if the
    /// wanted features pass the check of their dependencies and the device
    /// offers each of them, they are written to the device. Else nothing is
    /// written.
    pub fn negotiate_features(&mut self, wanted_features: &[Features]) -> (r: Result<
        (),
        VirtioNetError,
    >)
        ensures
            r == negotiation(wanted_features@, old(self).com_cfg.device_features),
            final(self).com_cfg.device_features == old(self).com_cfg.device_features,
            final(self).com_cfg.confirms_features == old(self).com_cfg.confirms_features,
            final(self).com_cfg.queue_size == old(self).com_cfg.queue_size,
            final(self).com_cfg.device_status == old(self).com_cfg.device_status,
            r is Ok ==> final(self).com_cfg.driver_features == union_of(wanted_features@)
                && final(self).com_cfg.steps@ == old(self).com_cfg.steps@.push(
                ConfigStep::ReadFeatures,
            ).push(ConfigStep::WriteFeatures(union_of(wanted_features@))),
            r is Err ==> final(self).com_cfg.driver_features == old(self).com_cfg.driver_features
                && final(self).com_cfg.steps@ == old(self).com_cfg.steps@.push(
                ConfigStep::ReadFeatures,
            ),
            final(self).same_but_com_cfg(old(self)),
    {
        let mut driver_features = FeatureSet::new(0);
        driver_features.set_features(wanted_features);
        proof {
            lemma_or_zero(union_of(wanted_features@));
        }
        let device_features = FeatureSet::new(self.com_cfg.dev_features());
        match FeatureSet::check_features(wanted_features) {
            Ok(_) => {},
            Err(vnet_err) => {
                return Err(vnet_err);
            },
        }
        if (device_features & driver_features) == driver_features {
            self.com_cfg.set_drv_features(u64::from(driver_features));
            Ok(())
        } else {
            Err(VirtioNetError::IncompatibleFeatureSets(driver_features, device_features))
        }
    }

    /// Whether nothing but the common configuration differs between the two.
    pub open spec fn same_but_com_cfg(&self, other: &VirtioNetDriver) -> bool {
        &&& self.dev_cfg == other.dev_cfg
        &&& self.isr_stat == other.isr_stat
        &&& self.notif_cfg == other.notif_cfg
        &&& self.ctrl_vq == other.ctrl_vq
        &&& self.recv_vqs == other.recv_vqs
        &&& self.send_vqs == other.send_vqs
        &&& self.num_vqs == other.num_vqs
        &&& self.irq == other.irq
        &&& self.mtu == other.mtu
        &&& self.checksums == other.checksums
    }

    /// Negotiates the features with the device and gives the list of those
    /// that were written. The driver asks for the desired features; if the
    /// device does not offer all of them but offers the minimal ones, the
    /// driver asks for those desired features that the device offers. Where
    /// the device does not offer the minimal features, nothing is written
    /// and negotiation has failed.
    fn choose_features(&mut self) -> (r: Result<Vec<Features>, VirtioNetError>)
        ensures
            final(self).same_but_com_cfg(old(self)),
            final(self).com_cfg.device_features == old(self).com_cfg.device_features,
            final(self).com_cfg.confirms_features == old(self).com_cfg.confirms_features,
            final(self).com_cfg.queue_size == old(self).com_cfg.queue_size,
            final(self).com_cfg.device_status == old(self).com_cfg.device_status,
            final(self).com_cfg.steps@ == old(self).com_cfg.steps@ + negotiation_steps(
                old(self).com_cfg.device_features,
            ),
            match r {
                Ok(features) => {
                    &&& offers_minimal(old(self).com_cfg.device_features)
                    &&& union_of(features@) == chosen_features(old(self).com_cfg.device_features)
                    &&& final(self).com_cfg.driver_features == chosen_features(
                        old(self).com_cfg.device_features,
                    )
                },
                Err(e) => {
                    &&& !offers_minimal(old(self).com_cfg.device_features)
                    &&& e == VirtioNetError::FailFeatureNeg(old(self).dev_cfg.dev_id)
                    &&& final(self).com_cfg.driver_features == old(self).com_cfg.driver_features
                },
            },
    {
        let ghost offered = self.com_cfg.device_features;
        let ghost before = self.com_cfg.steps@;
        proof {
            lemma_minimal_in_desired(offered);
            lemma_desired_set(FeatureSet(union_of(desired_features())), offered);
        }
        let mut minimal_features: Vec<Features> = Vec::new();
        minimal_features.push(Features::VIRTIO_F_VERSION_1);
        minimal_features.push(Features::VIRTIO_NET_F_MAC);
        let mut minimal_feature_set = FeatureSet::new(0);
        minimal_feature_set.set_features(minimal_features.as_slice());

        let mut features: Vec<Features> = Vec::new();
        features.push(Features::VIRTIO_F_VERSION_1);
        features.push(Features::VIRTIO_NET_F_MAC);
        features.push(Features::VIRTIO_NET_F_STATUS);
        features.push(Features::VIRTIO_F_RING_INDIRECT_DESC);
        features.push(Features::VIRTIO_NET_F_MTU);
        features.push(Features::VIRTIO_F_RING_PACKED);
        features.push(Features::VIRTIO_NET_F_GUEST_CSUM);
        features.push(Features::VIRTIO_NET_F_CSUM);
        features.push(Features::VIRTIO_NET_F_MRG_RXBUF);
        proof {
            assert(minimal_features@ =~= crate::driver::minimal_features());
            assert(features@ =~= desired_features());
            lemma_or_zero(union_of(crate::driver::minimal_features()));
        }

        match self.negotiate_features(features.as_slice()) {
            Ok(_) => {
                proof {
                    lemma_shared_bit(offered, union_of(desired_features()), 0);
                }
            },
            Err(vnet_err) => {
                match vnet_err {
                    VirtioNetError::FeatureRequirementsNotMet(_) => {
                        return Err(vnet_err);
                    },
                    VirtioNetError::IncompatibleFeatureSets(driver_features, device_features) => {
                        proof {
                            lemma_shared_bit(offered, union_of(crate::driver::minimal_features()), 0);
                        }
                        if (minimal_feature_set & device_features) != minimal_feature_set {
                            proof {
                                assert(self.com_cfg.steps@ =~= before + negotiation_steps(offered));
                            }
                            return Err(VirtioNetError::FailFeatureNeg(self.dev_cfg.dev_id));
                        } else {
                            proof {
                                lemma_fallback(offered);
                            }
                            features = match Features::from_set(device_features & driver_features) {
                                Some(features) => features,
                                None => {
                                    return Err(VirtioNetError::FailFeatureNeg(self.dev_cfg.dev_id));
                                },
                            };
                            match self.negotiate_features(features.as_slice()) {
                                Ok(_) => {},
                                Err(vnet_err) => {
                                    return Err(vnet_err);
                                },
                            }
                        }
                    },
                    _ => {
                        return Err(vnet_err);
                    },
                }
            },
        }
        proof {
            assert(self.com_cfg.steps@ =~= before + negotiation_steps(offered));
        }
        Ok(features)
    }

    /// Sets up the queue with the given number and gives the ring for it:
    /// with as many descriptors as the device and the driver take, in the
    /// layout that was negotiated.
    fn new_ring(&mut self, index: u16) -> (vq: Virtq)
        ensures
            vq.is_fresh(),
            vq.index == index,
            vq.size == ring_size(old(self).com_cfg),
            vq.packed == old(self).dev_cfg.features.contains(Features::VIRTIO_F_RING_PACKED),
            vq.notifs,
            final(self).com_cfg.steps@ == old(self).com_cfg.steps@.push(
                ConfigStep::SetUpQueue(index),
            ),
            final(self).same_but_queues(old(self)),
            final(self).ctrl_vq == old(self).ctrl_vq,
            final(self).recv_vqs == old(self).recv_vqs,
            final(self).send_vqs == old(self).send_vqs,
            final(self).num_vqs == old(self).num_vqs,
    {
        let size: u16 = self.com_cfg.select_vq(index, VIRTIO_MAX_QUEUE_SIZE);
        Virtq::new(size, index, self.dev_cfg.features.is_feature(Features::VIRTIO_F_RING_PACKED))
    }

    /// Sets up the queues for frames: for each pair of queues a receive
    /// ring, on which the device is asked to notify, and a transmit ring, on
    /// which it is asked not to.
    pub fn virtqueue_init(&mut self) -> (r: Result<(), VirtioNetError>)
        requires
            old(self).wf(),
        ensures
            r is Ok,
            final(self).frame_queues_set_up(&old(self).recv_vqs, &old(self).send_vqs),
            final(self).same_but_queues(old(self)),
            final(self).ctrl_vq == old(self).ctrl_vq,
            final(self).com_cfg.steps@ == old(self).com_cfg.steps@ + queue_steps(
                final(self).num_vqs,
                false,
            ),
    {
        if self.dev_cfg.features.is_feature(Features::VIRTIO_NET_F_MQ) {
            if self.dev_cfg.raw.get_max_virtqueue_pairs() >= MAX_NUM_VQ / 2 {
                self.num_vqs = MAX_NUM_VQ;
            } else {
                self.num_vqs = self.dev_cfg.raw.get_max_virtqueue_pairs() * 2;
            }
        } else {
            self.num_vqs = 2;
        }
        let pairs: u16 = self.num_vqs / 2;
        let mut i: u16 = 0;
        while i < pairs
            invariant
                i <= pairs <= 1,
                pairs == self.num_vqs / 2,
                self.num_vqs == num_vqs_for(
                    self.dev_cfg.features,
                    self.dev_cfg.raw.max_virtqueue_pairs,
                ),
                self.same_but_queues(old(self)),
                self.ctrl_vq == old(self).ctrl_vq,
                self.wf(),
                i == 0 ==> self.recv_vqs == old(self).recv_vqs && self.send_vqs == old(self).send_vqs
                    && self.com_cfg.steps@ == old(self).com_cfg.steps@,
                i == 1 ==> self.frame_queues_set_up(&old(self).recv_vqs, &old(self).send_vqs)
                    && self.com_cfg.steps@ == old(self).com_cfg.steps@.push(
                    ConfigStep::SetUpQueue(0),
                ).push(ConfigStep::SetUpQueue(1)),
            decreases pairs - i,
        {
            let mut vq = self.new_ring(2 * i);
            vq.enable_notifs();
            self.recv_vqs.add(vq, &self.dev_cfg);
            let mut vq = self.new_ring(2 * i + 1);
            vq.disable_notifs();
            self.send_vqs.add(vq, &self.dev_cfg);
            i = i + 1;
        }
        proof {
            let before = old(self).com_cfg.steps@;
            assert(before + queue_steps(0, false) =~= before);
            assert(before + queue_steps(2, false) =~= before.push(ConfigStep::SetUpQueue(0)).push(
                ConfigStep::SetUpQueue(1),
            ));
        }
        Ok(())
    }

    /// Sets up what is specific to a network device: the queues for frames
    /// and, if it was negotiated, the control queue, on which the device is
    /// asked to notify.
    pub fn dev_spec_init(&mut self) -> (r: Result<(), VirtioNetError>)
        requires
            old(self).wf(),
        ensures
            r is Ok,
            final(self).frame_queues_set_up(&old(self).recv_vqs, &old(self).send_vqs),
            final(self).ctrl_queue_set_up(&old(self).ctrl_vq),
            final(self).same_but_queues(old(self)),
            final(self).com_cfg.steps@ == old(self).com_cfg.steps@ + queue_steps(
                final(self).num_vqs,
                final(self).dev_cfg.features.contains(Features::VIRTIO_NET_F_CTRL_VQ),
            ),
    {
        match self.virtqueue_init() {
            Ok(_) => {},
            Err(vnet_err) => {
                return Err(vnet_err);
            },
        }
        let ghost with_frames = self.com_cfg.steps@;
        if self.dev_cfg.features.is_feature(Features::VIRTIO_NET_F_CTRL_VQ) {
            let index: u16 = self.num_vqs;
            let mut vq = self.new_ring(index);
            vq.enable_notifs();
            self.ctrl_vq = CtrlQueue(Some(vq));
        }
        proof {
            let before = old(self).com_cfg.steps@;
            let frames = queue_steps(self.num_vqs, false);
            assert(queue_steps(self.num_vqs, true) =~= frames.push(
                ConfigStep::SetUpQueue(self.num_vqs),
            ));
            assert((before + frames).push(ConfigStep::SetUpQueue(self.num_vqs)) =~= before
                + frames.push(ConfigStep::SetUpQueue(self.num_vqs)));
        }
        Ok(())
    }

    /// Initialises the device: resets it, tells it that it was noticed and
    /// can be driven, negotiates the features, sets up the queues, and tells
    /// it that the driver is ready.
    ///
    /// The driver asks for the desired features. If the device does not
    /// offer all of them, it must offer the minimal ones, and the driver
    /// asks for those desired features that the device offers. The device
    /// must confirm the features that were asked for. Where one of the two
    /// fails, the device is left with its queues as they were, and no
    /// further step is made. The steps come in the order that
    /// [`init_steps`] gives.
    pub fn init_dev(&mut self) -> (r: Result<(), VirtioNetError>)
        requires
            old(self).wf(),
        ensures
            r == init_outcome(old(self).com_cfg, old(self).dev_cfg.dev_id),
            final(self).dev_cfg.raw == old(self).dev_cfg.raw,
            final(self).dev_cfg.dev_id == old(self).dev_cfg.dev_id,
            final(self).isr_stat == old(self).isr_stat,
            final(self).notif_cfg == old(self).notif_cfg,
            final(self).irq == old(self).irq,
            final(self).com_cfg.device_features == old(self).com_cfg.device_features,
            final(self).com_cfg.confirms_features == old(self).com_cfg.confirms_features,
            final(self).com_cfg.queue_size == old(self).com_cfg.queue_size,
            final(self).com_cfg.steps@ == old(self).com_cfg.steps@ + init_steps(
                old(self).com_cfg,
                final(self).num_vqs,
                final(self).dev_cfg.features.contains(Features::VIRTIO_NET_F_CTRL_VQ),
            ),
            match r {
                Ok(_) => {
                    &&& final(self).com_cfg.driver_features == chosen_features(
                        old(self).com_cfg.device_features,
                    )
                    &&& final(self).com_cfg.device_status == STATUS_LIVE
                    &&& final(self).dev_cfg.features@ == old(self).dev_cfg.features@
                        | chosen_features(old(self).com_cfg.device_features)
                    &&& final(self).frame_queues_set_up(&old(self).recv_vqs, &old(self).send_vqs)
                    &&& final(self).ctrl_queue_set_up(&old(self).ctrl_vq)
                    &&& final(self).checksums == checksums_for(
                        final(self).dev_cfg.features,
                        old(self).checksums,
                    )
                    &&& final(self).mtu == (if final(self).dev_cfg.features.contains(
                        Features::VIRTIO_NET_F_MTU,
                    ) {
                        old(self).dev_cfg.raw.mtu
                    } else {
                        old(self).mtu
                    })
                },
                Err(_) => {
                    &&& final(self).com_cfg.driver_features == (if offers_minimal(
                        old(self).com_cfg.device_features,
                    ) {
                        chosen_features(old(self).com_cfg.device_features)
                    } else {
                        0
                    })
                    &&& final(self).com_cfg.device_status == STATUS_KNOWN
                    &&& final(self).dev_cfg.features == old(self).dev_cfg.features
                    &&& final(self).ctrl_vq == old(self).ctrl_vq
                    &&& final(self).recv_vqs == old(self).recv_vqs
                    &&& final(self).send_vqs == old(self).send_vqs
                    &&& final(self).num_vqs == old(self).num_vqs
                    &&& final(self).checksums == old(self).checksums
                    &&& final(self).mtu == old(self).mtu
                },
            },
    {
        let ghost offered = self.com_cfg.device_features;
        proof {
            lemma_status_steps();
        }
        self.com_cfg.reset_dev();
        self.com_cfg.ack_dev();
        self.com_cfg.set_drv();

        let features: Vec<Features> = match self.choose_features() {
            Ok(features) => features,
            Err(vnet_err) => {
                proof {
                    assert(self.com_cfg.steps@ =~= old(self).com_cfg.steps@ + init_steps(
                        old(self).com_cfg,
                        self.num_vqs,
                        self.dev_cfg.features.contains(Features::VIRTIO_NET_F_CTRL_VQ),
                    ));
                }
                return Err(vnet_err);
            },
        };
        let ghost negotiated = old(self).com_cfg.steps@ + seq![
            ConfigStep::Reset,
            ConfigStep::Acknowledge,
            ConfigStep::Driver,
        ] + negotiation_steps(offered);
        proof {
            lemma_chosen_offered(offered, union_of(desired_features()));
            assert(self.com_cfg.steps@ =~= negotiated);
        }

        self.com_cfg.features_ok();

        if self.com_cfg.check_features() {
            self.dev_cfg.features.set_features(features.as_slice());
        } else {
            proof {
                assert(self.com_cfg.steps@ =~= old(self).com_cfg.steps@ + init_steps(
                    old(self).com_cfg,
                    self.num_vqs,
                    self.dev_cfg.features.contains(Features::VIRTIO_NET_F_CTRL_VQ),
                ));
            }
            return Err(VirtioNetError::FailFeatureNeg(self.dev_cfg.dev_id));
        }
        let ghost confirmed = self.com_cfg.steps@;
        proof {
            assert(confirmed =~= negotiated.push(ConfigStep::FeaturesOk).push(
                ConfigStep::CheckFeatures,
            ));
        }

        match self.dev_spec_init() {
            Ok(_) => {},
            Err(vnet_err) => {
                return Err(vnet_err);
            },
        }
        self.com_cfg.drv_ok();
        proof {
            let queues = queue_steps(
                self.num_vqs,
                self.dev_cfg.features.contains(Features::VIRTIO_NET_F_CTRL_VQ),
            );
            assert(self.com_cfg.steps@ =~= (confirmed + queues).push(ConfigStep::DriverOk));
            assert(self.com_cfg.steps@ =~= old(self).com_cfg.steps@ + init_steps(
                old(self).com_cfg,
                self.num_vqs,
                self.dev_cfg.features.contains(Features::VIRTIO_NET_F_CTRL_VQ),
            ));
        }

        if self.dev_cfg.features.is_feature(Features::VIRTIO_NET_F_CSUM)
            && self.dev_cfg.features.is_feature(Features::VIRTIO_NET_F_GUEST_CSUM) {
            self.checksums.udp = Checksum::Neither;
            self.checksums.tcp = Checksum::Neither;
        } else if self.dev_cfg.features.is_feature(Features::VIRTIO_NET_F_CSUM) {
            self.checksums.udp = Checksum::Rx;
            self.checksums.tcp = Checksum::Rx;
        } else if self.dev_cfg.features.is_feature(Features::VIRTIO_NET_F_GUEST_CSUM) {
            self.checksums.udp = Checksum::Tx;
            self.checksums.tcp = Checksum::Tx;
        }

        if self.dev_cfg.features.is_feature(Features::VIRTIO_NET_F_MTU) {
            self.mtu = self.dev_cfg.raw.get_mtu();
        }

        Ok(())
    }
}

} // verus!
