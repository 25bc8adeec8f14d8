//! The configuration structures of the device as the driver sees them: the
//! device-specific configuration, the common configuration with its status
//! register, and the interrupt status.
//!
//! Each is kept as plain values. What the device decides on its side (the
//! features it offers, whether it confirms a set of features, the interrupts
//! it raises) is part of the value.

use vstd::prelude::*;
use vstd::std_specs::convert::FromSpecImpl;
use crate::features::{FeatureSet, Features};

verus! {

/// Bits of the status field in the device-specific configuration.
#[allow(non_camel_case_types)]
#[derive(Copy, Clone, Debug, PartialEq, Eq, Structural)]
pub enum Status {
    VIRTIO_NET_S_LINK_UP,
    VIRTIO_NET_S_ANNOUNCE,
}

impl Status {
    /// The bit of the status as a 16-bit value.
    pub open spec fn value(self) -> u16 {
        match self {
            Status::VIRTIO_NET_S_LINK_UP => 1,
            Status::VIRTIO_NET_S_ANNOUNCE => 2,
        }
    }
}

impl From<Status> for u16 {
    /// The bit of the status as a 16-bit value.
    fn from(stat: Status) -> (r: u16) {
        match stat {
            Status::VIRTIO_NET_S_LINK_UP => 1,
            Status::VIRTIO_NET_S_ANNOUNCE => 2,
        }
    }
}

impl FromSpecImpl<Status> for u16 {
    open spec fn obeys_from_spec() -> bool {
        true
    }

    open spec fn from_spec(stat: Status) -> u16 {
        stat.value()
    }
}

/// The device-specific configuration of a network device.
#[derive(Copy, Clone, Debug)]
pub struct NetDevCfgRaw {
    pub mac: [u8; 6],
    pub status: u16,
    pub max_virtqueue_pairs: u16,
    pub mtu: u16,
}

impl NetDevCfgRaw {
    /// The MAC address of the device.
    pub fn get_mac(&self) -> (mac: [u8; 6])
        ensures
            mac == self.mac,
    {
        self.mac
    }

    /// The status field of the device.
    pub fn get_status(&self) -> (status: u16)
        ensures
            status == self.status,
    {
        self.status
    }

    /// The largest number of pairs of queues that the device supports.
    pub fn get_max_virtqueue_pairs(&self) -> (pairs: u16)
        ensures
            pairs == self.max_virtqueue_pairs,
    {
        self.max_virtqueue_pairs
    }

    /// The largest size of a frame's payload that the device advertises.
    pub fn get_mtu(&self) -> (mtu: u16)
        ensures
            mtu == self.mtu,
    {
        self.mtu
    }
}

/// The device-specific configuration together with the id of the device and
/// the features that were negotiated.
#[derive(Copy, Clone, Debug)]
pub struct NetDevCfg {
    pub raw: NetDevCfgRaw,
    pub dev_id: u16,
    pub features: FeatureSet,
}

/// The device has been noticed.
pub const STATUS_ACKNOWLEDGE: u8 = 1;

/// The driver knows how to drive the device.
pub const STATUS_DRIVER: u8 = 2;

/// The driver is set up and the device is live.
pub const STATUS_DRIVER_OK: u8 = 4;

/// The driver has chosen its features and the device has confirmed them.
pub const STATUS_FEATURES_OK: u8 = 8;

/// The driver has given up on the device.
pub const STATUS_FAILED: u8 = 128;

/// The status of a device that was noticed and can be driven, before its
/// features are confirmed: `STATUS_ACKNOWLEDGE` and `STATUS_DRIVER`.
pub const STATUS_KNOWN: u8 = 3;

/// The status of a live device: all of `STATUS_ACKNOWLEDGE`, `STATUS_DRIVER`,
/// `STATUS_FEATURES_OK` and `STATUS_DRIVER_OK`.
pub const STATUS_LIVE: u8 = 15;

/// Whether the bit `bit` is set in `status`.
pub open spec fn status_has(status: u8, bit: u8) -> bool {
    status & bit == bit
}

/// One access of the driver to the common configuration.
#[derive(Copy, Clone, Debug, PartialEq, Eq, Structural)]
pub enum ConfigStep {
    /// The device was reset.
    Reset,
    /// The device was told that it has been noticed.
    Acknowledge,
    /// The device was told that the driver knows how to drive it.
    Driver,
    /// The features that the device offers were read.
    ReadFeatures,
    /// These features of the driver were written.
    WriteFeatures(u64),
    /// The device was asked to confirm the features of the driver.
    FeaturesOk,
    /// The status was read again to see whether the device has confirmed.
    CheckFeatures,
    /// The queue with this number was set up.
    SetUpQueue(u16),
    /// The device was told that the driver has set up everything.
    DriverOk,
    /// The device was marked as failed.
    Failed,
}

/// The common configuration of a device.
#[derive(Copy, Clone)]
pub struct ComCfg {
    /// The features that the device offers.
    pub device_features: u64,
    /// The features that the driver has written.
    pub driver_features: u64,
    /// The status register.
    pub device_status: u8,
    /// Whether the device confirms a set of features that it offers.
    pub confirms_features: bool,
    /// The largest number of descriptors that the device takes for a queue.
    pub queue_size: u16,
    /// The accesses of the driver to the configuration so far, in their
    /// order.
    pub steps: Ghost<Seq<ConfigStep>>,
}

proof fn lemma_status_bits(status: u8)
    by (bit_vector)
    ensures
        (status | 1u8) & 1u8 == 1u8,
        (status | 2u8) & 2u8 == 2u8,
        (status | 4u8) & 4u8 == 4u8,
        (status | 8u8) & 8u8 == 8u8,
        status & 1u8 == 1u8 ==> (status | 2u8) & 1u8 == 1u8 && (status | 4u8) & 1u8 == 1u8 && (status
            | 8u8) & 1u8 == 1u8,
        status & 2u8 == 2u8 ==> (status | 1u8) & 2u8 == 2u8 && (status | 4u8) & 2u8 == 2u8 && (status
            | 8u8) & 2u8 == 2u8,
        status & 4u8 == 4u8 ==> (status | 1u8) & 4u8 == 4u8 && (status | 2u8) & 4u8 == 4u8 && (status
            | 8u8) & 4u8 == 4u8,
        status & 8u8 == 8u8 ==> (status | 1u8) & 8u8 == 8u8 && (status | 2u8) & 8u8 == 8u8 && (status
            | 4u8) & 8u8 == 8u8,
        status & 1u8 != 1u8 ==> (status | 2u8) & 1u8 != 1u8 && (status | 4u8) & 1u8 != 1u8 && (status
            | 8u8) & 1u8 != 1u8,
        status & 2u8 != 2u8 ==> (status | 1u8) & 2u8 != 2u8 && (status | 4u8) & 2u8 != 2u8 && (status
            | 8u8) & 2u8 != 2u8,
        status & 4u8 != 4u8 ==> (status | 1u8) & 4u8 != 4u8 && (status | 2u8) & 4u8 != 4u8 && (status
            | 8u8) & 4u8 != 4u8,
        status & 8u8 != 8u8 ==> (status | 1u8) & 8u8 != 8u8 && (status | 2u8) & 8u8 != 8u8 && (status
            | 4u8) & 8u8 != 8u8,
        status & 128u8 == (status | 1u8) & 128u8,
        status & 128u8 == (status | 2u8) & 128u8,
        status & 128u8 == (status | 4u8) & 128u8,
        status & 128u8 == (status | 8u8) & 128u8,
        0u8 & 1u8 == 0u8,
        0u8 & 2u8 == 0u8,
        0u8 & 4u8 == 0u8,
        0u8 & 8u8 == 0u8,
        0u8 & 128u8 == 0u8,
        128u8 & 128u8 == 128u8,
        128u8 & 1u8 == 0u8,
        128u8 & 2u8 == 0u8,
        128u8 & 4u8 == 0u8,
        128u8 & 8u8 == 0u8,
{
}

/// The values of the status register on the way from a reset device to a
/// live one.
pub proof fn lemma_status_steps()
    by (bit_vector)
    ensures
        0u8 | 1u8 == 1u8,
        1u8 | 2u8 == 3u8,
        3u8 | 8u8 == 11u8,
        11u8 | 4u8 == 15u8,
        11u8 & 8u8 == 8u8,
        3u8 & 8u8 != 8u8,
        STATUS_KNOWN == STATUS_ACKNOWLEDGE | STATUS_DRIVER,
        STATUS_LIVE == STATUS_ACKNOWLEDGE | STATUS_DRIVER | STATUS_FEATURES_OK | STATUS_DRIVER_OK,
{
}

impl ComCfg {
    /// Whether the status register has all of the bits of `other`'s and no
    /// bit but these and `bit`, seen through the five bits that the driver
    /// uses.
    pub open spec fn status_is(&self, old_status: u8, bit: u8) -> bool {
        &&& status_has(self.device_status, bit)
        &&& forall|b: u8|
            (b == STATUS_ACKNOWLEDGE || b == STATUS_DRIVER || b == STATUS_DRIVER_OK || b
                == STATUS_FEATURES_OK || b == STATUS_FAILED) && b != bit ==> (#[trigger] status_has(
                self.device_status,
                b,
            ) == status_has(old_status, b))
    }

    /// Whether nothing but the status register and the record of the
    /// accesses differs between the two.
    pub open spec fn same_but_status(&self, other: &ComCfg) -> bool {
        &&& self.device_features == other.device_features
        &&& self.driver_features == other.driver_features
        &&& self.confirms_features == other.confirms_features
        &&& self.queue_size == other.queue_size
    }

    /// The common configuration of a device that offers `device_features`,
    /// before the driver has touched it.
    pub fn new(device_features: u64, confirms_features: bool, queue_size: u16) -> (cfg: ComCfg)
        ensures
            cfg.device_features == device_features,
            cfg.driver_features == 0,
            cfg.device_status == 0,
            cfg.confirms_features == confirms_features,
            cfg.queue_size == queue_size,
            cfg.steps@ == Seq::<ConfigStep>::empty(),
    {
        ComCfg {
            device_features,
            driver_features: 0,
            device_status: 0,
            confirms_features,
            queue_size,
            steps: Ghost(Seq::empty()),
        }
    }

    /// Resets the device: the status register is cleared and no features of
    /// the driver are written any more.
    pub fn reset_dev(&mut self)
        ensures
            final(self).steps@ == old(self).steps@.push(ConfigStep::Reset),
            final(self).device_status == 0,
            final(self).driver_features == 0,
            final(self).device_features == old(self).device_features,
            final(self).confirms_features == old(self).confirms_features,
            final(self).queue_size == old(self).queue_size,
            forall|b: u8|
                (b == STATUS_ACKNOWLEDGE || b == STATUS_DRIVER || b == STATUS_DRIVER_OK || b
                    == STATUS_FEATURES_OK || b == STATUS_FAILED) ==> !(#[trigger] status_has(
                    final(self).device_status,
                    b,
                )),
    {
        self.steps = Ghost(self.steps@.push(ConfigStep::Reset));
        proof {
            lemma_status_bits(0);
        }
        self.device_status = 0;
        self.driver_features = 0;
    }

    /// Tells the device that it has been noticed.
    pub fn ack_dev(&mut self)
        ensures
            final(self).steps@ == old(self).steps@.push(ConfigStep::Acknowledge),
            final(self).same_but_status(old(self)),
            final(self).device_status == old(self).device_status | STATUS_ACKNOWLEDGE,
            final(self).status_is(old(self).device_status, STATUS_ACKNOWLEDGE),
    {
        self.steps = Ghost(self.steps@.push(ConfigStep::Acknowledge));
        proof {
            lemma_status_bits(self.device_status);
        }
        self.device_status = self.device_status | STATUS_ACKNOWLEDGE;
    }

    /// Tells the device that the driver knows how to drive it.
    pub fn set_drv(&mut self)
        ensures
            final(self).steps@ == old(self).steps@.push(ConfigStep::Driver),
            final(self).same_but_status(old(self)),
            final(self).device_status == old(self).device_status | STATUS_DRIVER,
            final(self).status_is(old(self).device_status, STATUS_DRIVER),
    {
        self.steps = Ghost(self.steps@.push(ConfigStep::Driver));
        proof {
            lemma_status_bits(self.device_status);
        }
        self.device_status = self.device_status | STATUS_DRIVER;
    }

    /// Tells the device that the driver has set up everything.
    pub fn drv_ok(&mut self)
        ensures
            final(self).steps@ == old(self).steps@.push(ConfigStep::DriverOk),
            final(self).same_but_status(old(self)),
            final(self).device_status == old(self).device_status | STATUS_DRIVER_OK,
            final(self).status_is(old(self).device_status, STATUS_DRIVER_OK),
    {
        self.steps = Ghost(self.steps@.push(ConfigStep::DriverOk));
        proof {
            lemma_status_bits(self.device_status);
        }
        self.device_status = self.device_status | STATUS_DRIVER_OK;
    }

    /// Marks the device as failed.
    pub fn set_failed(&mut self)
        ensures
            final(self).steps@ == old(self).steps@.push(ConfigStep::Failed),
            final(self).same_but_status(old(self)),
            final(self).device_status == STATUS_FAILED,
            status_has(final(self).device_status, STATUS_FAILED),
    {
        self.steps = Ghost(self.steps@.push(ConfigStep::Failed));
        proof {
            lemma_status_bits(self.device_status);
        }
        self.device_status = STATUS_FAILED;
    }

    /// Reads the features that the device offers.
    pub fn dev_features(&mut self) -> (features: u64)
        ensures
            features == old(self).device_features,
            final(self).steps@ == old(self).steps@.push(ConfigStep::ReadFeatures),
            final(self).same_but_status(old(self)),
            final(self).device_status == old(self).device_status,
    {
        self.steps = Ghost(self.steps@.push(ConfigStep::ReadFeatures));
        self.device_features
    }

    /// Writes the features that the driver has chosen.
    pub fn set_drv_features(&mut self, features: u64)
        ensures
            final(self).steps@ == old(self).steps@.push(ConfigStep::WriteFeatures(features)),
            final(self).driver_features == features,
            final(self).device_features == old(self).device_features,
            final(self).device_status == old(self).device_status,
            final(self).confirms_features == old(self).confirms_features,
            final(self).queue_size == old(self).queue_size,
    {
        self.steps = Ghost(self.steps@.push(ConfigStep::WriteFeatures(features)));
        self.driver_features = features;
    }

    /// Whether the device agrees to the features that the driver has
    /// written: it offers each of them, and it confirms what it offers.
    pub open spec fn device_agrees(&self) -> bool {
        self.confirms_features && self.driver_features & self.device_features
            == self.driver_features
    }

    /// Asks the device to confirm the features that the driver has written.
    /// The device sets the bit in the status register only if it agrees.
    pub fn features_ok(&mut self)
        ensures
            final(self).steps@ == old(self).steps@.push(ConfigStep::FeaturesOk),
            final(self).same_but_status(old(self)),
            old(self).device_agrees() ==> final(self).device_status == old(self).device_status
                | STATUS_FEATURES_OK && final(self).status_is(
                old(self).device_status,
                STATUS_FEATURES_OK,
            ),
            !old(self).device_agrees() ==> final(self).device_status == old(self).device_status,
    {
        self.steps = Ghost(self.steps@.push(ConfigStep::FeaturesOk));
        if self.confirms_features && self.driver_features & self.device_features
            == self.driver_features {
            proof {
                lemma_status_bits(self.device_status);
            }
            self.device_status = self.device_status | STATUS_FEATURES_OK;
        }
    }

    /// Reads the status again to see whether the device has confirmed the
    /// features of the driver.
    pub fn check_features(&mut self) -> (confirmed: bool)
        ensures
            confirmed == status_has(old(self).device_status, STATUS_FEATURES_OK),
            final(self).steps@ == old(self).steps@.push(ConfigStep::CheckFeatures),
            final(self).same_but_status(old(self)),
            final(self).device_status == old(self).device_status,
    {
        self.steps = Ghost(self.steps@.push(ConfigStep::CheckFeatures));
        self.device_status & STATUS_FEATURES_OK == STATUS_FEATURES_OK
    }

    /// Sets up the queue with the given number, for which the driver would
    /// take `wanted` descriptors: the queue gets as many as the device
    /// takes, and no more than that.
    pub fn select_vq(&mut self, index: u16, wanted: u16) -> (size: u16)
        ensures
            size == (if old(self).queue_size < wanted {
                old(self).queue_size
            } else {
                wanted
            }),
            final(self).steps@ == old(self).steps@.push(ConfigStep::SetUpQueue(index)),
            final(self).same_but_status(old(self)),
            final(self).device_status == old(self).device_status,
    {
        self.steps = Ghost(self.steps@.push(ConfigStep::SetUpQueue(index)));
        if self.queue_size < wanted {
            self.queue_size
        } else {
            wanted
        }
    }
}

/// The interrupt was raised because a queue has used buffers.
pub const ISR_QUEUE: u8 = 1;

/// The interrupt was raised because the configuration of the device changed.
pub const ISR_CONFIG: u8 = 2;

/// The interrupt status of a device.
#[derive(Copy, Clone, Debug, PartialEq, Eq, Structural)]
pub struct IsrStatus {
    /// The causes of the interrupt that the device has raised and that was
    /// not acknowledged yet.
    pub flags: u8,
}

impl IsrStatus {
    /// An interrupt status with no interrupt raised.
    pub fn new() -> (isr: IsrStatus)
        ensures
            isr.flags == 0,
    {
        IsrStatus { flags: 0 }
    }

    /// The device raises an interrupt with the given causes.
    pub fn raise(&mut self, causes: u8)
        ensures
            final(self).flags == old(self).flags | causes,
    {
        self.flags = self.flags | causes;
    }

    /// Whether an interrupt was raised because a queue has used buffers.
    pub fn is_interrupt(&self) -> (b: bool)
        ensures
            b == (self.flags & ISR_QUEUE == ISR_QUEUE),
    {
        self.flags & ISR_QUEUE == ISR_QUEUE
    }

    /// Whether an interrupt was raised because the configuration changed.
    pub fn is_cfg_change(&self) -> (b: bool)
        ensures
            b == (self.flags & ISR_CONFIG == ISR_CONFIG),
    {
        self.flags & ISR_CONFIG == ISR_CONFIG
    }

    /// Acknowledges the interrupt: no cause is left.
    pub fn acknowledge(&mut self)
        ensures
            final(self).flags == 0,
    {
        self.flags = 0;
    }
}

/// The notification area of a device.
#[derive(Copy, Clone, Debug, PartialEq, Eq, Structural)]
pub struct NotifCfg {
    /// The factor by which the device spaces the notification addresses of
    /// its queues.
    pub multiplier: u32,
}

} // verus!
