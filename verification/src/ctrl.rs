//! The control queue of a network device, and the classes of commands that
//! are sent over it.

use vstd::prelude::*;
use vstd::std_specs::convert::FromSpecImpl;
use crate::virtq::Virtq;

verus! {

/// The queue for commands to the device, if there is one.
pub struct CtrlQueue(pub Option<Virtq>);

impl CtrlQueue {
    /// The control queue that is the given ring, or none.
    pub fn new(vq: Option<Virtq>) -> (ctrl: Self)
        ensures
            ctrl.0 == vq,
    {
        CtrlQueue(vq)
    }
}

/// The classes of commands of the control queue.
#[allow(non_camel_case_types)]
#[derive(Copy, Clone, Debug, PartialEq, Eq, Structural)]
pub enum CtrlClass {
    VIRTIO_NET_CTRL_RX,
    VIRTIO_NET_CTRL_MAC,
    VIRTIO_NET_CTRL_VLAN,
    VIRTIO_NET_CTRL_ANNOUNCE,
    VIRTIO_NET_CTRL_MQ,
}

impl CtrlClass {
    /// The octet that stands for the class: one bit for each class.
    pub open spec fn value(self) -> u8 {
        match self {
            CtrlClass::VIRTIO_NET_CTRL_RX => 1,
            CtrlClass::VIRTIO_NET_CTRL_MAC => 2,
            CtrlClass::VIRTIO_NET_CTRL_VLAN => 4,
            CtrlClass::VIRTIO_NET_CTRL_ANNOUNCE => 8,
            CtrlClass::VIRTIO_NET_CTRL_MQ => 16,
        }
    }
}

impl From<CtrlClass> for u8 {
    /// The octet that stands for the class.
    fn from(val: CtrlClass) -> (r: u8) {
        match val {
            CtrlClass::VIRTIO_NET_CTRL_RX => 1,
            CtrlClass::VIRTIO_NET_CTRL_MAC => 2,
            CtrlClass::VIRTIO_NET_CTRL_VLAN => 4,
            CtrlClass::VIRTIO_NET_CTRL_ANNOUNCE => 8,
            CtrlClass::VIRTIO_NET_CTRL_MQ => 16,
        }
    }
}

impl FromSpecImpl<CtrlClass> for u8 {
    open spec fn obeys_from_spec() -> bool {
        true
    }

    open spec fn from_spec(val: CtrlClass) -> u8 {
        val.value()
    }
}

} // verus!
