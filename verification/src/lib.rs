//! A verified core of a virtio network device driver.
//!
//! The crate holds what such a driver decides and keeps account of:
//!
//! - [`features`]: the feature bits of a network device, sets of them, the
//!   dependencies between them, and the list form of a set;
//! - [`header`]: the twelve-octet header that precedes every frame;
//! - [`token`], [`virtq`], [`channel`]: the buffers of a virtqueue, the
//!   driver's account of a ring, and the channel that carries finished
//!   buffers back;
//! - [`rx`], [`tx`]: the receive and the transmit queue set, which keep every
//!   descriptor of their rings bound to a buffer;
//! - [`checksum`]: who computes the checksums of a frame, and what the header
//!   of a frame tells the device about it;
//! - [`config`]: the configuration structures of the device;
//! - [`driver`]: the driver itself, with the negotiation of features and the
//!   setup of the queues.
//!
//! The device is not part of the crate. What it does reaches the driver as
//! values in the configuration structures and as calls of the functions that
//! stand for its events, such as [`virtq::Virtq::device_complete`].

pub mod align;
pub mod channel;
pub mod checksum;
pub mod config;
pub mod ctrl;
pub mod driver;
pub mod error;
pub mod feature_ops;
pub mod features;
pub mod header;
pub mod rx;
pub mod token;
pub mod tx;
pub mod virtq;
