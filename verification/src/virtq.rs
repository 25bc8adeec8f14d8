//! The driver's side of one virtqueue.
//!
//! A ring of `size` descriptors. A descriptor is free, or it is bound to a
//! token; a token of the ring is with the driver, in flight (provided to the
//! device, oldest first) or used (finished by the device and not yet
//! collected). The device finishes the tokens of a ring in the order in
//! which they were provided.

use vstd::prelude::*;
use crate::channel::TokenChannel;
use crate::token::{copy_into, overwritten, BufferToken, VirtqError};

verus! {

/// One virtqueue, as the driver keeps account of it.
pub struct Virtq {
    /// The number of the queue at the device.
    pub index: u16,
    /// The number of descriptors.
    pub size: u16,
    /// Whether the ring has the packed layout, or else the split one.
    pub packed: bool,
    /// Whether the device is asked to notify the driver of used buffers.
    pub notifs: bool,
    /// The number of descriptors that are bound to no token.
    pub free: u16,
    /// The tokens provided to the device, oldest first.
    pub in_flight: Vec<BufferToken>,
    /// The tokens that the device has finished, oldest first.
    pub used: Vec<BufferToken>,
}

/// Whether `after` is `before` once the device has finished it and has
/// written `written` to its receive area.
pub open spec fn completes(before: BufferToken, after: BufferToken, written: Seq<u8>) -> bool {
    &&& after.send == before.send
    &&& after.send_len == before.send_len
    &&& after.queue == before.queue
    &&& after.recv@ == overwritten(before.recv@, 0, written)
    &&& after.recv_len == written.len()
}

/// The number of bytes that an optional size asks for.
pub open spec fn size_or_zero(size: Option<usize>) -> usize {
    match size {
        Some(n) => n,
        None => 0,
    }
}

impl Virtq {
    /// The descriptors suffice for the tokens in the ring, and these are
    /// well formed.
    pub open spec fn wf(&self) -> bool {
        &&& self.free + self.in_flight@.len() + self.used@.len() <= self.size
        &&& forall|i: int| 0 <= i < self.in_flight@.len() ==> (#[trigger] self.in_flight@[i]).wf()
        &&& forall|i: int| 0 <= i < self.used@.len() ==> (#[trigger] self.used@[i]).wf()
    }

    /// The number of tokens of the ring that are with the driver: every
    /// descriptor is free, or bound to a token in the ring, or bound to one
    /// of these.
    pub open spec fn held(&self) -> int {
        self.size - self.free - self.in_flight@.len() - self.used@.len()
    }

    /// The number of tokens that are with the device or wait to be collected.
    pub open spec fn in_ring(&self) -> nat {
        self.in_flight@.len() + self.used@.len()
    }

    /// Whether nothing but the tokens in flight differs between the two.
    pub open spec fn same_but_in_flight(&self, other: &Virtq) -> bool {
        &&& self.index == other.index
        &&& self.size == other.size
        &&& self.packed == other.packed
        &&& self.notifs == other.notifs
        &&& self.free == other.free
        &&& self.used == other.used
    }

    /// Whether nothing but the wish for notifications differs between the
    /// two.
    pub open spec fn same_but_notifs(&self, other: &Virtq) -> bool {
        &&& self.index == other.index
        &&& self.size == other.size
        &&& self.packed == other.packed
        &&& self.free == other.free
        &&& self.in_flight == other.in_flight
        &&& self.used == other.used
    }

    /// Whether nothing but the tokens and the free descriptors differs
    /// between the two.
    pub open spec fn same_but_tokens(&self, other: &Virtq) -> bool {
        &&& self.index == other.index
        &&& self.size == other.size
        &&& self.packed == other.packed
        &&& self.notifs == other.notifs
    }

    /// Whether all descriptors of the ring are free.
    pub open spec fn is_fresh(&self) -> bool {
        &&& self.free == self.size
        &&& self.in_flight@.len() == 0
        &&& self.used@.len() == 0
    }

    /// A ring of `size` free descriptors for queue `index`. The device is
    /// asked to notify.
    pub fn new(size: u16, index: u16, packed: bool) -> (vq: Virtq)
        ensures
            vq.wf(),
            vq.size == size,
            vq.index == index,
            vq.packed == packed,
            vq.notifs,
            vq.free == size,
            vq.in_flight@.len() == 0,
            vq.used@.len() == 0,
    {
        Virtq {
            index,
            size,
            packed,
            notifs: true,
            free: size,
            in_flight: Vec::new(),
            used: Vec::new(),
        }
    }

    /// The number of descriptors of the ring.
    pub fn size(&self) -> (size: u16)
        ensures
            size == self.size,
    {
        self.size
    }

    /// The number of the queue at the device.
    pub fn index(&self) -> (index: u16)
        ensures
            index == self.index,
    {
        self.index
    }

    /// Asks the device to notify the driver of used buffers.
    pub fn enable_notifs(&mut self)
        ensures
            final(self).notifs,
            final(self).index == old(self).index,
            final(self).size == old(self).size,
            final(self).packed == old(self).packed,
            final(self).free == old(self).free,
            final(self).in_flight == old(self).in_flight,
            final(self).used == old(self).used,
    {
        self.notifs = true;
    }

    /// Asks the device not to notify the driver of used buffers.
    pub fn disable_notifs(&mut self)
        ensures
            !final(self).notifs,
            final(self).index == old(self).index,
            final(self).size == old(self).size,
            final(self).packed == old(self).packed,
            final(self).free == old(self).free,
            final(self).in_flight == old(self).in_flight,
            final(self).used == old(self).used,
    {
        self.notifs = false;
    }

    /// Binds a free descriptor to a new token with zeroed areas of the given
    /// sizes. Refused without a change if no area of positive size is asked
    /// for, and else if no descriptor is free.
    pub fn prep_buffer(&mut self, send_size: Option<usize>, recv_size: Option<usize>) -> (r: Result<
        BufferToken,
        VirtqError,
    >)
        requires
            old(self).wf(),
        ensures
            final(self).wf(),
            final(self).index == old(self).index,
            final(self).size == old(self).size,
            final(self).packed == old(self).packed,
            final(self).notifs == old(self).notifs,
            final(self).in_flight == old(self).in_flight,
            final(self).used == old(self).used,
            match r {
                Ok(tkn) => {
                    &&& size_or_zero(send_size) + size_or_zero(recv_size) > 0
                    &&& old(self).free > 0
                    &&& final(self).free == old(self).free - 1
                    &&& tkn.wf()
                    &&& tkn.is_reset()
                    &&& tkn.send@ == Seq::new(size_or_zero(send_size) as nat, |i: int| 0u8)
                    &&& tkn.recv@ == Seq::new(size_or_zero(recv_size) as nat, |i: int| 0u8)
                    &&& tkn.queue == 0
                },
                Err(e) => {
                    &&& final(self).free == old(self).free
                    &&& e == (if size_or_zero(send_size) == 0 && size_or_zero(recv_size) == 0 {
                        VirtqError::BufferNotSpecified
                    } else {
                        VirtqError::NoDescrAvail
                    })
                    &&& (size_or_zero(send_size) == 0 && size_or_zero(recv_size) == 0)
                        || old(self).free == 0
                },
            },
    {
        let send: usize = match send_size {
            Some(n) => n,
            None => 0,
        };
        let recv: usize = match recv_size {
            Some(n) => n,
            None => 0,
        };
        if send == 0 && recv == 0 {
            return Err(VirtqError::BufferNotSpecified);
        }
        if self.free == 0 {
            return Err(VirtqError::NoDescrAvail);
        }
        self.free = self.free - 1;
        Ok(BufferToken::new(send, recv, 0))
    }

    /// Takes back a token of the ring that is not used any more: its
    /// descriptor is free again.
    pub fn release(&mut self, tkn: BufferToken)
        requires
            old(self).wf(),
            old(self).held() > 0,
        ensures
            final(self).wf(),
            final(self).free == old(self).free + 1,
            final(self).held() == old(self).held() - 1,
            final(self).index == old(self).index,
            final(self).size == old(self).size,
            final(self).packed == old(self).packed,
            final(self).notifs == old(self).notifs,
            final(self).in_flight == old(self).in_flight,
            final(self).used == old(self).used,
    {
        self.free = self.free + 1;
    }

    /// Provides a token of the ring to the device: it is in flight, behind
    /// those that are in flight already.
    pub fn provide(&mut self, tkn: BufferToken)
        requires
            old(self).wf(),
            old(self).held() > 0,
            tkn.wf(),
        ensures
            final(self).wf(),
            final(self).in_flight@ == old(self).in_flight@.push(tkn),
            final(self).held() == old(self).held() - 1,
            final(self).same_but_in_flight(old(self)),
    {
        self.in_flight.push(tkn);
    }

    /// The token that the device is to work on next, if one is in flight.
    pub fn next_in_flight(&self) -> (r: Option<&BufferToken>)
        ensures
            match r {
                Some(tkn) => self.in_flight@.len() > 0 && *tkn == self.in_flight@[0],
                None => self.in_flight@.len() == 0,
            },
    {
        if self.in_flight.len() > 0 {
            Some(&self.in_flight[0])
        } else {
            None
        }
    }

    /// The device has finished the oldest token in flight and has written
    /// `written` to its receive area: the token is used. Answers `false`,
    /// with nothing changed, if no token is in flight or if `written` is
    /// longer than what the token offers of its receive area.
    pub fn device_complete(&mut self, written: &[u8]) -> (done: bool)
        requires
            old(self).wf(),
        ensures
            final(self).wf(),
            final(self).index == old(self).index,
            final(self).size == old(self).size,
            final(self).packed == old(self).packed,
            final(self).notifs == old(self).notifs,
            final(self).free == old(self).free,
            done == (old(self).in_flight@.len() > 0 && written@.len() <= old(
                self,
            ).in_flight@[0].recv_len),
            done ==> {
                &&& final(self).in_flight@ == old(self).in_flight@.drop_first()
                &&& final(self).used@.len() == old(self).used@.len() + 1
                &&& final(self).used@.drop_last() == old(self).used@
                &&& completes(old(self).in_flight@[0], final(self).used@.last(), written@)
            },
            !done ==> final(self).in_flight == old(self).in_flight && final(self).used == old(
                self,
            ).used,
    {
        if self.in_flight.len() == 0 {
            return false;
        }
        if written.len() > self.in_flight[0].recv_len {
            return false;
        }
        let mut tkn = self.in_flight.remove(0);
        copy_into(&mut tkn.recv, 0, written);
        tkn.recv_len = written.len();
        self.used.push(tkn);
        proof {
            assert(self.in_flight@ =~= old(self).in_flight@.drop_first());
            assert(self.used@.drop_last() =~= old(self).used@);
            assert forall|i: int| 0 <= i < self.in_flight@.len() implies (
            #[trigger] self.in_flight@[i]).wf() by {
                assert(self.in_flight@[i] == old(self).in_flight@[i + 1]);
            }
            assert forall|i: int| 0 <= i < self.used@.len() implies (#[trigger] self.used@[i]).wf() by {
                if i < old(self).used@.len() {
                    assert(self.used@[i] == old(self).used@[i]);
                }
            }
        }
        true
    }

    /// Collects the used tokens: they are sent to `channel`, oldest first.
    pub fn poll(&mut self, channel: &mut TokenChannel)
        requires
            old(self).wf(),
        ensures
            final(self).wf(),
            final(self).used@.len() == 0,
            final(channel)@ == old(channel)@ + old(self).used@,
            final(self).held() == old(self).held() + old(self).used@.len(),
            final(self).index == old(self).index,
            final(self).size == old(self).size,
            final(self).packed == old(self).packed,
            final(self).notifs == old(self).notifs,
            final(self).free == old(self).free,
            final(self).in_flight == old(self).in_flight,
            old(self).used@.len() == 0 ==> *final(self) == *old(self) && *final(channel) == *old(
                channel,
            ),
    {
        while self.used.len() > 0
            invariant
                self.used@.len() == old(self).used@.len() ==> *self == *old(self) && *channel == *old(
                    channel,
                ),
                self.in_flight == old(self).in_flight,
                self.index == old(self).index,
                self.size == old(self).size,
                self.packed == old(self).packed,
                self.notifs == old(self).notifs,
                self.free == old(self).free,
                self.used@.len() <= old(self).used@.len(),
                channel@ + self.used@ == old(channel)@ + old(self).used@,
                forall|i: int| 0 <= i < self.used@.len() ==> (#[trigger] self.used@[i]).wf(),
            decreases self.used@.len(),
        {
            let ghost before = self.used@;
            let ghost sent = channel@;
            let tkn = self.used.remove(0);
            channel.send(tkn);
            proof {
                assert(self.used@ =~= before.drop_first());
                assert(channel@ + self.used@ =~= sent + before);
                assert forall|i: int| 0 <= i < self.used@.len() implies (
                #[trigger] self.used@[i]).wf() by {
                    assert(self.used@[i] == before[i + 1]);
                }
            }
        }
        proof {
            assert(channel@ =~= channel@ + self.used@);
        }
    }
}

/// Sets the wish for notifications on all the rings if `all` holds, else on
/// the first ring. Nothing else changes.
pub fn set_ring_notifs(vqs: &mut Vec<Virtq>, all: bool, wanted: bool)
    requires
        all || old(vqs)@.len() > 0,
    ensures
        final(vqs)@.len() == old(vqs)@.len(),
        forall|p: int|
            0 <= p < final(vqs)@.len() ==> (#[trigger] final(vqs)@[p]).same_but_notifs(&old(vqs)@[p])
                && final(vqs)@[p].notifs == (if all || p == 0 {
                wanted
            } else {
                old(vqs)@[p].notifs
            }),
{
    let n: usize = if all {
        vqs.len()
    } else {
        1
    };
    let mut k: usize = 0;
    while k < n
        invariant
            k <= n,
            n == (if all {
                old(vqs)@.len()
            } else {
                1
            }),
            n <= vqs@.len(),
            vqs@.len() == old(vqs)@.len(),
            forall|p: int|
                0 <= p < vqs@.len() ==> (#[trigger] vqs@[p]).same_but_notifs(&old(vqs)@[p])
                    && vqs@[p].notifs == (if p < k {
                    wanted
                } else {
                    old(vqs)@[p].notifs
                }),
        decreases n - k,
    {
        if wanted {
            vqs[k].enable_notifs();
        } else {
            vqs[k].disable_notifs();
        }
        k = k + 1;
    }
}

} // verus!
