//! The transmit queue set: the rings on which frames are sent, the ready
//! tokens that wait for a frame, and the channel through which sent tokens
//! come back.
//!
//! Only the first ring carries traffic. Each of its descriptors is free or
//! bound to a token; the token is ready, in the ring, in the channel, or for
//! a moment in the hands of the driver.

use vstd::prelude::*;
use crate::channel::TokenChannel;
use crate::config::NetDevCfg;
use crate::features::{FeatureSet, Features};
use crate::header::{lemma_decoding_reads_prefix, VirtioNetHdr, HEADER_SIZE};
use crate::checksum::{make_tx_header, tx_header, ChecksumCapabilities};
use crate::token::{copy_into, overwritten, BufferToken};
use crate::virtq::{completes, set_ring_notifs, Virtq};

verus! {

/// The largest payload of a frame that is sent with segmentation offload.
pub const LARGE_SEND_SIZE: usize = 65550;

/// The size of the buffers of the transmit ring: the header and, with an
/// offload of large frames negotiated, the largest such frame; else the
/// header and the largest payload.
pub open spec fn tx_buffer_size_spec(features: FeatureSet, mtu: u16) -> usize {
    if features.contains(Features::VIRTIO_NET_F_GUEST_TSO4) || features.contains(
        Features::VIRTIO_NET_F_GUEST_TSO6,
    ) || features.contains(Features::VIRTIO_NET_F_GUEST_UFO) {
        (HEADER_SIZE + LARGE_SEND_SIZE) as usize
    } else {
        (HEADER_SIZE + mtu) as usize
    }
}

/// The size of the buffers of the transmit ring.
pub fn tx_buffer_size(features: FeatureSet, mtu: u16) -> (size: usize)
    ensures
        size == tx_buffer_size_spec(features, mtu),
        size >= HEADER_SIZE,
{
    if features.is_feature(Features::VIRTIO_NET_F_GUEST_TSO4) || features.is_feature(
        Features::VIRTIO_NET_F_GUEST_TSO6,
    ) || features.is_feature(Features::VIRTIO_NET_F_GUEST_UFO) {
        HEADER_SIZE + LARGE_SEND_SIZE
    } else {
        let payload: usize = mtu as usize;
        HEADER_SIZE + payload
    }
}

/// The place of the last token of `tokens` that has `len` bytes in use of
/// its send area, or more; `-1` if there is none.
pub open spec fn last_fit(tokens: Seq<BufferToken>, len: usize) -> int
    decreases tokens.len(),
{
    if tokens.len() == 0 {
        -1
    } else if tokens.last().send_len >= len {
        tokens.len() - 1
    } else {
        last_fit(tokens.drop_last(), len)
    }
}

/// The place of the first token of `tokens` whose send area has `len` bytes
/// or more; the length of `tokens` if there is none.
pub open spec fn first_fit(tokens: Seq<BufferToken>, len: usize) -> int
    decreases tokens.len(),
{
    if tokens.len() == 0 {
        0
    } else if tokens[0].send@.len() >= len {
        0
    } else {
        1 + first_fit(tokens.drop_first(), len)
    }
}

/// The token with `len` bytes of its send area in use.
pub open spec fn fitted(tkn: BufferToken, len: usize) -> BufferToken {
    BufferToken {
        send: tkn.send,
        recv: tkn.recv,
        send_len: len,
        recv_len: tkn.recv_len,
        queue: tkn.queue,
    }
}

/// Whether `tkn` is a token as the transmit ring is filled with: a zeroed
/// send area of `size` bytes in full use, and no receive area.
pub open spec fn is_tx_token(tkn: BufferToken, size: usize) -> bool {
    &&& tkn.send@ == Seq::new(size as nat, |i: int| 0u8)
    &&& tkn.recv@.len() == 0
    &&& tkn.is_reset()
    &&& tkn.queue == 0
}

/// Whether what the token gives the device to read starts with a header.
pub open spec fn starts_with_header(tkn: BufferToken) -> bool {
    VirtioNetHdr::decoding(tkn.send_data()) is Some
}

/// What the place of the last fit says: the token there is large enough and
/// no token behind it is; with no fit, no token is large enough.
pub proof fn lemma_last_fit(tokens: Seq<BufferToken>, len: usize)
    ensures
        -1 <= last_fit(tokens, len) < tokens.len(),
        last_fit(tokens, len) >= 0 ==> tokens[last_fit(tokens, len)].send_len >= len,
        forall|j: int| last_fit(tokens, len) < j < tokens.len() ==> (#[trigger] tokens[j]).send_len < len,
    decreases tokens.len(),
{
    if tokens.len() > 0 && tokens.last().send_len < len {
        lemma_last_fit(tokens.drop_last(), len);
        assert forall|j: int| last_fit(tokens, len) < j < tokens.len() implies (
        #[trigger] tokens[j]).send_len < len by {
            if j < tokens.len() - 1 {
                assert(tokens.drop_last()[j] == tokens[j]);
            }
        }
    }
}

/// What the place of the first fit says: the token there is large enough
/// and no token before it is; with no fit, no token is large enough.
pub proof fn lemma_first_fit(tokens: Seq<BufferToken>, len: usize)
    ensures
        0 <= first_fit(tokens, len) <= tokens.len(),
        first_fit(tokens, len) < tokens.len() ==> tokens[first_fit(tokens, len)].send@.len() >= len,
        forall|j: int| 0 <= j < first_fit(tokens, len) ==> (#[trigger] tokens[j]).send@.len() < len,
    decreases tokens.len(),
{
    if tokens.len() > 0 && tokens[0].send@.len() < len {
        lemma_first_fit(tokens.drop_first(), len);
        assert forall|j: int| 0 <= j < first_fit(tokens, len) implies (#[trigger] tokens[j]).send@.len()
            < len by {
            if j > 0 {
                assert(tokens.drop_first()[j - 1] == tokens[j]);
            }
        }
    }
}

/// The rings on which frames are sent.
pub struct TxQueues {
    /// The rings, in the order in which they were added.
    pub vqs: Vec<Virtq>,
    /// The channel through which sent tokens come back.
    pub channel: TokenChannel,
    /// The tokens that wait for a frame. The last one is taken first.
    pub ready_queue: Vec<BufferToken>,
    /// Whether more than one ring serves the device.
    pub is_multi: bool,
}

impl TxQueues {
    /// Whether the set is well formed while the driver has `out` tokens in
    /// its hands: every descriptor of the first ring is free or bound to a
    /// token that is ready, in the ring, in the channel, or among these; what
    /// a token in flight gives the device to read starts with a header; the
    /// other rings hold no token.
    pub open spec fn accounts_for(&self, out: int) -> bool {
        &&& forall|p: int| 0 <= p < self.vqs@.len() ==> (#[trigger] self.vqs@[p]).wf()
        &&& forall|p: int| 1 <= p < self.vqs@.len() ==> (#[trigger] self.vqs@[p]).in_ring() == 0
        &&& forall|i: int| 0 <= i < self.ready_queue@.len() ==> (#[trigger] self.ready_queue@[i]).wf()
        &&& forall|i: int| 0 <= i < self.channel@.len() ==> (#[trigger] self.channel@[i]).wf()
        &&& self.vqs@.len() > 0 ==> forall|i: int|
            0 <= i < self.vqs@[0].in_flight@.len() ==> starts_with_header(
                #[trigger] self.vqs@[0].in_flight@[i],
            )
        &&& self.vqs@.len() > 0 ==> self.vqs@[0].held() == self.ready_queue@.len()
            + self.channel@.len() + out
        &&& self.vqs@.len() == 0 ==> self.ready_queue@.len() + self.channel@.len() + out == 0
    }

    /// Whether the set is well formed, with no token in the driver's hands.
    pub open spec fn wf(&self) -> bool {
        self.accounts_for(0)
    }

    /// The number of tokens of the first ring: those that are ready, those in
    /// the ring, and those in the channel.
    pub open spec fn token_count(&self) -> nat {
        self.ready_queue@.len() + self.vqs@[0].in_ring() + self.channel@.len()
    }

    /// Whether the rings of the two sets differ in nothing but the free
    /// descriptors and the used tokens of the first ring.
    pub open spec fn same_rings(&self, other: &TxQueues) -> bool {
        &&& self.is_multi == other.is_multi
        &&& self.vqs@.len() == other.vqs@.len()
        &&& forall|p: int| 1 <= p < self.vqs@.len() ==> (#[trigger] self.vqs@[p]) == other.vqs@[p]
        &&& self.vqs@.len() > 0 ==> {
            &&& self.vqs@[0].index == other.vqs@[0].index
            &&& self.vqs@[0].size == other.vqs@[0].size
            &&& self.vqs@[0].packed == other.vqs@[0].packed
            &&& self.vqs@[0].notifs == other.vqs@[0].notifs
            &&& self.vqs@[0].in_flight == other.vqs@[0].in_flight
        }
    }

    /// Whether every token of the first ring can take `len` bytes to send:
    /// each ready token has as many in use, and the send area of every other
    /// token is as large.
    pub open spec fn holds_all(&self, len: usize) -> bool {
        &&& forall|i: int|
            0 <= i < self.ready_queue@.len() ==> (#[trigger] self.ready_queue@[i]).send_len >= len
        &&& forall|i: int|
            0 <= i < self.channel@.len() ==> (#[trigger] self.channel@[i]).send@.len() >= len
        &&& forall|i: int|
            0 <= i < self.vqs@[0].used@.len() ==> (#[trigger] self.vqs@[0].used@[i]).send@.len()
                >= len
        &&& forall|i: int|
            0 <= i < self.vqs@[0].in_flight@.len() ==> (
            #[trigger] self.vqs@[0].in_flight@[i]).send@.len() >= len
    }

    /// The tokens that have come back, after the first ring was polled if
    /// none waited in the channel.
    pub open spec fn returned(&self) -> Seq<BufferToken> {
        if self.channel@.len() == 0 {
            self.vqs@[0].used@
        } else {
            self.channel@
        }
    }

    /// The free descriptors of the first ring once every token that is ready
    /// or has come back is given up.
    pub open spec fn spare(&self) -> int {
        self.vqs@[0].free + self.ready_queue@.len() + self.returned().len()
    }

    /// Whether a token for `len` bytes can be had: one that is ready or has
    /// come back is large enough, or a descriptor is free once the tokens
    /// that are too small are given up.
    pub open spec fn can_provide(&self, len: usize) -> bool {
        ||| last_fit(self.ready_queue@, len) >= 0
        ||| first_fit(self.returned(), len) < self.returned().len()
        ||| (len > 0 && self.spare() > 0)
    }

    /// Whether `tkn` is the token that is handed out for `len` bytes: the
    /// last ready token that is large enough; else the first that has come
    /// back and is large enough, made ready again; each with `len` bytes of
    /// its send area in use. Else a new token with a zeroed send area of
    /// `len` bytes.
    pub open spec fn picks(&self, len: usize, tkn: BufferToken) -> bool {
        let i = last_fit(self.ready_queue@, len);
        let j = first_fit(self.returned(), len);
        if i >= 0 {
            tkn == fitted(self.ready_queue@[i], len)
        } else if j < self.returned().len() {
            tkn == fitted(self.returned()[j].reset_spec(), len)
        } else {
            &&& len > 0
            &&& self.spare() > 0
            &&& is_tx_token(tkn, len)
        }
    }

    /// The ready tokens after a token for `len` bytes was asked for: those
    /// before the one handed out; none, if none of them was large enough.
    pub open spec fn ready_after(&self, len: usize) -> Seq<BufferToken> {
        let i = last_fit(self.ready_queue@, len);
        if i >= 0 {
            self.ready_queue@.take(i)
        } else {
            Seq::empty()
        }
    }

    /// The tokens in the channel after a token for `len` bytes was asked
    /// for: as before if a ready token was handed out; else those behind the
    /// one handed out; none, if none of them was large enough.
    pub open spec fn channel_after(&self, len: usize) -> Seq<BufferToken> {
        let j = first_fit(self.returned(), len);
        if last_fit(self.ready_queue@, len) >= 0 {
            self.channel@
        } else if j < self.returned().len() {
            self.returned().skip(j + 1)
        } else {
            Seq::empty()
        }
    }

    /// The used tokens of the first ring after a token for `len` bytes was
    /// asked for: none if the ring was polled, else as before.
    pub open spec fn used_after(&self, len: usize) -> Seq<BufferToken> {
        if last_fit(self.ready_queue@, len) >= 0 || self.channel@.len() > 0 {
            self.vqs@[0].used@
        } else {
            Seq::empty()
        }
    }

    /// The free descriptors of the first ring after a token for `len` bytes
    /// was asked for: one more for each token that was given up, one less
    /// for a new token.
    pub open spec fn free_after(&self, len: usize) -> int {
        let i = last_fit(self.ready_queue@, len);
        let j = first_fit(self.returned(), len);
        if i >= 0 {
            self.vqs@[0].free + (self.ready_queue@.len() - 1 - i)
        } else if j < self.returned().len() {
            self.vqs@[0].free + self.ready_queue@.len() + j
        } else if len > 0 && self.spare() > 0 {
            self.spare() - 1
        } else {
            self.spare()
        }
    }

    /// Where every token can take `cap` bytes and no descriptor is free, a
    /// token for up to `cap` bytes is had without giving one up: it is the
    /// last ready token, or else the first that has come back. The tokens
    /// that stay behind are those that were there.
    pub proof fn lemma_fit_where_all_hold(&self, len: usize, cap: usize)
        requires
            self.wf(),
            self.vqs@.len() > 0,
            self.vqs@[0].free == 0,
            self.can_provide(len),
            len <= cap,
            self.holds_all(cap),
        ensures
            self.free_after(len) == 0,
            self.ready_queue@.len() > 0 ==> last_fit(self.ready_queue@, len)
                == self.ready_queue@.len() - 1,
            self.ready_queue@.len() == 0 ==> first_fit(self.returned(), len) == 0
                && self.returned().len() > 0,
            forall|i: int|
                0 <= i < self.ready_after(len).len() ==> (#[trigger] self.ready_after(len)[i]).send_len
                    >= cap,
            forall|i: int|
                0 <= i < self.channel_after(len).len() ==> (
                #[trigger] self.channel_after(len)[i]).send@.len() >= cap,
            forall|i: int|
                0 <= i < self.used_after(len).len() ==> (#[trigger] self.used_after(len)[i]).send@.len()
                    >= cap,
            forall|tkn: BufferToken| #[trigger] self.picks(len, tkn) ==> tkn.send@.len() >= cap,
    {
        let ready = self.ready_queue@;
        let back = self.returned();
        lemma_last_fit(ready, len);
        lemma_first_fit(back, len);
        if ready.len() > 0 {
            assert(ready.last() == ready[ready.len() - 1]);
            assert(ready.last().wf());
        } else {
            assert(back.len() > 0);
            if self.channel@.len() == 0 {
                assert(self.vqs@[0].used@[0].send@.len() >= cap);
                assert(self.vqs@[0].wf());
            } else {
                assert(self.channel@[0].send@.len() >= cap);
            }
            assert(back[0].send@.len() >= len);
            assert forall|i: int| 0 <= i < self.channel_after(len).len() implies (
            #[trigger] self.channel_after(len)[i]).send@.len() >= cap by {
                assert(self.channel_after(len)[i] == back[i + 1]);
                if self.channel@.len() == 0 {
                    assert(back[i + 1] == self.vqs@[0].used@[i + 1]);
                } else {
                    assert(back[i + 1] == self.channel@[i + 1]);
                }
            }
        }
    }

    /// Every descriptor of the first ring is free or bound to one of the
    /// tokens that are ready, in the ring, or in the channel: where no
    /// descriptor is free, these are as many as the ring has descriptors.
    pub proof fn lemma_token_count(&self)
        requires
            self.wf(),
            self.vqs@.len() > 0,
        ensures
            self.token_count() + self.vqs@[0].free == self.vqs@[0].size,
    {
    }

    /// What every token in flight gives the device to read starts with a
    /// header.
    pub proof fn lemma_in_flight_has_header(&self, i: int)
        requires
            self.wf(),
            self.vqs@.len() > 0,
            0 <= i < self.vqs@[0].in_flight@.len(),
        ensures
            VirtioNetHdr::decoding(self.vqs@[0].in_flight@[i].send_data()) is Some,
            self.vqs@[0].in_flight@[i].send_len >= HEADER_SIZE,
    {
        assert(starts_with_header(self.vqs@[0].in_flight@[i]));
    }

    /// How one ready token answers a request for `len` bytes: if it has just
    /// as many in use, it is handed out as it is; if it has more, it is
    /// handed out with `len` bytes in use and its memory as it is; if it has
    /// fewer, it is given up and not handed out.
    pub proof fn lemma_one_ready_token(&self, len: usize, tkn: BufferToken)
        requires
            self.ready_queue@.len() == 1,
            self.picks(len, tkn),
        ensures
            self.ready_queue@[0].send_len == len ==> tkn == self.ready_queue@[0],
            self.ready_queue@[0].send_len > len ==> tkn == fitted(self.ready_queue@[0], len)
                && tkn.send_len == len && tkn.send == self.ready_queue@[0].send,
            self.ready_queue@[0].send_len < len ==> last_fit(self.ready_queue@, len) == -1
                && self.ready_after(len).len() == 0,
    {
        let ready = self.ready_queue@;
        assert(ready.last() == ready[0]);
        assert(last_fit(ready.drop_last(), len) == -1);
    }

    /// A transmit queue set of the given rings and ready tokens, with an
    /// empty channel.
    pub fn new(vqs: Vec<Virtq>, ready_queue: Vec<BufferToken>, is_multi: bool) -> (tx: TxQueues)
        ensures
            tx.vqs == vqs,
            tx.ready_queue == ready_queue,
            tx.is_multi == is_multi,
            tx.channel@ == Seq::<BufferToken>::empty(),
            vqs@.len() == 0 && ready_queue@.len() == 0 ==> tx.wf(),
    {
        TxQueues { vqs, channel: TokenChannel::new(), ready_queue, is_multi }
    }

    /// Asks for notifications of used buffers: on every ring where several
    /// rings serve the device, else on the first ring.
    pub fn enable_notifs(&mut self)
        requires
            old(self).wf(),
            old(self).is_multi || old(self).vqs@.len() > 0,
        ensures
            final(self).wf(),
            final(self).channel@ == old(self).channel@,
            final(self).ready_queue == old(self).ready_queue,
            final(self).is_multi == old(self).is_multi,
            final(self).vqs@.len() == old(self).vqs@.len(),
            forall|p: int|
                0 <= p < final(self).vqs@.len() ==> (#[trigger] final(self).vqs@[p]).same_but_notifs(
                    &old(self).vqs@[p],
                ) && final(self).vqs@[p].notifs == (if old(self).is_multi || p == 0 {
                    true
                } else {
                    old(self).vqs@[p].notifs
                }),
    {
        set_ring_notifs(&mut self.vqs, self.is_multi, true);
        proof {
            self.lemma_notifs_keep_wf(old(self));
        }
    }

    /// Asks for no notifications of used buffers: on every ring where
    /// several rings serve the device, else on the first ring.
    pub fn disable_notifs(&mut self)
        requires
            old(self).wf(),
            old(self).is_multi || old(self).vqs@.len() > 0,
        ensures
            final(self).wf(),
            final(self).channel@ == old(self).channel@,
            final(self).ready_queue == old(self).ready_queue,
            final(self).is_multi == old(self).is_multi,
            final(self).vqs@.len() == old(self).vqs@.len(),
            forall|p: int|
                0 <= p < final(self).vqs@.len() ==> (#[trigger] final(self).vqs@[p]).same_but_notifs(
                    &old(self).vqs@[p],
                ) && final(self).vqs@[p].notifs == (if old(self).is_multi || p == 0 {
                    false
                } else {
                    old(self).vqs@[p].notifs
                }),
    {
        set_ring_notifs(&mut self.vqs, self.is_multi, false);
        proof {
            self.lemma_notifs_keep_wf(old(self));
        }
    }

    proof fn lemma_notifs_keep_wf(&self, before: &TxQueues)
        requires
            before.wf(),
            self.channel@ == before.channel@,
            self.ready_queue == before.ready_queue,
            self.vqs@.len() == before.vqs@.len(),
            forall|p: int|
                0 <= p < self.vqs@.len() ==> (#[trigger] self.vqs@[p]).same_but_notifs(
                    &before.vqs@[p],
                ),
        ensures
            self.wf(),
    {
        assert forall|p: int| 0 <= p < self.vqs@.len() implies (#[trigger] self.vqs@[p]).wf() by {
            assert(self.vqs@[p].same_but_notifs(&before.vqs@[p]));
            assert(before.vqs@[p].wf());
        }
        assert forall|p: int| 1 <= p < self.vqs@.len() implies (#[trigger] self.vqs@[p]).in_ring()
            == 0 by {
            assert(self.vqs@[p].same_but_notifs(&before.vqs@[p]));
            assert(before.vqs@[p].in_ring() == 0);
        }
        if self.vqs@.len() > 0 {
            assert(self.vqs@[0].same_but_notifs(&before.vqs@[0]));
        }
    }

    /// Collects the used tokens into the channel: those of every ring where
    /// several rings serve the device, else those of the first ring. As only
    /// the first ring carries traffic, these are the used tokens of the
    /// first ring.
    pub fn poll(&mut self)
        requires
            old(self).wf(),
            old(self).is_multi || old(self).vqs@.len() > 0,
        ensures
            final(self).wf(),
            final(self).same_rings(old(self)),
            final(self).ready_queue == old(self).ready_queue,
            old(self).vqs@.len() == 0 ==> final(self).channel@ == old(self).channel@,
            old(self).vqs@.len() > 0 ==> {
                &&& final(self).channel@ == old(self).channel@ + old(self).vqs@[0].used@
                &&& final(self).vqs@[0].used@.len() == 0
                &&& final(self).vqs@[0].free == old(self).vqs@[0].free
            },
    {
        if self.vqs.len() == 0 {
            return ;
        }
        let n: usize = if self.is_multi {
            self.vqs.len()
        } else {
            1
        };
        self.poll_while(Ghost(0));
        let mut k: usize = 1;
        while k < n
            invariant
                1 <= k,
                n <= self.vqs@.len(),
                old(self).vqs@.len() > 0,
                self.wf(),
                self.same_rings(old(self)),
                self.ready_queue == old(self).ready_queue,
                self.channel@ == old(self).channel@ + old(self).vqs@[0].used@,
                self.vqs@[0].used@.len() == 0,
                self.vqs@[0].free == old(self).vqs@[0].free,
            decreases n - k,
        {
            let ghost before = *self;
            assert(self.vqs@[k as int].in_ring() == 0);
            assert(self.vqs@[k as int].wf());
            self.vqs[k].poll(&mut self.channel);
            proof {
                assert(self.vqs@[k as int] == before.vqs@[k as int]);
                assert(self.vqs@ =~= before.vqs@);
            }
            k = k + 1;
        }
    }

    /// Collects the used tokens of the first ring into the channel while the
    /// driver has `out` tokens in its hands.
    fn poll_while(&mut self, Ghost(out): Ghost<int>)
        requires
            old(self).accounts_for(out),
            old(self).vqs@.len() > 0,
        ensures
            final(self).accounts_for(out),
            final(self).same_rings(old(self)),
            final(self).ready_queue == old(self).ready_queue,
            final(self).channel@ == old(self).channel@ + old(self).vqs@[0].used@,
            final(self).vqs@[0].used@.len() == 0,
            final(self).vqs@[0].free == old(self).vqs@[0].free,
    {
        assert(self.vqs@[0].wf());
        self.vqs[0].poll(&mut self.channel);
        proof {
            assert forall|p: int| 0 <= p < self.vqs@.len() implies (#[trigger] self.vqs@[p]).wf() by {
                if p > 0 {
                    assert(self.vqs@[p] == old(self).vqs@[p]);
                }
            }
            assert forall|p: int| 1 <= p < self.vqs@.len() implies (#[trigger] self.vqs@[p]).in_ring()
                == 0 by {
                assert(self.vqs@[p] == old(self).vqs@[p]);
            }
            assert forall|i: int| 0 <= i < self.channel@.len() implies (
            #[trigger] self.channel@[i]).wf() by {
                if i < old(self).channel@.len() {
                    assert(self.channel@[i] == old(self).channel@[i]);
                } else {
                    let k = i - old(self).channel@.len();
                    assert(self.channel@[i] == old(self).vqs@[0].used@[k]);
                }
            }
        }
    }

    /// Whether the set is `before` with one more ring, which has the given
    /// number, size, layout and wish for notifications and holds no token.
    /// If it is the first ring, all its descriptors are bound to tokens
    /// with a zeroed send buffer of `tx_size` bytes, which are ready. If it
    /// is a further ring, its descriptors are free, and several rings serve
    /// the device.
    pub open spec fn added(
        &self,
        before: &TxQueues,
        index: u16,
        size: u16,
        packed: bool,
        notifs: bool,
        tx_size: usize,
    ) -> bool {
        &&& self.channel@ == before.channel@
        &&& self.vqs@.len() == before.vqs@.len() + 1
        &&& self.vqs@.drop_last() == before.vqs@
        &&& self.vqs@.last().index == index
        &&& self.vqs@.last().size == size
        &&& self.vqs@.last().packed == packed
        &&& self.vqs@.last().notifs == notifs
        &&& self.vqs@.last().in_ring() == 0
        &&& before.vqs@.len() == 0 ==> {
            &&& self.is_multi == before.is_multi
            &&& self.vqs@.last().free == 0
            &&& self.ready_queue@.len() == size
            &&& forall|i: int| 0 <= i < size ==> is_tx_token(#[trigger] self.ready_queue@[i], tx_size)
        }
        &&& before.vqs@.len() > 0 ==> {
            &&& self.is_multi
            &&& self.vqs@.last().free == size
            &&& self.ready_queue == before.ready_queue
        }
    }

    /// Adds a ring to the set. The first ring is filled: each of its
    /// descriptors is bound to a token with a send buffer that starts with a
    /// zeroed header, and the tokens are ready. A further ring is left as it
    /// is, and the set becomes a set of several rings.
    pub fn add(&mut self, vq: Virtq, dev_cfg: &NetDevCfg)
        requires
            old(self).wf(),
            vq.is_fresh(),
        ensures
            final(self).wf(),
            final(self).added(
                old(self),
                vq.index,
                vq.size,
                vq.packed,
                vq.notifs,
                tx_buffer_size_spec(dev_cfg.features, dev_cfg.raw.mtu),
            ),
    {
        let first: bool = self.vqs.len() == 0;
        if first {
            let tx_size: usize = tx_buffer_size(dev_cfg.features, dev_cfg.raw.get_mtu());
            let num_buff: u16 = vq.size();
            let header = VirtioNetHdr::default().encode();
            let mut ring = vq;
            let mut i: u16 = 0;
            while i < num_buff
                invariant
                    i <= num_buff,
                    num_buff == vq.size,
                    tx_size == tx_buffer_size_spec(dev_cfg.features, dev_cfg.raw.mtu),
                    tx_size >= HEADER_SIZE,
                    header@ == VirtioNetHdr::zeroed().encoding(),
                    ring.wf(),
                    ring.index == vq.index,
                    ring.size == vq.size,
                    ring.packed == vq.packed,
                    ring.notifs == vq.notifs,
                    ring.in_flight@.len() == 0,
                    ring.used@.len() == 0,
                    ring.free == vq.size - i,
                    self.ready_queue@.len() == i,
                    self.vqs@.len() == 0,
                    self.channel@ == old(self).channel@,
                    self.is_multi == old(self).is_multi,
                    forall|j: int| 0 <= j < i ==> is_tx_token(#[trigger] self.ready_queue@[j], tx_size),
                decreases num_buff - i,
            {
                let ghost before = self.ready_queue@;
                match ring.prep_buffer(Some(tx_size), None) {
                    Ok(mut tkn) => {
                        let ghost zeros = tkn.send@;
                        match tkn.write_seq(Some(header.as_slice()), None) {
                            Ok(_) => {},
                            Err(_) => {
                                proof {
                                    assert(false);
                                }
                            },
                        }
                        proof {
                            assert(tkn.send@ =~= zeros);
                        }
                        self.ready_queue.push(tkn);
                        proof {
                            assert forall|j: int| 0 <= j < i + 1 implies is_tx_token(
                                #[trigger] self.ready_queue@[j],
                                tx_size,
                            ) by {
                                if j < before.len() {
                                    assert(self.ready_queue@[j] == before[j]);
                                }
                            }
                        }
                    },
                    Err(_) => {
                        proof {
                            assert(false);
                        }
                    },
                }
                i = i + 1;
            }
            self.vqs.push(ring);
            proof {
                assert(self.vqs@.drop_last() =~= old(self).vqs@);
                assert(self.vqs@[0] == ring);
            }
        } else {
            self.vqs.push(vq);
            self.is_multi = true;
            proof {
                assert(self.vqs@.drop_last() =~= old(self).vqs@);
                assert forall|p: int| 0 <= p < self.vqs@.len() implies (#[trigger] self.vqs@[p]).wf() by {
                    if p < old(self).vqs@.len() {
                        assert(self.vqs@[p] == old(self).vqs@[p]);
                    }
                }
                assert forall|p: int| 1 <= p < self.vqs@.len() implies (
                #[trigger] self.vqs@[p]).in_ring() == 0 by {
                    if p < old(self).vqs@.len() {
                        assert(self.vqs@[p] == old(self).vqs@[p]);
                    }
                }
                assert(self.vqs@[0] == old(self).vqs@[0]);
            }
        }
    }

    /// Whether a token for `len` bytes can be had. One can whenever a token
    /// is ready or has come back: if it is too small, it is given up and
    /// its descriptor serves a new one; only a request for no bytes at all
    /// is answered by no new token. Else one can if a descriptor is free.
    pub fn has_token_for(&self, len: usize) -> (b: bool)
        requires
            self.vqs@.len() > 0,
        ensures
            b == self.can_provide(len),
    {
        let waiting: bool = self.ready_queue.len() > 0 || !self.channel.is_empty()
            || self.vqs[0].used.len() > 0;
        proof {
            lemma_last_fit(self.ready_queue@, len);
            lemma_first_fit(self.returned(), len);
            if self.ready_queue@.len() > 0 && len == 0 {
                assert(self.ready_queue@.last().send_len >= len);
            }
        }
        if len > 0 {
            waiting || self.vqs[0].free > 0
        } else {
            waiting
        }
    }

    /// A token whose send area has `len` bytes in use, with the place of its
    /// ring in the set, which is always the first.
    ///
    /// The ready tokens are tried from the last one down; each that is too
    /// small is given up, and the first that is large enough is returned.
    /// If none is, the first ring is polled, unless tokens wait in the
    /// channel, and the tokens that came back are tried in their order, each
    /// made ready again first. If none is large enough either, a new token
    /// of exactly `len` bytes is bound to a free descriptor of the first
    /// ring. If there is none, or if `len` is zero, nothing is returned.
    pub fn get_tkn(&mut self, len: usize) -> (r: Option<(BufferToken, usize)>)
        requires
            old(self).wf(),
            old(self).vqs@.len() > 0,
        ensures
            final(self).same_rings(old(self)),
            r is Some <==> old(self).can_provide(len),
            final(self).accounts_for(
                if r is Some {
                    1
                } else {
                    0
                },
            ),
            final(self).ready_queue@ == old(self).ready_after(len),
            final(self).channel@ == old(self).channel_after(len),
            final(self).vqs@[0].used@ == old(self).used_after(len),
            final(self).vqs@[0].free == old(self).free_after(len),
            r matches Some((tkn, place)) ==> place == 0 && old(self).picks(len, tkn) && tkn.wf()
                && tkn.send_len == len,
    {
        let ghost ready = self.ready_queue@;
        while self.ready_queue.len() > 0
            invariant
                old(self).wf(),
                old(self).vqs@.len() > 0,
                self.accounts_for(0),
                self.same_rings(old(self)),
                self.vqs@.len() > 0,
                self.channel@ == old(self).channel@,
                self.vqs@[0].used@ == old(self).vqs@[0].used@,
                self.ready_queue@.len() <= ready.len(),
                self.ready_queue@ == ready.take(self.ready_queue@.len() as int),
                last_fit(self.ready_queue@, len) == last_fit(ready, len),
                self.vqs@[0].free == old(self).vqs@[0].free + (ready.len() - self.ready_queue@.len()),
                ready == old(self).ready_queue@,
            decreases self.ready_queue@.len(),
        {
            let ghost before = self.ready_queue@;
            let popped = self.ready_queue.pop();
            proof {
                assert(self.ready_queue@ =~= before.drop_last());
                assert(self.ready_queue@ =~= ready.take(self.ready_queue@.len() as int));
                assert(before.last() == before[before.len() - 1]);
                assert(before.last().wf());
                assert forall|i: int| 0 <= i < self.ready_queue@.len() implies (
                #[trigger] self.ready_queue@[i]).wf() by {
                    assert(self.ready_queue@[i] == before[i]);
                }
            }
            match popped {
                Some(mut tkn) => {
                    let send_len: usize = tkn.len().0;
                    if send_len < len {
                        assert(self.vqs@[0].wf());
                        self.vqs[0].release(tkn);
                        proof {
                            self.lemma_first_ring_changed(old(self), 0);
                        }
                    } else if send_len == len {
                        proof {
                            self.lemma_first_ring_changed(old(self), 1);
                            assert(tkn == fitted(ready[last_fit(ready, len)], len));
                        }
                        return Some((tkn, 0));
                    } else {
                        let ghost whole = tkn;
                        let restricted = tkn.restr_size(Some(len), None);
                        proof {
                            self.lemma_first_ring_changed(old(self), 1);
                            assert(tkn == fitted(whole, len));
                        }
                        return Some((tkn, 0));
                    }
                },
                None => {
                    proof {
                        assert(false);
                    }
                },
            }
        }
        proof {
            assert(last_fit(ready, len) == -1);
        }
        if self.channel.is_empty() {
            self.poll_while(Ghost(0));
            proof {
                assert(self.channel@ =~= old(self).vqs@[0].used@);
            }
        }
        let ghost back = self.channel@;
        let ghost mut dropped: int = 0;
        proof {
            assert(back == old(self).returned());
            assert(back.skip(0) =~= back);
        }
        while !self.channel.is_empty()
            invariant
                old(self).wf(),
                old(self).vqs@.len() > 0,
                self.accounts_for(0),
                self.same_rings(old(self)),
                self.vqs@.len() > 0,
                self.ready_queue@.len() == 0,
                ready == old(self).ready_queue@,
                back == old(self).returned(),
                last_fit(ready, len) == -1,
                0 <= dropped <= back.len(),
                self.channel@ == back.skip(dropped),
                first_fit(back, len) == dropped + first_fit(self.channel@, len),
                self.vqs@[0].free == old(self).vqs@[0].free + ready.len() + dropped,
                self.vqs@[0].used@ == (if old(self).channel@.len() == 0 {
                    Seq::<BufferToken>::empty()
                } else {
                    old(self).vqs@[0].used@
                }),
            decreases self.channel@.len(),
        {
            let ghost before = self.channel@;
            match self.channel.try_recv() {
                Some(buffer_token) => {
                    proof {
                        assert(before[0].wf());
                        assert(buffer_token == back[dropped]);
                        assert(self.channel@ =~= back.skip(dropped + 1));
                        assert forall|i: int| 0 <= i < self.channel@.len() implies (
                        #[trigger] self.channel@[i]).wf() by {
                            assert(self.channel@[i] == before[i + 1]);
                        }
                    }
                    let mut tkn = buffer_token.reset();
                    let send_len: usize = tkn.len().0;
                    if send_len < len {
                        assert(self.vqs@[0].wf());
                        self.vqs[0].release(tkn);
                        proof {
                            self.lemma_first_ring_changed(old(self), 0);
                            dropped = dropped + 1;
                        }
                    } else if send_len == len {
                        proof {
                            self.lemma_first_ring_changed(old(self), 1);
                            assert(tkn == fitted(back[dropped].reset_spec(), len));
                        }
                        return Some((tkn, 0));
                    } else {
                        let ghost whole = tkn;
                        let restricted = tkn.restr_size(Some(len), None);
                        proof {
                            self.lemma_first_ring_changed(old(self), 1);
                            assert(tkn == fitted(back[dropped].reset_spec(), len));
                        }
                        return Some((tkn, 0));
                    }
                },
                None => {
                    proof {
                        assert(false);
                    }
                },
            }
        }
        proof {
            assert(first_fit(back, len) == back.len());
        }
        assert(self.vqs@[0].wf());
        match self.vqs[0].prep_buffer(Some(len), None) {
            Ok(tkn) => {
                proof {
                    self.lemma_first_ring_changed(old(self), 1);
                }
                Some((tkn, 0))
            },
            Err(_) => {
                proof {
                    self.lemma_first_ring_changed(old(self), 0);
                }
                None
            },
        }
    }

    /// A set whose first ring has changed in its free descriptors and used
    /// tokens only, and that balances, is well formed.
    proof fn lemma_first_ring_changed(&self, before: &TxQueues, out: int)
        requires
            before.wf(),
            before.vqs@.len() > 0,
            self.vqs@.len() == before.vqs@.len(),
            self.is_multi == before.is_multi,
            forall|p: int| 1 <= p < self.vqs@.len() ==> (#[trigger] self.vqs@[p]) == before.vqs@[p],
            self.vqs@[0].wf(),
            self.vqs@[0].index == before.vqs@[0].index,
            self.vqs@[0].size == before.vqs@[0].size,
            self.vqs@[0].packed == before.vqs@[0].packed,
            self.vqs@[0].notifs == before.vqs@[0].notifs,
            self.vqs@[0].in_flight == before.vqs@[0].in_flight,
            forall|i: int| 0 <= i < self.ready_queue@.len() ==> (#[trigger] self.ready_queue@[i]).wf(),
            forall|i: int| 0 <= i < self.channel@.len() ==> (#[trigger] self.channel@[i]).wf(),
            self.vqs@[0].held() == self.ready_queue@.len() + self.channel@.len() + out,
        ensures
            self.accounts_for(out),
            self.same_rings(before),
    {
        assert forall|p: int| 0 <= p < self.vqs@.len() implies (#[trigger] self.vqs@[p]).wf() by {
            if p > 0 {
                assert(self.vqs@[p] == before.vqs@[p]);
                assert(before.vqs@[p].wf());
            }
        }
        assert forall|p: int| 1 <= p < self.vqs@.len() implies (#[trigger] self.vqs@[p]).in_ring()
            == 0 by {
            assert(self.vqs@[p] == before.vqs@[p]);
            assert(before.vqs@[p].in_ring() == 0);
        }
    }

    /// Whether `sent` is the token `tkn` with `bytes` written to the start
    /// of its send area.
    pub open spec fn carries(tkn: BufferToken, sent: BufferToken, bytes: Seq<u8>) -> bool {
        &&& sent.send@ == overwritten(tkn.send@, 0, bytes)
        &&& sent.recv == tkn.recv
        &&& sent.send_len == tkn.send_len
        &&& sent.recv_len == tkn.recv_len
        &&& sent.queue == tkn.queue
    }

    /// Whether the set is as `before` after the frame `frame` was sent with
    /// the header `header`: a token for both was handed out as
    /// [`TxQueues::get_tkn`] does, both were written to the start of its send
    /// area, and it is in flight behind the others on the first ring.
    pub open spec fn sent(&self, before: &TxQueues, frame: Seq<u8>, header: VirtioNetHdr) -> bool {
        let len = (frame.len() + HEADER_SIZE) as usize;
        let sent = self.vqs@[0].in_flight@.last();
        &&& self.vqs@[0].in_flight@.len() == before.vqs@[0].in_flight@.len() + 1
        &&& self.vqs@[0].in_flight@.drop_last() == before.vqs@[0].in_flight@
        &&& sent.send_data() == header.encoding() + frame
        &&& exists|tkn: BufferToken| #[trigger]
            before.picks(len, tkn) && Self::carries(tkn, sent, header.encoding() + frame)
    }

    /// Whether the set is as `before` after a token for `len` bytes was
    /// asked for, but for the tokens in flight.
    pub open spec fn asked(&self, before: &TxQueues, len: usize) -> bool {
        &&& self.is_multi == before.is_multi
        &&& self.vqs@.len() == before.vqs@.len()
        &&& forall|p: int| 1 <= p < self.vqs@.len() ==> (#[trigger] self.vqs@[p]) == before.vqs@[p]
        &&& self.vqs@[0].same_but_tokens(&before.vqs@[0])
        &&& self.ready_queue@ == before.ready_after(len)
        &&& self.channel@ == before.channel_after(len)
        &&& self.vqs@[0].used@ == before.used_after(len)
        &&& self.vqs@[0].free == before.free_after(len)
    }

    /// Sends a frame if a token for it can be had, and tells whether it did.
    ///
    /// A token for the header and the frame is taken as
    /// [`TxQueues::get_tkn`] hands it out, the header and the frame are
    /// written to its send area, and it is provided to the first ring. What
    /// the device is given to read is the header followed by the frame.
    /// Where every token can take the frame and no descriptor is free, no
    /// token is given up and none is made.
    pub fn try_send(&mut self, frame: &[u8], checksums: &ChecksumCapabilities) -> (done: bool)
        requires
            old(self).wf(),
            old(self).vqs@.len() > 0,
            frame@.len() + HEADER_SIZE <= usize::MAX,
        ensures
            final(self).wf(),
            done == old(self).can_provide((frame@.len() + HEADER_SIZE) as usize),
            final(self).asked(old(self), (frame@.len() + HEADER_SIZE) as usize),
            done ==> final(self).sent(old(self), frame@, tx_header(*checksums, frame@)),
            !done ==> final(self).vqs@[0].in_flight == old(self).vqs@[0].in_flight,
            forall|cap: usize|
                done && frame@.len() + HEADER_SIZE <= cap && old(self).vqs@[0].free == 0
                    && #[trigger] old(self).holds_all(cap) ==> final(self).vqs@[0].free == 0
                    && final(self).holds_all(cap),
    {
        let required: usize = frame.len() + HEADER_SIZE;
        match self.get_tkn(required) {
            Some((mut tkn, _)) => {
                let ghost picked = tkn;
                let header = make_tx_header(checksums, frame).encode();
                copy_into(&mut tkn.send, 0, header.as_slice());
                copy_into(&mut tkn.send, HEADER_SIZE, frame);
                proof {
                    let bytes = tx_header(*checksums, frame@).encoding() + frame@;
                    assert(tkn.send@ =~= overwritten(picked.send@, 0, bytes));
                    assert(tkn.send_data() =~= bytes);
                    assert(Self::carries(picked, tkn, bytes));
                    lemma_decoding_reads_prefix(tx_header(*checksums, frame@), frame@);
                }
                self.provide(tkn);
                proof {
                    assert(self.vqs@[0].in_flight@.drop_last() =~= old(self).vqs@[0].in_flight@);
                    assert forall|cap: usize|
                        required <= cap && old(self).vqs@[0].free == 0 && #[trigger] old(
                            self,
                        ).holds_all(cap) implies self.vqs@[0].free == 0 && self.holds_all(cap) by {
                        old(self).lemma_fit_where_all_hold(required, cap);
                        assert forall|i: int| 0 <= i < self.vqs@[0].in_flight@.len() implies (
                        #[trigger] self.vqs@[0].in_flight@[i]).send@.len() >= cap by {
                            if i < old(self).vqs@[0].in_flight@.len() {
                                assert(self.vqs@[0].in_flight@[i] == old(self).vqs@[0].in_flight@[i]);
                            }
                        }
                    }
                }
                true
            },
            None => false,
        }
    }

    /// Sends a frame, for which a token must be there to be had: see
    /// [`TxQueues::try_send`].
    pub fn send(&mut self, frame: &[u8], checksums: &ChecksumCapabilities)
        requires
            old(self).wf(),
            old(self).vqs@.len() > 0,
            frame@.len() + HEADER_SIZE <= usize::MAX,
            old(self).can_provide((frame@.len() + HEADER_SIZE) as usize),
        ensures
            final(self).wf(),
            final(self).asked(old(self), (frame@.len() + HEADER_SIZE) as usize),
            final(self).sent(old(self), frame@, tx_header(*checksums, frame@)),
            forall|cap: usize|
                frame@.len() + HEADER_SIZE <= cap && old(self).vqs@[0].free == 0
                    && #[trigger] old(self).holds_all(cap) ==> final(self).vqs@[0].free == 0
                    && final(self).holds_all(cap),
    {
        let done = self.try_send(frame, checksums);
    }

    /// The device has sent the oldest token in flight on the first ring: the
    /// token is used. Answers `false`, with nothing changed, if no token is
    /// in flight.
    pub fn device_complete(&mut self) -> (done: bool)
        requires
            old(self).wf(),
            old(self).vqs@.len() > 0,
        ensures
            final(self).wf(),
            final(self).channel@ == old(self).channel@,
            final(self).ready_queue == old(self).ready_queue,
            final(self).is_multi == old(self).is_multi,
            final(self).vqs@.len() == old(self).vqs@.len(),
            forall|p: int|
                1 <= p < final(self).vqs@.len() ==> (#[trigger] final(self).vqs@[p])
                    == old(self).vqs@[p],
            final(self).vqs@[0].same_but_tokens(&old(self).vqs@[0]),
            final(self).vqs@[0].free == old(self).vqs@[0].free,
            done == (old(self).vqs@[0].in_flight@.len() > 0),
            done ==> {
                let ring = final(self).vqs@[0];
                let before = old(self).vqs@[0];
                &&& ring.in_flight@ == before.in_flight@.drop_first()
                &&& ring.used@.len() == before.used@.len() + 1
                &&& ring.used@.drop_last() == before.used@
                &&& completes(before.in_flight@[0], ring.used@.last(), Seq::empty())
            },
            !done ==> final(self).vqs@[0].in_flight == old(self).vqs@[0].in_flight,
            !done ==> final(self).vqs@[0].used == old(self).vqs@[0].used,
            forall|cap: usize| #[trigger] old(self).holds_all(cap) ==> final(self).holds_all(cap),
    {
        assert(self.vqs@[0].wf());
        let nothing: [u8; 0] = [];
        let done = self.vqs[0].device_complete(nothing.as_slice());
        proof {
            assert(nothing@ =~= Seq::<u8>::empty());
            let ring = self.vqs@[0];
            let before = old(self).vqs@[0];
            assert forall|p: int| 0 <= p < self.vqs@.len() implies (#[trigger] self.vqs@[p]).wf() by {
                if p > 0 {
                    assert(self.vqs@[p] == old(self).vqs@[p]);
                }
            }
            assert forall|p: int| 1 <= p < self.vqs@.len() implies (#[trigger] self.vqs@[p]).in_ring()
                == 0 by {
                assert(self.vqs@[p] == old(self).vqs@[p]);
            }
            assert forall|i: int| 0 <= i < ring.in_flight@.len() implies starts_with_header(
                #[trigger] ring.in_flight@[i],
            ) by {
                if done {
                    assert(ring.in_flight@[i] == before.in_flight@[i + 1]);
                }
            }
            assert forall|cap: usize| #[trigger] old(self).holds_all(cap) implies self.holds_all(
                cap,
            ) by {
                if done {
                    assert forall|i: int| 0 <= i < ring.in_flight@.len() implies (
                    #[trigger] ring.in_flight@[i]).send@.len() >= cap by {
                        assert(ring.in_flight@[i] == before.in_flight@[i + 1]);
                    }
                    assert forall|i: int| 0 <= i < ring.used@.len() implies (
                    #[trigger] ring.used@[i]).send@.len() >= cap by {
                        if i < before.used@.len() {
                            assert(ring.used@[i] == ring.used@.drop_last()[i]);
                        } else {
                            assert(ring.used@[i] == ring.used@.last());
                            assert(before.in_flight@[0].send@.len() >= cap);
                        }
                    }
                }
            }
        }
        done
    }

    /// Once the first ring was added to a set without tokens, every token
    /// can take a buffer of the size that the ring was filled with, and no
    /// descriptor is free.
    pub proof fn lemma_added_holds_all(
        &self,
        before: &TxQueues,
        index: u16,
        size: u16,
        packed: bool,
        notifs: bool,
        tx_size: usize,
    )
        requires
            before.wf(),
            before.vqs@.len() == 0,
            self.added(before, index, size, packed, notifs, tx_size),
        ensures
            self.vqs@[0].free == 0,
            self.holds_all(tx_size),
    {
        assert(self.vqs@[0] == self.vqs@.last());
        assert forall|i: int| 0 <= i < self.ready_queue@.len() implies (
        #[trigger] self.ready_queue@[i]).send_len >= tx_size by {
            assert(is_tx_token(self.ready_queue@[i], tx_size));
        }
    }

    /// Provides a token that the driver has in its hands to the first ring,
    /// where it is in flight behind the others. What the token gives the
    /// device to read must start with a header.
    pub fn provide(&mut self, tkn: BufferToken)
        requires
            old(self).accounts_for(1),
            old(self).vqs@.len() > 0,
            tkn.wf(),
            starts_with_header(tkn),
        ensures
            final(self).wf(),
            final(self).channel@ == old(self).channel@,
            final(self).ready_queue == old(self).ready_queue,
            final(self).is_multi == old(self).is_multi,
            final(self).vqs@.len() == old(self).vqs@.len(),
            final(self).vqs@[0].in_flight@ == old(self).vqs@[0].in_flight@.push(tkn),
            final(self).vqs@[0].same_but_in_flight(&old(self).vqs@[0]),
            forall|p: int|
                1 <= p < final(self).vqs@.len() ==> (#[trigger] final(self).vqs@[p])
                    == old(self).vqs@[p],
    {
        assert(self.vqs@[0].wf());
        self.vqs[0].provide(tkn);
        proof {
            assert forall|p: int| 0 <= p < self.vqs@.len() implies (#[trigger] self.vqs@[p]).wf() by {
                if p > 0 {
                    assert(self.vqs@[p] == old(self).vqs@[p]);
                }
            }
            assert forall|i: int| 0 <= i < self.vqs@[0].in_flight@.len() implies starts_with_header(
                #[trigger] self.vqs@[0].in_flight@[i],
            ) by {
                if i < old(self).vqs@[0].in_flight@.len() {
                    assert(self.vqs@[0].in_flight@[i] == old(self).vqs@[0].in_flight@[i]);
                }
            }
            assert forall|p: int| 1 <= p < self.vqs@.len() implies (#[trigger] self.vqs@[p]).in_ring()
                == 0 by {
                assert(self.vqs@[p] == old(self).vqs@[p]);
            }
        }
    }
}

} // verus!
