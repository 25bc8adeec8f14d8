//! The receive queue set: the rings on which the device delivers frames,
//! and the channel through which finished tokens come back to the driver.
//!
//! Every descriptor of a ring of the set is bound to a token; the token is in
//! the ring (in flight or used), in the channel, or for a moment in the hands
//! of the driver, which hands it back before it returns.

use vstd::prelude::*;
use vstd::slice::slice_subrange;
use crate::align::{lemma_merged_buffer_size, pad_to_cache_line};
use crate::channel::TokenChannel;
use crate::config::NetDevCfg;
use crate::error::VirtioNetError;
use crate::features::{FeatureSet, Features};
use crate::header::{from_octets, VirtioNetHdr, HEADER_SIZE};
use crate::token::{append_bytes, BufferToken};
use crate::virtq::{completes, set_ring_notifs, Virtq};

verus! {

/// The size of a receive buffer where the device may spread a frame over
/// several buffers: an Ethernet frame of 1514 octets and the header, rounded
/// up to the padding unit of the machine's caches.
pub const MERGED_RX_BUFFER_SIZE: usize = 1536;

/// The number of tokens of `tokens` that belong to the ring at place `queue`.
pub open spec fn count_of(tokens: Seq<BufferToken>, queue: int) -> nat
    decreases tokens.len(),
{
    if tokens.len() == 0 {
        0
    } else {
        count_of(tokens.drop_last(), queue) + if tokens.last().queue == queue {
            1nat
        } else {
            0nat
        }
    }
}

/// Whether every token of `tokens` is well formed and belongs to the ring at
/// place `queue`.
pub open spec fn all_of(tokens: Seq<BufferToken>, queue: int) -> bool {
    forall|i: int| 0 <= i < tokens.len() ==> (#[trigger] tokens[i]).queue == queue && tokens[i].wf()
}

/// The used tokens of the rings, those of the first ring first.
pub open spec fn used_of(vqs: Seq<Virtq>) -> Seq<BufferToken>
    decreases vqs.len(),
{
    if vqs.len() == 0 {
        Seq::empty()
    } else {
        used_of(vqs.drop_last()) + vqs.last().used@
    }
}

/// The size of the buffers of a receive ring: with merged receive buffers
/// negotiated, a fixed size; else the largest payload and the header.
pub open spec fn rx_buffer_size_spec(features: FeatureSet, mtu: u16) -> usize {
    if features.contains(Features::VIRTIO_NET_F_MRG_RXBUF) {
        MERGED_RX_BUFFER_SIZE
    } else {
        (mtu + HEADER_SIZE) as usize
    }
}

/// Whether `tkn` is a token as a receive ring at place `queue` is filled
/// with: no send area, a zeroed receive area of `size` bytes in full use.
pub open spec fn is_rx_token(tkn: BufferToken, size: usize, queue: int) -> bool {
    &&& tkn.send@.len() == 0
    &&& tkn.recv@ == Seq::new(size as nat, |i: int| 0u8)
    &&& tkn.is_reset()
    &&& tkn.queue == queue
}

/// The size of the buffers of a receive ring.
pub fn rx_buffer_size(features: FeatureSet, mtu: u16) -> (size: usize)
    ensures
        size == rx_buffer_size_spec(features, mtu),
        size >= HEADER_SIZE,
{
    if features.is_feature(Features::VIRTIO_NET_F_MRG_RXBUF) {
        let size: usize = pad_to_cache_line(1514 + HEADER_SIZE);
        proof {
            let unit = choose|unit: usize|
                crate::align::is_padding_unit(unit) && size == crate::align::aligned_up(
                    1526,
                    unit as int,
                );
            lemma_merged_buffer_size(unit);
        }
        size
    } else {
        let payload: usize = mtu as usize;
        payload + HEADER_SIZE
    }
}

/// The number of buffers that a finished token announces as the first
/// buffer of a frame: the number in the last two octets of the header that
/// it has received, and at least one. Whatever else the header holds has no
/// say. There is none if fewer bytes were received than a header has.
pub open spec fn announced(first: BufferToken) -> Option<nat> {
    match VirtioNetHdr::decoding(first.recv_data()) {
        Some(hdr) => Some(
            if hdr.num_buffers == 0 {
                1nat
            } else {
                hdr.num_buffers as nat
            },
        ),
        None => None,
    }
}

/// The number of finished tokens that receiving a frame uses up: none if
/// none is there; one if the first announces no frame; else as many as the
/// first announces, or all of them if these are fewer.
pub open spec fn consumed(pending: Seq<BufferToken>) -> nat {
    if pending.len() == 0 {
        0
    } else {
        match announced(pending[0]) {
            None => 1,
            Some(n) => if n <= pending.len() {
                n
            } else {
                pending.len()
            },
        }
    }
}

/// The received bytes of the tokens, one after the other.
pub open spec fn bodies(tokens: Seq<BufferToken>) -> Seq<u8>
    decreases tokens.len(),
{
    if tokens.len() == 0 {
        Seq::empty()
    } else {
        bodies(tokens.drop_last()) + tokens.last().recv_data()
    }
}

/// The frame that the finished tokens deliver: what the first buffer holds
/// behind the header, followed by what the further buffers hold, for as
/// many buffers as the first announces. There is none if the first
/// announces no frame or more buffers than are there.
pub open spec fn frame_of(pending: Seq<BufferToken>) -> Option<Seq<u8>> {
    if pending.len() == 0 {
        None
    } else {
        match announced(pending[0]) {
            None => None,
            Some(n) => if n <= pending.len() {
                Some(
                    pending[0].recv_data().skip(HEADER_SIZE as int) + bodies(
                        pending.subrange(1, n as int),
                    ),
                )
            } else {
                None
            },
        }
    }
}

/// The tokens of `tokens` that belong to the ring at place `queue`, each
/// made ready again, in their order.
pub open spec fn recycled(tokens: Seq<BufferToken>, queue: int) -> Seq<BufferToken>
    decreases tokens.len(),
{
    if tokens.len() == 0 {
        Seq::empty()
    } else {
        let rest = recycled(tokens.drop_last(), queue);
        if tokens.last().queue == queue {
            rest.push(tokens.last().reset_spec())
        } else {
            rest
        }
    }
}

/// A first buffer with fewer received bytes than a header has delivers no
/// frame: it alone is used up, and it is made ready again for its ring.
pub proof fn lemma_short_fragment_dropped(pending: Seq<BufferToken>)
    requires
        pending.len() > 0,
        pending[0].wf(),
        pending[0].recv_len < HEADER_SIZE,
    ensures
        frame_of(pending) is None,
        consumed(pending) == 1,
        recycled(pending.take(1), pending[0].queue as int) == Seq::<BufferToken>::empty().push(
            pending[0].reset_spec(),
        ),
{
    assert(pending.take(1).drop_last() =~= Seq::<BufferToken>::empty());
    assert(pending.take(1).last() == pending[0]);
    assert(recycled(Seq::<BufferToken>::empty(), pending[0].queue as int)
        =~= Seq::<BufferToken>::empty());
}

/// A first buffer that has received a header and more, whose last two header
/// octets announce `n` buffers, where so many finished tokens are there,
/// delivers a frame of exactly these, whatever the other octets of the
/// header hold: what the first holds behind the header, then what the
/// further ones hold, whole.
pub proof fn lemma_merged_frame(pending: Seq<BufferToken>, n: u16)
    requires
        pending.len() > 0,
        pending[0].wf(),
        pending[0].recv_len >= HEADER_SIZE,
        n == from_octets(pending[0].recv_data()[10], pending[0].recv_data()[11]),
        1 <= n <= pending.len(),
    ensures
        announced(pending[0]) == Some(n as nat),
        consumed(pending) == n,
        frame_of(pending) == Some(
            pending[0].recv_data().skip(HEADER_SIZE as int) + bodies(
                pending.subrange(1, n as int),
            ),
        ),
{
}

/// The number of bytes that the tokens have received, added up.
pub open spec fn received_len(tokens: Seq<BufferToken>) -> nat
    decreases tokens.len(),
{
    if tokens.len() == 0 {
        0
    } else {
        received_len(tokens.drop_last()) + tokens.last().recv_len as nat
    }
}

/// What several buffers hold together is as long as what they have
/// received, added up.
pub proof fn lemma_bodies_len(tokens: Seq<BufferToken>)
    requires
        forall|i: int| 0 <= i < tokens.len() ==> (#[trigger] tokens[i]).wf(),
    ensures
        bodies(tokens).len() == received_len(tokens),
    decreases tokens.len(),
{
    if tokens.len() > 0 {
        assert forall|i: int| 0 <= i < tokens.drop_last().len() implies (
        #[trigger] tokens.drop_last()[i]).wf() by {
            assert(tokens.drop_last()[i] == tokens[i]);
        }
        lemma_bodies_len(tokens.drop_last());
        assert(tokens.last() == tokens[tokens.len() - 1]);
    }
}

/// The frame that several buffers deliver is as long as what they have
/// received together, less the one header in the first of them.
pub proof fn lemma_merged_frame_len(pending: Seq<BufferToken>, n: u16)
    requires
        pending.len() > 0,
        forall|i: int| 0 <= i < pending.len() ==> (#[trigger] pending[i]).wf(),
        pending[0].recv_len >= HEADER_SIZE,
        n == from_octets(pending[0].recv_data()[10], pending[0].recv_data()[11]),
        1 <= n <= pending.len(),
    ensures
        frame_of(pending) is Some,
        frame_of(pending).unwrap().len() == pending[0].recv_len - HEADER_SIZE + received_len(
            pending.subrange(1, n as int),
        ),
{
    lemma_merged_frame(pending, n);
    let further = pending.subrange(1, n as int);
    assert forall|i: int| 0 <= i < further.len() implies (#[trigger] further[i]).wf() by {
        assert(further[i] == pending[i + 1]);
    }
    lemma_bodies_len(further);
}

/// Each token that receiving uses up is made ready again and provided to
/// its own ring.
pub proof fn lemma_recycled_holds(tokens: Seq<BufferToken>, i: int)
    requires
        0 <= i < tokens.len(),
    ensures
        recycled(tokens, tokens[i].queue as int).contains(tokens[i].reset_spec()),
    decreases tokens.len(),
{
    let queue = tokens[i].queue as int;
    let rest = recycled(tokens.drop_last(), queue);
    if i == tokens.len() - 1 {
        assert(tokens.last() == tokens[i]);
        assert(rest.push(tokens[i].reset_spec())[rest.len() as int] == tokens[i].reset_spec());
    } else {
        assert(tokens.drop_last()[i] == tokens[i]);
        lemma_recycled_holds(tokens.drop_last(), i);
        let j = choose|j: int| 0 <= j < rest.len() && rest[j] == tokens[i].reset_spec();
        if tokens.last().queue == queue {
            assert(rest.push(tokens.last().reset_spec())[j] == tokens[i].reset_spec());
        }
    }
}

/// Counting over a list with one more token.
pub proof fn lemma_count_push(tokens: Seq<BufferToken>, tkn: BufferToken, queue: int)
    ensures
        count_of(tokens.push(tkn), queue) == count_of(tokens, queue) + if tkn.queue == queue {
            1nat
        } else {
            0nat
        },
{
    assert(tokens.push(tkn).drop_last() =~= tokens);
}

/// Counting over two lists, one behind the other.
pub proof fn lemma_count_add(a: Seq<BufferToken>, b: Seq<BufferToken>, queue: int)
    ensures
        count_of(a + b, queue) == count_of(a, queue) + count_of(b, queue),
    decreases b.len(),
{
    if b.len() == 0 {
        assert(a + b =~= a);
    } else {
        assert((a + b).drop_last() =~= a + b.drop_last());
        lemma_count_add(a, b.drop_last(), queue);
    }
}

/// Counting over a list without its first token.
pub proof fn lemma_count_drop_first(tokens: Seq<BufferToken>, queue: int)
    requires
        tokens.len() > 0,
    ensures
        count_of(tokens, queue) == count_of(tokens.drop_first(), queue) + if tokens[0].queue
            == queue {
            1nat
        } else {
            0nat
        },
{
    let first = Seq::<BufferToken>::empty().push(tokens[0]);
    assert(tokens =~= first + tokens.drop_first());
    lemma_count_add(first, tokens.drop_first(), queue);
    lemma_count_push(Seq::<BufferToken>::empty(), tokens[0], queue);
}

/// Tokens that all belong to one ring count for that ring only.
pub proof fn lemma_count_all_of(tokens: Seq<BufferToken>, owner: int, queue: int)
    requires
        all_of(tokens, owner),
    ensures
        count_of(tokens, queue) == if owner == queue {
            tokens.len()
        } else {
            0
        },
    decreases tokens.len(),
{
    if tokens.len() > 0 {
        assert(all_of(tokens.drop_last(), owner)) by {
            assert forall|i: int| 0 <= i < tokens.drop_last().len() implies (
            #[trigger] tokens.drop_last()[i]).queue == owner && tokens.drop_last()[i].wf() by {
                assert(tokens.drop_last()[i] == tokens[i]);
            }
        }
        lemma_count_all_of(tokens.drop_last(), owner, queue);
        assert(tokens.last() == tokens[tokens.len() - 1]);
    }
}

/// Whether a ring at place `p` of a queue set is well formed and holds only
/// tokens of its own.
pub open spec fn ring_ok(vq: Virtq, p: int) -> bool {
    &&& vq.wf()
    &&& all_of(vq.in_flight@, p)
    &&& all_of(vq.used@, p)
}

/// The rings on which frames are received.
pub struct RxQueues {
    /// The rings, in the order in which they were added.
    pub vqs: Vec<Virtq>,
    /// The channel through which finished tokens come back.
    pub channel: TokenChannel,
    /// Whether more than one ring serves the device.
    pub is_multi: bool,
}

impl RxQueues {
    /// Whether the set is well formed while the driver has the tokens `out`
    /// in its hands: every descriptor of every ring is free or bound to a
    /// token that is in the ring, in the channel, or among `out`.
    pub open spec fn accounts_for(&self, out: Seq<BufferToken>) -> bool {
        &&& forall|p: int| 0 <= p < self.vqs@.len() ==> #[trigger] ring_ok(self.vqs@[p], p)
        &&& forall|i: int|
            0 <= i < self.channel@.len() ==> (#[trigger] self.channel@[i]).wf()
                && self.channel@[i].queue < self.vqs@.len()
        &&& forall|p: int|
            0 <= p < self.vqs@.len() ==> (#[trigger] self.vqs@[p]).held() == count_of(
                self.channel@,
                p,
            ) + count_of(out, p)
    }

    /// Whether the set is well formed, with no token in the driver's hands.
    pub open spec fn wf(&self) -> bool {
        self.accounts_for(Seq::empty())
    }

    /// Whether every descriptor of every ring is bound to a token.
    pub open spec fn populated(&self) -> bool {
        forall|p: int| 0 <= p < self.vqs@.len() ==> (#[trigger] self.vqs@[p]).free == 0
    }

    /// The used tokens that a poll collects: those of every ring where
    /// several rings serve the device, else those of the first ring.
    pub open spec fn polled(&self) -> Seq<BufferToken> {
        if self.is_multi {
            used_of(self.vqs@)
        } else {
            self.vqs@[0].used@
        }
    }

    /// The finished tokens in the order in which the driver gets them: those
    /// in the channel, then those that a poll collects.
    pub open spec fn pending(&self) -> Seq<BufferToken> {
        self.channel@ + self.polled()
    }

    /// Whether the rings of the two sets differ in nothing but their used
    /// tokens.
    pub open spec fn same_rings_but_used(&self, other: &RxQueues) -> bool {
        &&& self.is_multi == other.is_multi
        &&& self.vqs@.len() == other.vqs@.len()
        &&& forall|p: int|
            0 <= p < self.vqs@.len() ==> {
                &&& (#[trigger] self.vqs@[p]).index == other.vqs@[p].index
                &&& self.vqs@[p].size == other.vqs@[p].size
                &&& self.vqs@[p].packed == other.vqs@[p].packed
                &&& self.vqs@[p].notifs == other.vqs@[p].notifs
                &&& self.vqs@[p].free == other.vqs@[p].free
                &&& self.vqs@[p].in_flight == other.vqs@[p].in_flight
            }
    }

    /// Every descriptor of a ring is free or bound to a token that is in the
    /// ring or in the channel: where no descriptor is free, these are as
    /// many as the ring has descriptors.
    pub proof fn lemma_token_count(&self, p: int)
        requires
            self.wf(),
            0 <= p < self.vqs@.len(),
        ensures
            self.vqs@[p].in_ring() + count_of(self.channel@, p) + self.vqs@[p].free
                == self.vqs@[p].size,
    {
        assert(self.vqs@[p].held() == count_of(self.channel@, p) + count_of(
            Seq::<BufferToken>::empty(),
            p,
        ));
    }

    /// With one ring, the tokens in the channel are tokens of that ring:
    /// where no descriptor is free, the tokens in the ring and in the
    /// channel are as many as the ring has descriptors.
    pub proof fn lemma_token_count_one_ring(&self)
        requires
            self.wf(),
            self.vqs@.len() == 1,
        ensures
            self.vqs@[0].in_ring() + self.channel@.len() + self.vqs@[0].free == self.vqs@[0].size,
    {
        self.lemma_token_count(0);
        assert(all_of(self.channel@, 0));
        lemma_count_all_of(self.channel@, 0, 0);
    }

    /// A receive queue set of the given rings, with an empty channel.
    pub fn new(vqs: Vec<Virtq>, is_multi: bool) -> (rx: RxQueues)
        ensures
            rx.vqs == vqs,
            rx.is_multi == is_multi,
            rx.channel@ == Seq::<BufferToken>::empty(),
            vqs@.len() == 0 ==> rx.wf(),
    {
        RxQueues { vqs, channel: TokenChannel::new(), is_multi }
    }

    /// What is to be done with a token after it was received: nothing, as
    /// the driver neither merges buffers nor computes checksums here.
    pub fn post_processing(buffer_tkn: BufferToken) -> (r: Result<BufferToken, VirtioNetError>)
        ensures
            r == Ok::<BufferToken, VirtioNetError>(buffer_tkn),
    {
        Ok(buffer_tkn)
    }

    /// Collects the used tokens of the ring at place `k` into the channel.
    fn poll_ring(&mut self, k: usize, Ghost(out): Ghost<Seq<BufferToken>>)
        requires
            old(self).accounts_for(out),
            k < old(self).vqs@.len(),
        ensures
            final(self).accounts_for(out),
            final(self).same_rings_but_used(old(self)),
            final(self).channel@ == old(self).channel@ + old(self).vqs@[k as int].used@,
            final(self).vqs@[k as int].used@.len() == 0,
            forall|p: int|
                0 <= p < final(self).vqs@.len() && p != k ==> (#[trigger] final(self).vqs@[p])
                    == old(self).vqs@[p],
    {
        let ghost moved = self.vqs@[k as int].used@;
        assert(ring_ok(self.vqs@[k as int], k as int));
        self.vqs[k].poll(&mut self.channel);
        proof {
            assert forall|p: int| 0 <= p < self.vqs@.len() implies #[trigger] ring_ok(self.vqs@[p], p) by {
                assert(ring_ok(old(self).vqs@[p], p));
            }
            assert forall|i: int| 0 <= i < self.channel@.len() implies (
            #[trigger] self.channel@[i]).wf() && self.channel@[i].queue < self.vqs@.len() by {
                if i < old(self).channel@.len() {
                    assert(self.channel@[i] == old(self).channel@[i]);
                } else {
                    assert(self.channel@[i] == moved[i - old(self).channel@.len()]);
                }
            }
            assert forall|p: int| 0 <= p < self.vqs@.len() implies (
            #[trigger] self.vqs@[p]).held() == count_of(self.channel@, p) + count_of(out, p) by {
                lemma_count_add(old(self).channel@, moved, p);
                lemma_count_all_of(moved, k as int, p);
                assert(old(self).vqs@[p].held() == count_of(old(self).channel@, p) + count_of(
                    out,
                    p,
                ));
            }
        }
    }

    /// Collects the used tokens into the channel: those of every ring where
    /// several rings serve the device, else those of the first ring.
    pub fn poll(&mut self)
        requires
            old(self).wf(),
            old(self).is_multi || old(self).vqs@.len() > 0,
        ensures
            final(self).wf(),
            final(self).same_rings_but_used(old(self)),
            final(self).channel@ == old(self).pending(),
            final(self).polled().len() == 0,
    {
        self.poll_while(Ghost(Seq::empty()))
    }

    /// Collects the used tokens into the channel while the driver has the
    /// tokens `out` in its hands.
    fn poll_while(&mut self, Ghost(out): Ghost<Seq<BufferToken>>)
        requires
            old(self).accounts_for(out),
            old(self).is_multi || old(self).vqs@.len() > 0,
        ensures
            final(self).accounts_for(out),
            final(self).same_rings_but_used(old(self)),
            final(self).channel@ == old(self).pending(),
            final(self).polled().len() == 0,
    {
        if self.is_multi {
            let n: usize = self.vqs.len();
            let mut k: usize = 0;
            while k < n
                invariant
                    k <= n,
                    n == self.vqs@.len(),
                    self.is_multi,
                    self.accounts_for(out),
                    self.same_rings_but_used(old(self)),
                    self.channel@ == old(self).channel@ + used_of(old(self).vqs@.take(k as int)),
                    used_of(self.vqs@.take(k as int)).len() == 0,
                    forall|p: int| k <= p < n ==> (#[trigger] self.vqs@[p]) == old(self).vqs@[p],
                decreases n - k,
            {
                let ghost before = *self;
                self.poll_ring(k, Ghost(out));
                proof {
                    assert(old(self).vqs@.take(k + 1).drop_last() =~= old(self).vqs@.take(
                        k as int,
                    ));
                    assert(old(self).vqs@.take(k + 1).last() == old(self).vqs@[k as int]);
                    assert(self.vqs@.take(k + 1).drop_last() =~= self.vqs@.take(k as int));
                    assert(self.vqs@.take(k as int) =~= before.vqs@.take(k as int));
                    assert(self.channel@ =~= old(self).channel@ + used_of(
                        old(self).vqs@.take(k + 1),
                    ));
                    assert forall|p: int| 0 <= p < self.vqs@.len() implies {
                        &&& (#[trigger] self.vqs@[p]).index == old(self).vqs@[p].index
                        &&& self.vqs@[p].size == old(self).vqs@[p].size
                        &&& self.vqs@[p].packed == old(self).vqs@[p].packed
                        &&& self.vqs@[p].notifs == old(self).vqs@[p].notifs
                        &&& self.vqs@[p].free == old(self).vqs@[p].free
                        &&& self.vqs@[p].in_flight == old(self).vqs@[p].in_flight
                    } by {
                        assert(before.vqs@[p].index == old(self).vqs@[p].index);
                    }
                }
                k = k + 1;
            }
            proof {
                assert(self.vqs@.take(n as int) =~= self.vqs@);
                assert(old(self).vqs@.take(n as int) =~= old(self).vqs@);
            }
        } else {
            self.poll_ring(0, Ghost(out));
        }
    }

    /// The next finished token, if there is one: first those that wait in
    /// the channel; if none waits there, the rings are polled.
    pub fn get_next(&mut self) -> (r: Option<BufferToken>)
        requires
            old(self).wf(),
            old(self).is_multi || old(self).vqs@.len() > 0,
        ensures
            final(self).same_rings_but_used(old(self)),
            match r {
                Some(tkn) => {
                    &&& old(self).pending().len() > 0
                    &&& tkn == old(self).pending()[0]
                    &&& tkn.wf()
                    &&& tkn.queue < old(self).vqs@.len()
                    &&& final(self).pending() == old(self).pending().drop_first()
                    &&& final(self).accounts_for(Seq::empty().push(tkn))
                },
                None => {
                    &&& old(self).pending().len() == 0
                    &&& final(self).pending().len() == 0
                    &&& final(self).wf()
                },
            },
    {
        let ghost none = Seq::<BufferToken>::empty();
        match self.channel.try_recv() {
            Some(tkn) => {
                proof {
                    self.lemma_taken(old(self), tkn);
                    assert(self.polled() == old(self).polled());
                    assert(self.pending() =~= old(self).pending().drop_first());
                }
                Some(tkn)
            },
            None => {
                assert(self.accounts_for(none));
                self.poll();
                let ghost polled = *self;
                match self.channel.try_recv() {
                    Some(tkn) => {
                        proof {
                            self.lemma_taken(&polled, tkn);
                            assert(old(self).pending() =~= polled.channel@);
                            assert(self.polled() =~= polled.polled());
                            assert(self.pending() =~= old(self).pending().drop_first());
                        }
                        Some(tkn)
                    },
                    None => {
                        proof {
                            assert(old(self).pending() =~= polled.channel@);
                        }
                        None
                    },
                }
            },
        }
    }

    /// Taking the first token out of the channel leaves a set that accounts
    /// for that token in the driver's hands.
    proof fn lemma_taken(&self, before: &RxQueues, tkn: BufferToken)
        requires
            before.wf(),
            before.channel@.len() > 0,
            tkn == before.channel@[0],
            self.channel@ == before.channel@.drop_first(),
            self.vqs == before.vqs,
            self.is_multi == before.is_multi,
        ensures
            self.accounts_for(Seq::empty().push(tkn)),
            tkn.wf(),
            tkn.queue < before.vqs@.len(),
    {
        let out = Seq::<BufferToken>::empty().push(tkn);
        assert(before.channel@[0].wf());
        assert forall|p: int| 0 <= p < self.vqs@.len() implies #[trigger] ring_ok(self.vqs@[p], p) by {
            assert(ring_ok(before.vqs@[p], p));
        }
        assert forall|i: int| 0 <= i < self.channel@.len() implies (#[trigger] self.channel@[i]).wf()
            && self.channel@[i].queue < self.vqs@.len() by {
            assert(self.channel@[i] == before.channel@[i + 1]);
        }
        assert forall|p: int| 0 <= p < self.vqs@.len() implies (#[trigger] self.vqs@[p]).held()
            == count_of(self.channel@, p) + count_of(out, p) by {
            lemma_count_drop_first(before.channel@, p);
            lemma_count_push(Seq::<BufferToken>::empty(), tkn, p);
            assert(before.vqs@[p].held() == count_of(before.channel@, p) + count_of(
                Seq::<BufferToken>::empty(),
                p,
            ));
        }
    }

    /// Makes a finished token ready again and provides it to its ring, where
    /// it is in flight behind the others. Its memory is not cleared.
    pub fn recycle(&mut self, tkn: BufferToken)
        requires
            old(self).accounts_for(Seq::empty().push(tkn)),
            tkn.wf(),
            tkn.queue < old(self).vqs@.len(),
        ensures
            final(self).wf(),
            final(self).channel@ == old(self).channel@,
            final(self).is_multi == old(self).is_multi,
            final(self).vqs@.len() == old(self).vqs@.len(),
            final(self).vqs@[tkn.queue as int].in_flight@ == old(self).vqs@[tkn.queue as int].in_flight@.push(
                tkn.reset_spec(),
            ),
            final(self).vqs@[tkn.queue as int].same_but_in_flight(&old(self).vqs@[tkn.queue as int]),
            forall|p: int|
                0 <= p < final(self).vqs@.len() && p != tkn.queue ==> (
                #[trigger] final(self).vqs@[p]) == old(self).vqs@[p],
            final(self).pending() == old(self).pending(),
    {
        let q: usize = tkn.queue;
        let ghost out = Seq::<BufferToken>::empty().push(tkn);
        let fresh = tkn.reset();
        proof {
            assert(ring_ok(self.vqs@[q as int], q as int));
            lemma_count_push(Seq::<BufferToken>::empty(), tkn, q as int);
            assert(self.vqs@[q as int].held() == count_of(self.channel@, q as int) + count_of(
                out,
                q as int,
            ));
        }
        self.vqs[q].provide(fresh);
        proof {
            assert forall|p: int| 0 <= p < self.vqs@.len() implies #[trigger] ring_ok(self.vqs@[p], p) by {
                assert(ring_ok(old(self).vqs@[p], p));
                if p == q {
                    assert forall|i: int| 0 <= i < self.vqs@[p].in_flight@.len() implies (
                    #[trigger] self.vqs@[p].in_flight@[i]).queue == p
                        && self.vqs@[p].in_flight@[i].wf() by {
                        if i < old(self).vqs@[p].in_flight@.len() {
                            assert(self.vqs@[p].in_flight@[i] == old(self).vqs@[p].in_flight@[i]);
                        }
                    }
                }
            }
            assert forall|p: int| 0 <= p < self.vqs@.len() implies (
            #[trigger] self.vqs@[p]).held() == count_of(self.channel@, p) + count_of(
                Seq::<BufferToken>::empty(),
                p,
            ) by {
                lemma_count_push(Seq::<BufferToken>::empty(), tkn, p);
                assert(old(self).vqs@[p].held() == count_of(old(self).channel@, p) + count_of(
                    out,
                    p,
                ));
            }
            if self.is_multi {
                lemma_used_of_same(self.vqs@, old(self).vqs@);
            }
        }
    }

    /// The device has finished the oldest token in flight on the ring at
    /// place `place` and has written `written` to its receive area: the
    /// token is used. Answers `false`, with nothing changed, if no token is
    /// in flight there or if `written` is longer than the token's receive
    /// area.
    pub fn device_complete(&mut self, place: usize, written: &[u8]) -> (done: bool)
        requires
            old(self).wf(),
            place < old(self).vqs@.len(),
        ensures
            final(self).wf(),
            final(self).channel@ == old(self).channel@,
            final(self).same_rings_but_tokens(old(self)),
            old(self).populated() ==> final(self).populated(),
            forall|p: int|
                0 <= p < final(self).vqs@.len() && p != place ==> (#[trigger] final(self).vqs@[p])
                    == old(self).vqs@[p],
            done == (old(self).vqs@[place as int].in_flight@.len() > 0 && written@.len() <= old(
                self,
            ).vqs@[place as int].in_flight@[0].recv_len),
            done ==> {
                let ring = final(self).vqs@[place as int];
                let before = old(self).vqs@[place as int];
                &&& ring.in_flight@ == before.in_flight@.drop_first()
                &&& ring.used@.len() == before.used@.len() + 1
                &&& ring.used@.drop_last() == before.used@
                &&& completes(before.in_flight@[0], ring.used@.last(), written@)
            },
            !done ==> final(self).vqs@[place as int].in_flight == old(self).vqs@[place as int].in_flight
                && final(self).vqs@[place as int].used == old(self).vqs@[place as int].used,
            done && final(self).vqs@.len() == 1 ==> final(self).pending() == old(self).pending().push(
                final(self).vqs@[0].used@.last(),
            ),
    {
        assert(ring_ok(self.vqs@[place as int], place as int));
        let done = self.vqs[place].device_complete(written);
        proof {
            let ring = self.vqs@[place as int];
            let before = old(self).vqs@[place as int];
            assert forall|p: int| 0 <= p < self.vqs@.len() implies #[trigger] ring_ok(
                self.vqs@[p],
                p,
            ) by {
                assert(ring_ok(old(self).vqs@[p], p));
                if p == place && done {
                    assert forall|i: int| 0 <= i < ring.in_flight@.len() implies (
                    #[trigger] ring.in_flight@[i]).queue == p && ring.in_flight@[i].wf() by {
                        assert(ring.in_flight@[i] == before.in_flight@[i + 1]);
                    }
                    assert forall|i: int| 0 <= i < ring.used@.len() implies (
                    #[trigger] ring.used@[i]).queue == p && ring.used@[i].wf() by {
                        if i < before.used@.len() {
                            assert(ring.used@[i] == ring.used@.drop_last()[i]);
                        } else {
                            assert(ring.used@[i] == ring.used@.last());
                            assert(before.in_flight@[0].queue == p);
                        }
                    }
                }
            }
            assert forall|p: int| 0 <= p < self.vqs@.len() implies (#[trigger] self.vqs@[p]).held()
                == count_of(self.channel@, p) + count_of(Seq::<BufferToken>::empty(), p) by {
                assert(old(self).vqs@[p].held() == count_of(old(self).channel@, p) + count_of(
                    Seq::<BufferToken>::empty(),
                    p,
                ));
            }
            if done && self.vqs@.len() == 1 {
                assert(ring.used@ =~= before.used@.push(ring.used@.last()));
                if self.is_multi {
                    assert(self.vqs@.drop_last() =~= Seq::<Virtq>::empty());
                    assert(old(self).vqs@.drop_last() =~= Seq::<Virtq>::empty());
                    assert(used_of(self.vqs@.drop_last()) =~= Seq::<BufferToken>::empty());
                    assert(used_of(old(self).vqs@.drop_last()) =~= Seq::<BufferToken>::empty());
                    assert(self.vqs@.last() == self.vqs@[0]);
                    assert(old(self).vqs@.last() == old(self).vqs@[0]);
                }
                assert(self.pending() =~= old(self).pending().push(ring.used@.last()));
            }
        }
        done
    }

    /// Whether the rings of the two sets differ in nothing but their tokens.
    pub open spec fn same_rings_but_tokens(&self, other: &RxQueues) -> bool {
        &&& self.is_multi == other.is_multi
        &&& self.vqs@.len() == other.vqs@.len()
        &&& forall|p: int|
            0 <= p < self.vqs@.len() ==> {
                &&& (#[trigger] self.vqs@[p]).index == other.vqs@[p].index
                &&& self.vqs@[p].size == other.vqs@[p].size
                &&& self.vqs@[p].packed == other.vqs@[p].packed
                &&& self.vqs@[p].notifs == other.vqs@[p].notifs
                &&& self.vqs@[p].free == other.vqs@[p].free
            }
    }

    /// Receives a frame, if the finished tokens deliver one, and provides
    /// every token that was looked at to its ring again.
    ///
    /// The first finished token is the first buffer of the frame. It is
    /// dropped, and nothing is received, if fewer bytes were received than
    /// a header has; so it is with a token that has no receive area. Else
    /// the last two octets of the header say how many buffers the frame
    /// has, whatever flags the header holds; the bytes behind the header
    /// and the bytes of the further buffers make the frame. If a further
    /// buffer is missing, nothing is received.
    pub fn receive(&mut self, mtu: u16) -> (r: Option<Vec<u8>>)
        requires
            old(self).wf(),
            old(self).is_multi || old(self).vqs@.len() > 0,
        ensures
            final(self).wf(),
            final(self).same_rings_but_tokens(old(self)),
            old(self).populated() ==> final(self).populated(),
            final(self).pending() == old(self).pending().skip(
                consumed(old(self).pending()) as int,
            ),
            match r {
                Some(frame) => frame_of(old(self).pending()) == Some(frame@),
                None => frame_of(old(self).pending()) is None,
            },
            forall|p: int|
                0 <= p < final(self).vqs@.len() ==> (#[trigger] final(self).vqs@[p]).in_flight@
                    == old(self).vqs@[p].in_flight@ + recycled(
                    old(self).pending().take(consumed(old(self).pending()) as int),
                    p,
                ),
    {
        let ghost pending = self.pending();
        let first = match self.get_next() {
            Some(tkn) => tkn,
            None => {
                proof {
                    assert(pending.skip(0) =~= pending);
                    assert forall|p: int| 0 <= p < self.vqs@.len() implies (
                    #[trigger] self.vqs@[p]).in_flight@ == old(self).vqs@[p].in_flight@ + recycled(
                        pending.take(0),
                        p,
                    ) by {
                        assert(self.vqs@[p].in_flight@ + Seq::<BufferToken>::empty()
                            =~= self.vqs@[p].in_flight@);
                    }
                }
                return None;
            },
        };
        let first = match Self::post_processing(first) {
            Ok(tkn) => tkn,
            Err(_) => {
                proof {
                    assert(false);
                }
                return None;
            },
        };
        proof {
            assert(pending.take(1) =~= Seq::<BufferToken>::empty().push(pending[0]));
            assert(pending.take(1).drop_last() =~= Seq::<BufferToken>::empty());
            assert(pending.skip(1) =~= pending.drop_first());
        }
        let ghost after_first = *self;
        let mut vec_data: Vec<u8> = Vec::with_capacity(mtu as usize);
        let received = first.as_slices().1;
        let num_buffers: u16 = match VirtioNetHdr::decode(received) {
            Some(hdr) => hdr.num_buffers,
            None => {
                self.recycle(first);
                proof {
                    self.lemma_recycled_first(old(self), &after_first, pending);
                }
                return None;
            },
        };
        append_bytes(&mut vec_data, slice_subrange(received, HEADER_SIZE, received.len()));
        self.recycle(first);
        proof {
            self.lemma_recycled_first(old(self), &after_first, pending);
            assert(pending.subrange(1, 1) =~= Seq::<BufferToken>::empty());
            assert(vec_data@ =~= pending[0].recv_data().skip(HEADER_SIZE as int) + bodies(
                pending.subrange(1, 1),
            ));
        }
        let mut i: u16 = 1;
        while i < num_buffers
            invariant
                1 <= i,
                i <= num_buffers || num_buffers == 0,
                num_buffers == 0 ==> i == 1,
                i <= pending.len(),
                pending == old(self).pending(),
                old(self).is_multi || old(self).vqs@.len() > 0,
                announced(pending[0]) == Some(
                    if num_buffers == 0 {
                        1nat
                    } else {
                        num_buffers as nat
                    },
                ),
                self.wf(),
                self.same_rings_but_tokens(old(self)),
                self.pending() == pending.skip(i as int),
                vec_data@ == pending[0].recv_data().skip(HEADER_SIZE as int) + bodies(
                    pending.subrange(1, i as int),
                ),
                forall|p: int|
                    0 <= p < self.vqs@.len() ==> (#[trigger] self.vqs@[p]).in_flight@ == old(
                        self,
                    ).vqs@[p].in_flight@ + recycled(pending.take(i as int), p),
            decreases num_buffers - i,
        {
            let ghost before = *self;
            let tkn = match self.get_next() {
                Some(tkn) => tkn,
                None => {
                    proof {
                        assert(pending.take(i as int) =~= pending);
                    }
                    return None;
                },
            };
            let ghost taken = *self;
            proof {
                assert(tkn == pending[i as int]);
                assert(pending.skip(i as int).drop_first() =~= pending.skip(i + 1));
            }
            let received = tkn.as_slices().1;
            append_bytes(&mut vec_data, received);
            self.recycle(tkn);
            proof {
                assert(pending.subrange(1, i + 1).drop_last() =~= pending.subrange(1, i as int));
                assert(pending.subrange(1, i + 1).last() == pending[i as int]);
                assert(vec_data@ =~= pending[0].recv_data().skip(HEADER_SIZE as int) + bodies(
                    pending.subrange(1, i + 1),
                ));
                assert(pending.take(i + 1).drop_last() =~= pending.take(i as int));
                assert(pending.take(i + 1).last() == pending[i as int]);
                assert forall|p: int| 0 <= p < self.vqs@.len() implies (
                #[trigger] self.vqs@[p]).in_flight@ == old(self).vqs@[p].in_flight@ + recycled(
                    pending.take(i + 1),
                    p,
                ) by {
                    assert(taken.vqs@[p].in_flight == before.vqs@[p].in_flight);
                    if p == tkn.queue {
                        assert(self.vqs@[p].in_flight@ =~= old(self).vqs@[p].in_flight@ + recycled(
                            pending.take(i + 1),
                            p,
                        ));
                    } else {
                        assert(self.vqs@[p] == taken.vqs@[p]);
                    }
                }
                assert forall|p: int| 0 <= p < self.vqs@.len() implies {
                    &&& (#[trigger] self.vqs@[p]).index == old(self).vqs@[p].index
                    &&& self.vqs@[p].size == old(self).vqs@[p].size
                    &&& self.vqs@[p].packed == old(self).vqs@[p].packed
                    &&& self.vqs@[p].notifs == old(self).vqs@[p].notifs
                    &&& self.vqs@[p].free == old(self).vqs@[p].free
                } by {
                    assert(taken.vqs@[p].index == before.vqs@[p].index);
                    assert(before.vqs@[p].index == old(self).vqs@[p].index);
                    if p != tkn.queue {
                        assert(self.vqs@[p] == taken.vqs@[p]);
                    }
                }
            }
            i = i + 1;
        }
        Some(vec_data)
    }

    /// What holds once the first finished token was taken and provided to
    /// its ring again.
    proof fn lemma_recycled_first(
        &self,
        before: &RxQueues,
        taken: &RxQueues,
        pending: Seq<BufferToken>,
    )
        requires
            pending.len() > 0,
            pending == before.pending(),
            taken.same_rings_but_used(before),
            pending[0].queue < taken.vqs@.len(),
            self.is_multi == taken.is_multi,
            self.vqs@.len() == taken.vqs@.len(),
            self.vqs@[pending[0].queue as int].in_flight@ == taken.vqs@[pending[0].queue as int].in_flight@.push(
                pending[0].reset_spec(),
            ),
            self.vqs@[pending[0].queue as int].same_but_in_flight(
                &taken.vqs@[pending[0].queue as int],
            ),
            forall|p: int|
                0 <= p < self.vqs@.len() && p != pending[0].queue ==> (#[trigger] self.vqs@[p])
                    == taken.vqs@[p],
        ensures
            self.same_rings_but_tokens(before),
            forall|p: int|
                0 <= p < self.vqs@.len() ==> (#[trigger] self.vqs@[p]).in_flight@
                    == before.vqs@[p].in_flight@ + recycled(pending.take(1), p),
    {
        assert(pending.take(1).drop_last() =~= Seq::<BufferToken>::empty());
        assert(pending.take(1).last() == pending[0]);
        assert forall|p: int| 0 <= p < self.vqs@.len() implies (#[trigger] self.vqs@[p]).in_flight@
            == before.vqs@[p].in_flight@ + recycled(pending.take(1), p) by {
            assert(recycled(Seq::<BufferToken>::empty(), p) =~= Seq::<BufferToken>::empty());
            assert(taken.vqs@[p].in_flight == before.vqs@[p].in_flight);
            if p == pending[0].queue {
                assert(self.vqs@[p].in_flight@ =~= before.vqs@[p].in_flight@ + recycled(
                    pending.take(1),
                    p,
                ));
            } else {
                assert(self.vqs@[p] == taken.vqs@[p]);
                assert(self.vqs@[p].in_flight@ =~= before.vqs@[p].in_flight@ + recycled(
                    pending.take(1),
                    p,
                ));
            }
        }
        assert forall|p: int| 0 <= p < self.vqs@.len() implies {
            &&& (#[trigger] self.vqs@[p]).index == before.vqs@[p].index
            &&& self.vqs@[p].size == before.vqs@[p].size
            &&& self.vqs@[p].packed == before.vqs@[p].packed
            &&& self.vqs@[p].notifs == before.vqs@[p].notifs
            &&& self.vqs@[p].free == before.vqs@[p].free
        } by {
            assert(taken.vqs@[p].index == before.vqs@[p].index);
            if p != pending[0].queue {
                assert(self.vqs@[p] == taken.vqs@[p]);
            }
        }
    }

    /// Whether the set is `before` with one more ring, which has the given
    /// number, size, layout and wish for notifications and is filled: all
    /// its descriptors are bound to tokens with a zeroed receive buffer of
    /// `rx_size` bytes, which are in flight.
    pub open spec fn added(
        &self,
        before: &RxQueues,
        index: u16,
        size: u16,
        packed: bool,
        notifs: bool,
        rx_size: usize,
    ) -> bool {
        &&& self.channel@ == before.channel@
        &&& self.is_multi == (before.is_multi || before.vqs@.len() >= 1)
        &&& self.vqs@.len() == before.vqs@.len() + 1
        &&& self.vqs@.drop_last() == before.vqs@
        &&& self.vqs@.last().index == index
        &&& self.vqs@.last().size == size
        &&& self.vqs@.last().packed == packed
        &&& self.vqs@.last().notifs == notifs
        &&& self.vqs@.last().free == 0
        &&& self.vqs@.last().used@.len() == 0
        &&& self.vqs@.last().in_flight@.len() == size
        &&& forall|i: int|
            0 <= i < size ==> is_rx_token(
                #[trigger] self.vqs@.last().in_flight@[i],
                rx_size,
                before.vqs@.len() as int,
            )
    }

    /// Adds a ring to the set and fills it: each of its descriptors is bound
    /// to a token with a receive buffer, and every token is provided to the
    /// device. With a second ring the set becomes a set of several rings.
    pub fn add(&mut self, vq: Virtq, dev_cfg: &NetDevCfg)
        requires
            old(self).wf(),
            vq.is_fresh(),
        ensures
            final(self).wf(),
            final(self).added(
                old(self),
                vq.index,
                vq.size,
                vq.packed,
                vq.notifs,
                rx_buffer_size_spec(dev_cfg.features, dev_cfg.raw.mtu),
            ),
            old(self).populated() ==> final(self).populated(),
    {
        let num_buff: u16 = vq.size();
        let rx_size: usize = rx_buffer_size(dev_cfg.features, dev_cfg.raw.get_mtu());
        let place: usize = self.vqs.len();
        let mut ring = vq;
        let mut i: u16 = 0;
        while i < num_buff
            invariant
                i <= num_buff,
                num_buff == vq.size,
                rx_size == rx_buffer_size_spec(dev_cfg.features, dev_cfg.raw.mtu),
                rx_size >= HEADER_SIZE,
                ring_ok(ring, place as int),
                ring.index == vq.index,
                ring.size == vq.size,
                ring.packed == vq.packed,
                ring.notifs == vq.notifs,
                ring.used == vq.used,
                ring.used@.len() == 0,
                ring.free == vq.size - i,
                ring.in_flight@.len() == i,
                forall|j: int|
                    0 <= j < i ==> is_rx_token(#[trigger] ring.in_flight@[j], rx_size, place as int),
            decreases num_buff - i,
        {
            let ghost before = ring.in_flight@;
            match ring.prep_buffer(None, Some(rx_size)) {
                Ok(mut tkn) => {
                    tkn.queue = place;
                    ring.provide(tkn);
                    proof {
                        assert forall|j: int| 0 <= j < ring.in_flight@.len() implies (
                        #[trigger] ring.in_flight@[j]).queue == place && ring.in_flight@[j].wf() by {
                            if j < before.len() {
                                assert(ring.in_flight@[j] == before[j]);
                            }
                        }
                        assert forall|j: int| 0 <= j < i + 1 implies is_rx_token(
                            #[trigger] ring.in_flight@[j],
                            rx_size,
                            place as int,
                        ) by {
                            if j < before.len() {
                                assert(ring.in_flight@[j] == before[j]);
                            }
                        }
                    }
                },
                Err(_) => {
                    proof {
                        assert(false);
                    }
                },
            }
            i = i + 1;
        }
        self.vqs.push(ring);
        if self.vqs.len() > 1 {
            self.is_multi = true;
        }
        proof {
            assert(self.vqs@.drop_last() =~= old(self).vqs@);
            assert forall|p: int| 0 <= p < self.vqs@.len() implies #[trigger] ring_ok(
                self.vqs@[p],
                p,
            ) by {
                if p < old(self).vqs@.len() {
                    assert(ring_ok(old(self).vqs@[p], p));
                }
            }
            assert forall|p: int| 0 <= p < self.vqs@.len() implies (#[trigger] self.vqs@[p]).held()
                == count_of(self.channel@, p) + count_of(Seq::<BufferToken>::empty(), p) by {
                if p < old(self).vqs@.len() {
                    assert(self.vqs@[p] == old(self).vqs@[p]);
                } else {
                    lemma_count_none(self.channel@, p);
                }
            }
            if old(self).populated() {
                assert forall|p: int| 0 <= p < self.vqs@.len() implies (
                #[trigger] self.vqs@[p]).free == 0 by {
                    if p < old(self).vqs@.len() {
                        assert(self.vqs@[p] == old(self).vqs@[p]);
                    }
                }
            }
        }
    }

    /// Asks for notifications of used buffers: on every ring where several
    /// rings serve the device, else on the first ring.
    pub fn enable_notifs(&mut self)
        requires
            old(self).wf(),
            old(self).is_multi || old(self).vqs@.len() > 0,
        ensures
            final(self).wf(),
            final(self).channel@ == old(self).channel@,
            final(self).is_multi == old(self).is_multi,
            final(self).vqs@.len() == old(self).vqs@.len(),
            forall|p: int|
                0 <= p < final(self).vqs@.len() ==> (#[trigger] final(self).vqs@[p]).same_but_notifs(
                    &old(self).vqs@[p],
                ) && final(self).vqs@[p].notifs == (if old(self).is_multi || p == 0 {
                    true
                } else {
                    old(self).vqs@[p].notifs
                }),
    {
        self.set_notifs(true)
    }

    /// Asks for no notifications of used buffers: on every ring where
    /// several rings serve the device, else on the first ring.
    pub fn disable_notifs(&mut self)
        requires
            old(self).wf(),
            old(self).is_multi || old(self).vqs@.len() > 0,
        ensures
            final(self).wf(),
            final(self).channel@ == old(self).channel@,
            final(self).is_multi == old(self).is_multi,
            final(self).vqs@.len() == old(self).vqs@.len(),
            forall|p: int|
                0 <= p < final(self).vqs@.len() ==> (#[trigger] final(self).vqs@[p]).same_but_notifs(
                    &old(self).vqs@[p],
                ) && final(self).vqs@[p].notifs == (if old(self).is_multi || p == 0 {
                    false
                } else {
                    old(self).vqs@[p].notifs
                }),
    {
        self.set_notifs(false)
    }

    fn set_notifs(&mut self, wanted: bool)
        requires
            old(self).wf(),
            old(self).is_multi || old(self).vqs@.len() > 0,
        ensures
            final(self).wf(),
            final(self).channel@ == old(self).channel@,
            final(self).is_multi == old(self).is_multi,
            final(self).vqs@.len() == old(self).vqs@.len(),
            forall|p: int|
                0 <= p < final(self).vqs@.len() ==> (#[trigger] final(self).vqs@[p]).same_but_notifs(
                    &old(self).vqs@[p],
                ) && final(self).vqs@[p].notifs == (if old(self).is_multi || p == 0 {
                    wanted
                } else {
                    old(self).vqs@[p].notifs
                }),
    {
        set_ring_notifs(&mut self.vqs, self.is_multi, wanted);
        proof {
            assert forall|p: int| 0 <= p < self.vqs@.len() implies #[trigger] ring_ok(
                self.vqs@[p],
                p,
            ) by {
                assert(ring_ok(old(self).vqs@[p], p));
                assert(self.vqs@[p].same_but_notifs(&old(self).vqs@[p]));
            }
            assert forall|p: int| 0 <= p < self.vqs@.len() implies (#[trigger] self.vqs@[p]).held()
                == count_of(self.channel@, p) + count_of(Seq::<BufferToken>::empty(), p) by {
                assert(self.vqs@[p].same_but_notifs(&old(self).vqs@[p]));
                assert(old(self).vqs@[p].held() == count_of(old(self).channel@, p) + count_of(
                    Seq::<BufferToken>::empty(),
                    p,
                ));
            }
        }
    }
}

/// Tokens of rings at places below `queue` do not count for `queue`.
pub proof fn lemma_count_none(tokens: Seq<BufferToken>, queue: int)
    requires
        forall|i: int| 0 <= i < tokens.len() ==> (#[trigger] tokens[i]).queue < queue,
    ensures
        count_of(tokens, queue) == 0,
    decreases tokens.len(),
{
    if tokens.len() > 0 {
        assert forall|i: int| 0 <= i < tokens.drop_last().len() implies (
        #[trigger] tokens.drop_last()[i]).queue < queue by {
            assert(tokens.drop_last()[i] == tokens[i]);
        }
        lemma_count_none(tokens.drop_last(), queue);
        assert(tokens.last() == tokens[tokens.len() - 1]);
    }
}

/// Rings with the same used tokens give the same list of used tokens.
pub proof fn lemma_used_of_same(a: Seq<Virtq>, b: Seq<Virtq>)
    requires
        a.len() == b.len(),
        forall|p: int| 0 <= p < a.len() ==> (#[trigger] a[p]).used == b[p].used,
    ensures
        used_of(a) == used_of(b),
    decreases a.len(),
{
    if a.len() > 0 {
        assert forall|p: int| 0 <= p < a.drop_last().len() implies (#[trigger] a.drop_last()[p]).used
            == b.drop_last()[p].used by {
            assert(a.drop_last()[p] == a[p]);
            assert(b.drop_last()[p] == b[p]);
        }
        lemma_used_of_same(a.drop_last(), b.drop_last());
        assert(a.last() == a[a.len() - 1]);
        assert(b.last() == b[b.len() - 1]);
    }
}

} // verus!
