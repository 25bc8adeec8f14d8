//! Buffer tokens: the driver's handle on the memory of one descriptor of a
//! virtqueue.
//!
//! A token owns a send area, which the device reads, and a receive area,
//! which the device writes; either may be empty. It is moved, never shared:
//! where a token is (with the driver, in a ring, in a channel) says what
//! state it is in.

use vstd::prelude::*;
use vstd::slice::slice_subrange;

verus! {

/// What a virtqueue or a token may refuse.
#[derive(Debug, Copy, Clone, PartialEq, Eq, Structural)]
pub enum VirtqError {
    /// The ring has no descriptor left for another token.
    NoDescrAvail,
    /// Neither a send area nor a receive area of positive size was asked for.
    BufferNotSpecified,
    /// A size was asked for that is larger than the area itself.
    BufferToLarge,
    /// More bytes were to be written than the area can take.
    WriteToLarge,
}

/// One buffer of a virtqueue with its backing memory.
pub struct BufferToken {
    /// The memory that the device reads.
    pub send: Vec<u8>,
    /// The memory that the device writes.
    pub recv: Vec<u8>,
    /// How much of the send area is in use.
    pub send_len: usize,
    /// How much of the receive area is in use: after a transfer, how much
    /// the device wrote.
    pub recv_len: usize,
    /// The place, in its queue set, of the ring that the token belongs to.
    pub queue: usize,
}

impl BufferToken {
    /// The lengths in use do not exceed the areas.
    pub open spec fn wf(&self) -> bool {
        &&& self.send_len <= self.send@.len()
        &&& self.recv_len <= self.recv@.len()
    }

    /// The bytes that the device is given to read.
    pub open spec fn send_data(&self) -> Seq<u8> {
        self.send@.take(self.send_len as int)
    }

    /// The bytes of the receive area that are in use.
    pub open spec fn recv_data(&self) -> Seq<u8> {
        self.recv@.take(self.recv_len as int)
    }

    /// The token with both areas in full use again, its memory as it is.
    pub open spec fn reset_spec(self) -> BufferToken {
        BufferToken {
            send: self.send,
            recv: self.recv,
            send_len: self.send@.len() as usize,
            recv_len: self.recv@.len() as usize,
            queue: self.queue,
        }
    }

    /// Whether both areas are in full use, as after a reset.
    pub open spec fn is_reset(&self) -> bool {
        &&& self.send_len == self.send@.len()
        &&& self.recv_len == self.recv@.len()
    }

    /// A token for ring `queue` with zeroed areas of the given sizes.
    pub fn new(send_size: usize, recv_size: usize, queue: usize) -> (tkn: BufferToken)
        ensures
            tkn.wf(),
            tkn.is_reset(),
            tkn.send@ == Seq::new(send_size as nat, |i: int| 0u8),
            tkn.recv@ == Seq::new(recv_size as nat, |i: int| 0u8),
            tkn.queue == queue,
    {
        let send: Vec<u8> = vec![0u8; send_size];
        let recv: Vec<u8> = vec![0u8; recv_size];
        assert(send@ =~= Seq::new(send_size as nat, |i: int| 0u8));
        assert(recv@ =~= Seq::new(recv_size as nat, |i: int| 0u8));
        BufferToken { send, recv, send_len: send_size, recv_len: recv_size, queue }
    }

    /// The number of bytes in use in the send and in the receive area.
    pub fn len(&self) -> (lens: (usize, usize))
        ensures
            lens == (self.send_len, self.recv_len),
    {
        (self.send_len, self.recv_len)
    }

    /// Restricts the areas to the given sizes; the memory stays as it is and
    /// a reset gives the full areas back. A size larger than its area is
    /// refused, and then nothing changes.
    pub fn restr_size(&mut self, new_send_len: Option<usize>, new_recv_len: Option<usize>) -> (r:
        Result<(usize, usize), VirtqError>)
        ensures
            final(self).send == old(self).send,
            final(self).recv == old(self).recv,
            final(self).queue == old(self).queue,
            ({
                let fits = (new_send_len matches Some(n) ==> n <= old(self).send@.len()) && (
                new_recv_len matches Some(n) ==> n <= old(self).recv@.len());
                if fits {
                    &&& final(self).send_len == (match new_send_len {
                        Some(n) => n,
                        None => old(self).send_len,
                    })
                    &&& final(self).recv_len == (match new_recv_len {
                        Some(n) => n,
                        None => old(self).recv_len,
                    })
                    &&& r == Ok::<(usize, usize), VirtqError>(
                        (final(self).send_len, final(self).recv_len),
                    )
                } else {
                    &&& final(self).send_len == old(self).send_len
                    &&& final(self).recv_len == old(self).recv_len
                    &&& r == Err::<(usize, usize), VirtqError>(VirtqError::BufferToLarge)
                }
            }),
    {
        let send_len: usize = match new_send_len {
            Some(n) => {
                if n > self.send.len() {
                    return Err(VirtqError::BufferToLarge);
                }
                n
            },
            None => self.send_len,
        };
        let recv_len: usize = match new_recv_len {
            Some(n) => {
                if n > self.recv.len() {
                    return Err(VirtqError::BufferToLarge);
                }
                n
            },
            None => self.recv_len,
        };
        self.send_len = send_len;
        self.recv_len = recv_len;
        Ok((send_len, recv_len))
    }

    /// Makes the token ready for another transfer: both areas are in full
    /// use again. The memory is not cleared.
    pub fn reset(self) -> (tkn: BufferToken)
        ensures
            tkn == self.reset_spec(),
            tkn.wf(),
            tkn.is_reset(),
    {
        let send_len: usize = self.send.len();
        let recv_len: usize = self.recv.len();
        BufferToken { send: self.send, recv: self.recv, send_len, recv_len, queue: self.queue }
    }

    /// Writes `send_seq` to the start of the send area and `recv_seq` to the
    /// start of the receive area. If one of them is longer than what is in
    /// use of its area, nothing is written.
    pub fn write_seq(&mut self, send_seq: Option<&[u8]>, recv_seq: Option<&[u8]>) -> (r: Result<
        (),
        VirtqError,
    >)
        requires
            old(self).wf(),
        ensures
            final(self).wf(),
            final(self).send_len == old(self).send_len,
            final(self).recv_len == old(self).recv_len,
            final(self).queue == old(self).queue,
            ({
                let fits = (send_seq matches Some(s) ==> s@.len() <= old(self).send_len) && (
                recv_seq matches Some(s) ==> s@.len() <= old(self).recv_len);
                if fits {
                    &&& r == Ok::<(), VirtqError>(())
                    &&& final(self).send@ == (match send_seq {
                        Some(s) => overwritten(old(self).send@, 0, s@),
                        None => old(self).send@,
                    })
                    &&& final(self).recv@ == (match recv_seq {
                        Some(s) => overwritten(old(self).recv@, 0, s@),
                        None => old(self).recv@,
                    })
                } else {
                    &&& r == Err::<(), VirtqError>(VirtqError::WriteToLarge)
                    &&& *final(self) == *old(self)
                }
            }),
    {
        match send_seq {
            Some(s) => {
                if s.len() > self.send_len {
                    return Err(VirtqError::WriteToLarge);
                }
            },
            None => {},
        }
        match recv_seq {
            Some(s) => {
                if s.len() > self.recv_len {
                    return Err(VirtqError::WriteToLarge);
                }
            },
            None => {},
        }
        match send_seq {
            Some(s) => {
                copy_into(&mut self.send, 0, s);
            },
            None => {},
        }
        match recv_seq {
            Some(s) => {
                copy_into(&mut self.recv, 0, s);
            },
            None => {},
        }
        Ok(())
    }

    /// The parts in use of the send and of the receive area.
    pub fn as_slices(&self) -> (slices: (&[u8], &[u8]))
        requires
            self.wf(),
        ensures
            slices.0@ == self.send_data(),
            slices.1@ == self.recv_data(),
    {
        let send = slice_subrange(self.send.as_slice(), 0, self.send_len);
        let recv = slice_subrange(self.recv.as_slice(), 0, self.recv_len);
        (send, recv)
    }
}

/// The bytes `area` with `data` written over them from position `offset` on.
pub open spec fn overwritten(area: Seq<u8>, offset: int, data: Seq<u8>) -> Seq<u8> {
    Seq::new(
        area.len(),
        |i: int|
            if offset <= i < offset + data.len() {
                data[i - offset]
            } else {
                area[i]
            },
    )
}

/// Writes `src` over the bytes of `dst` from position `offset` on.
pub fn copy_into(dst: &mut Vec<u8>, offset: usize, src: &[u8])
    requires
        offset + src@.len() <= old(dst)@.len(),
    ensures
        final(dst)@ == overwritten(old(dst)@, offset as int, src@),
{
    let n: usize = src.len();
    let total: usize = dst.len();
    let mut k: usize = 0;
    while k < n
        invariant
            k <= n,
            n == src@.len(),
            offset + n <= total,
            dst@.len() == total,
            total == old(dst)@.len(),
            forall|i: int|
                0 <= i < total ==> dst@[i] == if offset <= i < offset + k {
                    src@[i - offset]
                } else {
                    old(dst)@[i]
                },
        decreases n - k,
    {
        dst[offset + k] = src[k];
        k = k + 1;
    }
    assert(dst@ =~= overwritten(old(dst)@, offset as int, src@));
}

/// Appends `src` to `dst`.
pub fn append_bytes(dst: &mut Vec<u8>, src: &[u8])
    ensures
        final(dst)@ == old(dst)@ + src@,
{
    let n: usize = src.len();
    let mut k: usize = 0;
    while k < n
        invariant
            k <= n,
            n == src@.len(),
            dst@ == old(dst)@ + src@.take(k as int),
        decreases n - k,
    {
        dst.push(src[k]);
        k = k + 1;
        assert(dst@ =~= old(dst)@ + src@.take(k as int));
    }
    assert(src@.take(n as int) =~= src@);
}

} // verus!
