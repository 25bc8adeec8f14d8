//! The completion channel of a queue set: an unbounded first-in, first-out
//! channel that carries finished tokens from the rings back to the driver.

use vstd::prelude::*;
use crate::token::BufferToken;

verus! {

/// Makes `async_channel::Sender`, the sending end of a channel, known as a
/// type of which nothing is seen inside.
#[verifier::external_type_specification]
#[verifier::external_body]
#[verifier::reject_recursive_types(T)]
pub struct ExSender<T>(async_channel::Sender<T>);

/// Makes `async_channel::Receiver`, the receiving end of a channel, known as
/// a type of which nothing is seen inside.
#[verifier::external_type_specification]
#[verifier::external_body]
#[verifier::reject_recursive_types(T)]
pub struct ExReceiver<T>(async_channel::Receiver<T>);

/// The tokens that wait in the channel of which `receiver` is the receiving
/// end, the one that was sent first standing first. The functions of
/// `async_channel` that this module calls say what it is.
pub uninterp spec fn queued(receiver: async_channel::Receiver<BufferToken>) -> Seq<BufferToken>;

/// Both ends of one channel of tokens. The ends are never handed out and the
/// channel is never closed, so that the channel lives as long as this value.
pub struct TokenChannel {
    sender: async_channel::Sender<BufferToken>,
    receiver: async_channel::Receiver<BufferToken>,
}

impl View for TokenChannel {
    type V = Seq<BufferToken>;

    /// The tokens that wait in the channel, the one sent first standing first.
    closed spec fn view(&self) -> Seq<BufferToken> {
        queued(self.receiver)
    }
}

/// Calls `async_channel::unbounded`. The claim: the channel that it makes
/// holds no message yet. The two ends are kept together in one value.
#[verifier::external_body]
fn channel_unbounded() -> (channel: TokenChannel)
    ensures
        queued(channel.receiver) == Seq::<BufferToken>::empty(),
{
    let (sender, receiver) = async_channel::unbounded();
    TokenChannel { sender, receiver }
}

/// Calls `async_channel::Sender::try_send` on the sending end. The claim: the
/// token is appended behind the tokens that wait. The channel is unbounded,
/// so it is never full, and it is not closed, since both of its ends are
/// alive in `channel` and nothing in this crate closes one.
#[verifier::external_body]
fn channel_try_send(channel: &mut TokenChannel, tkn: BufferToken)
    ensures
        queued(final(channel).receiver) == queued(old(channel).receiver).push(tkn),
{
    let _ = channel.sender.try_send(tkn);
}

/// Calls `async_channel::Receiver::try_recv` on the receiving end. The claim:
/// if tokens wait, the first of them is taken out and returned; if none
/// waits, nothing is returned and nothing changes.
#[verifier::external_body]
fn channel_try_recv(channel: &mut TokenChannel) -> (r: Option<BufferToken>)
    ensures
        match r {
            Some(tkn) => queued(old(channel).receiver).len() > 0 && tkn == queued(
                old(channel).receiver,
            )[0] && queued(final(channel).receiver) == queued(old(channel).receiver).drop_first(),
            None => queued(old(channel).receiver).len() == 0 && queued(final(channel).receiver)
                == queued(old(channel).receiver),
        },
{
    channel.receiver.try_recv().ok()
}

/// Calls `async_channel::Receiver::is_empty` on the receiving end. The claim:
/// it tells whether no token waits.
#[verifier::external_body]
fn channel_is_empty(channel: &TokenChannel) -> (b: bool)
    ensures
        b == (queued(channel.receiver).len() == 0),
{
    channel.receiver.is_empty()
}

impl TokenChannel {
    /// A channel in which no token waits.
    pub fn new() -> (channel: TokenChannel)
        ensures
            channel@ == Seq::<BufferToken>::empty(),
    {
        channel_unbounded()
    }

    /// Puts a token behind those that wait.
    pub fn send(&mut self, tkn: BufferToken)
        ensures
            final(self)@ == old(self)@.push(tkn),
    {
        channel_try_send(self, tkn)
    }

    /// Takes the token that has waited longest, if any waits.
    pub fn try_recv(&mut self) -> (r: Option<BufferToken>)
        ensures
            match r {
                Some(tkn) => old(self)@.len() > 0 && tkn == old(self)@[0] && final(self)@ == old(
                    self,
                )@.drop_first(),
                None => old(self)@.len() == 0 && final(self)@ == old(self)@,
            },
    {
        channel_try_recv(self)
    }

    /// Whether no token waits.
    pub fn is_empty(&self) -> (b: bool)
        ensures
            b == (self@.len() == 0),
    {
        channel_is_empty(self)
    }
}

} // verus!
