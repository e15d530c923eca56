//! The oneshot channel: at most one value, then the end of the stream.
//!
//! The sender publishes a single value, which also completes the channel;
//! the receiver observes `Ok(value)` exactly once, or `Canceled` when the
//! sender was dropped (or the receiver closed the channel) before a value
//! arrived.

use vstd::prelude::*;

use super::{
    complete, rx_locked, spec_close_half, spec_discard, spec_drop_rx, spec_poll_cancel,
    spec_register_rx, tx_locked, Core, CoreModel, Half, Poll, WakeToken,
};

verus! {

/// The opposite endpoint was dropped or closed before the operation could
/// complete.
#[derive(Debug, PartialEq, Eq, Structural)]
pub struct Canceled;

/// Abstract state of a oneshot channel: the shared core and the value
/// cell.
#[verifier::ext_equal]
pub ghost struct ChannelModel<T> {
    /// The shared coordination core.
    pub core: CoreModel,
    /// The published value, until the receiver takes it.
    pub value: Option<T>,
}

/// Validity of a oneshot channel between operations: no lock bit is left
/// set, and a published value implies a complete channel.
pub open spec fn wf<T>(m: ChannelModel<T>) -> bool {
    &&& !rx_locked(m.core.word)
    &&& !tx_locked(m.core.word)
    &&& (m.value is Some ==> complete(m.core.word))
}

/// Transition of `send`: publish `v`, complete the channel and wake the
/// receiver; a channel already complete hands `v` back.
pub open spec fn spec_send<T>(m: ChannelModel<T>, v: T) -> (ChannelModel<T>, Result<(), T>) {
    if complete(m.core.word) {
        (m, Err(v))
    } else {
        (
            ChannelModel { core: spec_close_half(m.core, Half::Rx), value: Some(v) },
            Ok(()),
        )
    }
}

/// Transition of `poll`: take the published value, or report `Canceled`
/// when the channel completed without one; otherwise register `t` and
/// suspend.
pub open spec fn spec_poll<T>(m: ChannelModel<T>, t: WakeToken) -> (ChannelModel<T>, Poll<
    Result<T, Canceled>,
>) {
    if complete(m.core.word) {
        match m.value {
            Some(v) => (
                ChannelModel { core: spec_discard(m.core, t), value: None },
                Poll::Ready(Ok(v)),
            ),
            None => (
                ChannelModel { core: spec_discard(m.core, t), ..m },
                Poll::Ready(Err(Canceled)),
            ),
        }
    } else {
        (ChannelModel { core: spec_register_rx(m.core, t).0, ..m }, Poll::Pending)
    }
}

/// Transition of `try_recv`: take the published value, report `Canceled`
/// when the channel completed without one, and `Ok(None)` while the value
/// may still arrive.
pub open spec fn spec_try_recv<T>(m: ChannelModel<T>) -> (ChannelModel<T>, Result<
    Option<T>,
    Canceled,
>) {
    if complete(m.core.word) {
        match m.value {
            Some(v) => (ChannelModel { value: None, ..m }, Ok(Some(v))),
            None => (m, Err(Canceled)),
        }
    } else {
        (m, Ok(None))
    }
}

/// A oneshot channel.
///
/// One value of this type holds both endpoints' shared state; the sender
/// methods (`send`, `poll_cancel`, `is_canceled`, `drop_tx`) and the
/// receiver methods (`poll`, `try_recv`, `close`, `drop_rx`) act on their
/// own side of it.
pub struct Channel<T> {
    core: Core,
    value: Option<T>,
}

impl<T> View for Channel<T> {
    type V = ChannelModel<T>;

    closed spec fn view(&self) -> ChannelModel<T> {
        ChannelModel { core: self.core@, value: self.value }
    }
}

/// Creates a fresh oneshot channel: no value, both wake-token slots empty.
pub fn channel<T>() -> (c: Channel<T>)
    ensures
        wf(c@),
        c@.core.word == 0,
        c@.core.rx_task is None,
        c@.core.tx_task is None,
        c@.core.woken == Seq::<WakeToken>::empty(),
        c@.core.dropped == Seq::<WakeToken>::empty(),
        c@.value is None,
{
    let c = Channel { core: Core::new(), value: None };
    proof {
        super::lemma_core_bits(0);
    }
    c
}

impl<T> Channel<T> {
    /// Sender: publish `value`, completing the channel and waking the
    /// receiver.  A channel already complete hands the value back.  The
    /// sender's part is over after this call.
    pub fn send(&mut self, value: T) -> (r: Result<(), T>)
        requires
            wf(old(self)@),
        ensures
            wf(final(self)@),
            final(self)@ == spec_send(old(self)@, value).0,
            r == spec_send(old(self)@, value).1,
    {
        if self.core.is_canceled() {
            proof {
                assert(self@ =~~= spec_send(old(self)@, value).0);
            }
            Err(value)
        } else {
            self.value = Some(value);
            self.core.close_half(Half::Rx);
            proof {
                super::lemma_core_bits(old(self)@.core.word);
                assert(self@ =~~= spec_send(old(self)@, value).0);
            }
            Ok(())
        }
    }

    /// Receiver: poll for the value.  Yields `Ok(value)` once it was
    /// published, `Err(Canceled)` once the channel completed without one;
    /// otherwise registers `token` and suspends.
    pub fn poll(&mut self, token: WakeToken) -> (r: Poll<Result<T, Canceled>>)
        requires
            wf(old(self)@),
        ensures
            wf(final(self)@),
            final(self)@ == spec_poll(old(self)@, token).0,
            r == spec_poll(old(self)@, token).1,
    {
        if self.core.is_canceled() {
            let taken = self.value.take();
            self.core.discard(token);
            match taken {
                Some(v) => {
                    proof {
                        assert(self@ =~~= spec_poll(old(self)@, token).0);
                    }
                    Poll::Ready(Ok(v))
                },
                None => {
                    proof {
                        assert(self@ =~~= spec_poll(old(self)@, token).0);
                    }
                    Poll::Ready(Err(Canceled))
                },
            }
        } else {
            let registered = self.core.register_rx(token);
            match registered {
                Poll::Pending => {
                    proof {
                        assert(self@ =~~= spec_poll(old(self)@, token).0);
                    }
                    Poll::Pending
                },
                Poll::Ready(()) => {
                    proof {
                        assert(false);
                    }
                    Poll::Pending
                },
            }
        }
    }

    /// Receiver: poll for the value without registering a wake token.
    /// `Ok(None)` stands where `poll` would suspend.
    pub fn try_recv(&mut self) -> (r: Result<Option<T>, Canceled>)
        requires
            wf(old(self)@),
        ensures
            wf(final(self)@),
            final(self)@ == spec_try_recv(old(self)@).0,
            r == spec_try_recv(old(self)@).1,
    {
        if self.core.is_canceled() {
            let taken = self.value.take();
            match taken {
                Some(v) => {
                    proof {
                        assert(self@ =~~= spec_try_recv(old(self)@).0);
                    }
                    Ok(Some(v))
                },
                None => {
                    proof {
                        assert(self@ =~~= spec_try_recv(old(self)@).0);
                    }
                    Err(Canceled)
                },
            }
        } else {
            proof {
                assert(self@ =~~= spec_try_recv(old(self)@).0);
            }
            Ok(None)
        }
    }

    /// Receiver: close the channel early, waking the sender's cancellation
    /// observer.  A value already published remains takeable.
    pub fn close(&mut self)
        requires
            wf(old(self)@),
        ensures
            wf(final(self)@),
            final(self)@ == (ChannelModel {
                core: spec_close_half(old(self)@.core, Half::Tx),
                ..old(self)@
            }),
    {
        self.core.close_rx();
        proof {
            super::lemma_core_bits(old(self)@.core.word);
            assert(self@ =~~= (ChannelModel {
                core: spec_close_half(old(self)@.core, Half::Tx),
                ..old(self)@
            }));
        }
    }

    /// The tokens handed out for invocation so far, in order.  The runtime
    /// glue around the channel invokes each exactly once.
    pub fn woken_tokens(&self) -> (r: &Vec<WakeToken>)
        ensures
            r@ == self@.core.woken,
    {
        self.core.woken_tokens()
    }

    /// The tokens discarded without invocation so far, in order.
    pub fn dropped_tokens(&self) -> (r: &Vec<WakeToken>)
        ensures
            r@ == self@.core.dropped,
    {
        self.core.dropped_tokens()
    }

    /// Sender: true once the receiver has been dropped or has closed the
    /// channel.
    pub fn is_canceled(&self) -> (r: bool)
        ensures
            r == complete(self@.core.word),
    {
        self.core.is_canceled()
    }

    /// Sender: observe cancellation.  `Ready` once the channel is
    /// complete; otherwise registers `token`, which the receiver's
    /// disposal will invoke.
    pub fn poll_cancel(&mut self, token: WakeToken) -> (r: Poll<()>)
        requires
            wf(old(self)@),
        ensures
            wf(final(self)@),
            final(self)@ == (ChannelModel {
                core: spec_poll_cancel(old(self)@.core, token).0,
                ..old(self)@
            }),
            r == spec_poll_cancel(old(self)@.core, token).1,
    {
        let r = self.core.poll_cancel(token);
        proof {
            assert(self@ =~~= (ChannelModel {
                core: spec_poll_cancel(old(self)@.core, token).0,
                ..old(self)@
            }));
        }
        r
    }

    /// Sender's disposal: complete the channel and wake the receiver.  A
    /// value already published remains takeable; an unpublished send path
    /// yields `Canceled` on the receiver.
    pub fn drop_tx(&mut self)
        requires
            wf(old(self)@),
        ensures
            wf(final(self)@),
            final(self)@ == (ChannelModel {
                core: spec_close_half(old(self)@.core, Half::Rx),
                ..old(self)@
            }),
    {
        self.core.drop_tx();
        proof {
            super::lemma_core_bits(old(self)@.core.word);
            assert(self@ =~~= (ChannelModel {
                core: spec_close_half(old(self)@.core, Half::Rx),
                ..old(self)@
            }));
        }
    }

    /// Receiver's disposal: complete the channel, discard the receiver's
    /// stored token and wake the sender's cancellation observer.  An
    /// undelivered value is dropped with the channel.
    pub fn drop_rx(&mut self)
        requires
            wf(old(self)@),
        ensures
            wf(final(self)@),
            final(self)@ == (ChannelModel {
                core: spec_drop_rx(old(self)@.core),
                ..old(self)@
            }),
    {
        self.core.drop_rx();
        proof {
            super::lemma_drop_mask(old(self)@.core.word);
            super::lemma_core_bits(old(self)@.core.word);
            assert(self@ =~~= (ChannelModel {
                core: spec_drop_rx(old(self)@.core),
                ..old(self)@
            }));
        }
    }
}

/// A published value is taken at most once: after a poll yields it, every
/// later poll of the complete channel reports `Canceled`, and a value sent
/// into a complete channel comes straight back.
pub proof fn law_single_delivery<T>(m: ChannelModel<T>, t1: WakeToken, t2: WakeToken, v: T)
    requires
        wf(m),
    ensures
        ({
            let (m1, r1) = spec_poll(m, t1);
            (r1 matches Poll::Ready(Ok(_))) ==> {
                &&& spec_poll(m1, t2).1 == Poll::<Result<T, Canceled>>::Ready(Err(Canceled))
                &&& spec_send(m1, v).1 == Result::<(), T>::Err(v)
            }
        }),
{
}

/// Completion is observed on the very next poll: after the sender's
/// disposal the receiver never suspends again — it takes the value if one
/// was published and reports `Canceled` otherwise.
pub proof fn law_drop_tx_resolves_poll<T>(m: ChannelModel<T>, t: WakeToken)
    requires
        wf(m),
    ensures
        ({
            let m1 = ChannelModel { core: spec_close_half(m.core, Half::Rx), ..m };
            &&& !(spec_poll(m1, t).1 is Pending)
            &&& (m.value is Some ==> spec_poll(m1, t).1 == Poll::<Result<T, Canceled>>::Ready(
                Ok(m.value->0),
            ))
            &&& (m.value is None ==> spec_poll(m1, t).1 == Poll::<Result<T, Canceled>>::Ready(
                Err(Canceled),
            ))
        }),
{
    super::lemma_core_bits(m.core.word);
}

} // verus!
