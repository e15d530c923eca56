//! The pulse channel: a coalesced unit stream with an optional terminal
//! error.
//!
//! The sender adds pulses to a counter held in the payload bits of the state
//! word (several sends coalesce into one observed count, matching
//! edge-triggered interrupt semantics) and may hand over one terminal error.
//! The receiver drains the counter in single non-zero chunks, then the
//! error, then sees the end of the stream.

use vstd::prelude::*;

use super::{
    complete, rx_locked, spec_close_half, spec_discard, spec_drop_rx, spec_poll_cancel,
    spec_register_rx, spec_notify_rx, tx_locked, Core, CoreModel, Half, Poll, WakeToken, COMPLETE,
};

verus! {

/// Bit of the state word recording that the terminal error cell is full.
pub const ERR_FLAG: u32 = 0x8;

/// Largest pulse count the state word can hold; `send` saturates here and
/// excess pulses are coalesced away.
pub const COUNT_MAX: u32 = 0x0FFF_FFFF;

/// True when the terminal error cell is marked full in `w`.
pub open spec fn err_flagged(w: u32) -> bool {
    w & ERR_FLAG != 0
}

/// The pulse count held in `w`.
pub open spec fn count_of(w: u32) -> u32 {
    w >> 4
}

/// `w` with its pulse count replaced by `c`.
pub open spec fn word_with_count(w: u32, c: u32) -> u32 {
    (w & 0xF) | (c << 4)
}

/// `w` with the error flag cleared and `COMPLETE` set: the word after the
/// receiver consumes the terminal error.
pub open spec fn word_take_err(w: u32) -> u32 {
    (w | COMPLETE) & 0xFFFF_FFF7
}

/// The pulse count `c` grown by `p`, saturating at [`COUNT_MAX`].
pub open spec fn sat_add(c: u32, p: u32) -> u32 {
    if c + p > COUNT_MAX {
        COUNT_MAX
    } else {
        (c + p) as u32
    }
}

/// Why a send was refused.
#[derive(Debug, PartialEq, Eq, Structural)]
pub enum SendError {
    /// The receiver is gone, or the terminal error was already handed over.
    Canceled,
}

/// Why `try_next` yielded no value.
#[derive(Debug, PartialEq, Eq, Structural)]
pub enum TryNextError {
    /// Nothing available now; the stream is not terminated.
    Empty,
    /// The stream is terminated: the channel completed and was drained.
    Canceled,
}

/// Abstract state of a pulse channel: the shared core, the terminal error
/// cell, and whether the receiver has observed the end of the stream.
#[verifier::ext_equal]
pub ghost struct ChannelModel<E> {
    /// The shared coordination core; the payload bits of its state word
    /// hold the error flag and the pulse count.
    pub core: CoreModel,
    /// The terminal error cell.
    pub err: Option<E>,
    /// Set once the receiver has observed the end of the stream.
    pub terminated: bool,
}

/// Validity of a pulse channel between operations: no lock bit is left
/// set, and the error flag mirrors the error cell.
pub open spec fn wf<E>(m: ChannelModel<E>) -> bool {
    &&& !rx_locked(m.core.word)
    &&& !tx_locked(m.core.word)
    &&& err_flagged(m.core.word) == (m.err is Some)
}

/// Transition of `send`: add `pulses` to the counter (saturating) and wake
/// the receiver, unless the channel is complete or the terminal error was
/// already handed over.
pub open spec fn spec_send<E>(m: ChannelModel<E>, pulses: u32) -> (ChannelModel<E>, Result<
    (),
    SendError,
>) {
    if complete(m.core.word) || err_flagged(m.core.word) {
        (m, Err(SendError::Canceled))
    } else {
        let w1 = word_with_count(m.core.word, sat_add(count_of(m.core.word), pulses));
        let core = spec_notify_rx(CoreModel { word: w1, ..m.core });
        (ChannelModel { core, ..m }, Ok(()))
    }
}

/// Transition of `send_err`: move `err` into the error cell, mark it full
/// and wake the receiver; a complete channel returns the error to the
/// caller.  The error is handed over even when pulses are still pending:
/// the receiver drains the counter first.
pub open spec fn spec_send_err<E>(m: ChannelModel<E>, err: E) -> (ChannelModel<E>, Result<(), E>) {
    if complete(m.core.word) {
        (m, Err(err))
    } else {
        let core = spec_notify_rx(
            CoreModel { word: m.core.word | ERR_FLAG, ..m.core },
        );
        (ChannelModel { core, err: Some(err), ..m }, Ok(()))
    }
}

/// Transition of `poll_next`: yield the non-zero pulse count, else the
/// terminal error (setting `COMPLETE`), else the end of the stream when
/// complete; otherwise register `t` and suspend.
pub open spec fn spec_poll_next<E>(m: ChannelModel<E>, t: WakeToken) -> (ChannelModel<E>, Poll<
    Option<Result<u32, E>>,
>) {
    if count_of(m.core.word) > 0 {
        let core = spec_discard(
            CoreModel { word: word_with_count(m.core.word, 0), ..m.core },
            t,
        );
        (ChannelModel { core, ..m }, Poll::Ready(Some(Ok(count_of(m.core.word)))))
    } else if m.err is Some {
        let core = spec_discard(CoreModel { word: word_take_err(m.core.word), ..m.core }, t);
        (
            ChannelModel { core, err: None, terminated: true },
            Poll::Ready(Some(Err(m.err->0))),
        )
    } else if complete(m.core.word) {
        let core = spec_discard(m.core, t);
        (ChannelModel { core, terminated: true, ..m }, Poll::Ready(None))
    } else {
        (ChannelModel { core: spec_register_rx(m.core, t).0, ..m }, Poll::Pending)
    }
}

/// Transition of `try_next`: as `spec_poll_next`, but without registering a
/// wake token — an idle channel reports `Empty`, a terminated one
/// `Canceled`.
pub open spec fn spec_try_next<E>(m: ChannelModel<E>) -> (ChannelModel<E>, Result<
    Result<u32, E>,
    TryNextError,
>) {
    if count_of(m.core.word) > 0 {
        let core = CoreModel { word: word_with_count(m.core.word, 0), ..m.core };
        (ChannelModel { core, ..m }, Ok(Ok(count_of(m.core.word))))
    } else if m.err is Some {
        let core = CoreModel { word: word_take_err(m.core.word), ..m.core };
        (ChannelModel { core, err: None, terminated: true }, Ok(Err(m.err->0)))
    } else if complete(m.core.word) {
        (ChannelModel { terminated: true, ..m }, Err(TryNextError::Canceled))
    } else {
        (m, Err(TryNextError::Empty))
    }
}

/// A pulse channel.
///
/// One value of this type holds both endpoints' shared state; the sender
/// methods (`send`, `send_err`, `poll_cancel`, `is_canceled`, `drop_tx`)
/// and the receiver methods (`poll_next`, `try_next`, `close`,
/// `is_terminated`, `drop_rx`) act on their own side of it.
pub struct Channel<E> {
    core: Core,
    err: Option<E>,
    terminated: bool,
}

impl<E> View for Channel<E> {
    type V = ChannelModel<E>;

    closed spec fn view(&self) -> ChannelModel<E> {
        ChannelModel { core: self.core@, err: self.err, terminated: self.terminated }
    }
}

/// Creates a fresh pulse channel: counter zero, no error, both wake-token
/// slots empty.
pub fn channel<E>() -> (c: Channel<E>)
    ensures
        wf(c@),
        c@.core.word == 0,
        c@.core.rx_task is None,
        c@.core.tx_task is None,
        c@.core.woken == Seq::<WakeToken>::empty(),
        c@.core.dropped == Seq::<WakeToken>::empty(),
        c@.err is None,
        !c@.terminated,
{
    let c = Channel { core: Core::new(), err: None, terminated: false };
    proof {
        lemma_pulse_bits(0, 0);
    }
    c
}

/// Pure transition function of the receiver's take step; the second
/// argument is unused.
fn pulse_take_step(w: u32, _arg: u32) -> (r: Result<(u32, u32), bool>)
    ensures
        r == spec_pulse_take_step(w),
{
    proof {
        lemma_pulse_bits(w, 0);
    }
    if w >> 4 > 0 {
        Ok(((w & 0xF), w >> 4))
    } else if w & ERR_FLAG != 0 {
        Ok(((w | COMPLETE) & 0xFFFF_FFF7, 0))
    } else if w & COMPLETE != 0 {
        Err(true)
    } else {
        Err(false)
    }
}

/// Transition of the receiver's take step: reset a non-zero counter
/// (witness: the count taken), else consume the error flag (witness zero),
/// else report whether the word is complete.
pub open spec fn spec_pulse_take_step(w: u32) -> Result<(u32, u32), bool> {
    if count_of(w) > 0 {
        Ok((word_with_count(w, 0), count_of(w)))
    } else if err_flagged(w) {
        Ok((word_take_err(w), 0))
    } else {
        Err(complete(w))
    }
}

/// Pure transition function of `send`: grow the counter by `pulses`,
/// saturating, unless the channel is complete or failed.
fn pulse_send_step(w: u32, pulses: u32) -> (r: Result<(u32, u32), ()>)
    ensures
        r == spec_pulse_send_step(w, pulses),
{
    proof {
        lemma_pulse_bits(w, pulses);
    }
    if w & (COMPLETE | ERR_FLAG) != 0 {
        Err(())
    } else {
        let c = w >> 4;
        let n = if pulses > COUNT_MAX - c {
            COUNT_MAX
        } else {
            c + pulses
        };
        Ok(((w & 0xF) | (n << 4), n))
    }
}

/// Transition of `send`: grow the counter, saturating, unless the channel
/// is complete or the error flag is set.
pub open spec fn spec_pulse_send_step(w: u32, pulses: u32) -> Result<(u32, u32), ()> {
    if complete(w) || err_flagged(w) {
        Err(())
    } else {
        let n = sat_add(count_of(w), pulses);
        Ok((word_with_count(w, n), n))
    }
}

/// Pure transition function of `send_err`: mark the error cell full; the
/// second argument is unused.  The channel must not be complete.
fn pulse_err_step(w: u32, _arg: u32) -> (r: Result<(u32, u32), ()>)
    ensures
        r == Ok::<(u32, u32), ()>(((w | ERR_FLAG), w | ERR_FLAG)),
{
    Ok((w | ERR_FLAG, w | ERR_FLAG))
}

impl<E> Channel<E> {
    /// Sender: add `pulses` to the channel's counter (saturating at
    /// [`COUNT_MAX`]) and wake the receiver.  Fails with `Canceled` once
    /// the channel is complete or the terminal error was handed over.
    pub fn send(&mut self, pulses: u32) -> (r: Result<(), SendError>)
        requires
            wf(old(self)@),
        ensures
            wf(final(self)@),
            final(self)@ == spec_send(old(self)@, pulses).0,
            r == spec_send(old(self)@, pulses).1,
    {
        proof {
            lemma_pulse_bits(old(self)@.core.word, pulses);
        }
        let step = self.core.update(pulses, pulse_send_step);
        match step {
            Err(()) => {
                proof {
                    assert(self@ =~~= spec_send(old(self)@, pulses).0);
                }
                Err(SendError::Canceled)
            },
            Ok(_count) => {
                self.core.notify_rx();
                proof {
                    lemma_pulse_bits(old(self)@.core.word, pulses);
                    assert(self@ =~~= spec_send(old(self)@, pulses).0);
                }
                Ok(())
            },
        }
    }

    /// Sender: hand the terminal error over and wake the receiver.  The
    /// receiver drains any pending pulses first, then observes the error.
    /// Once the channel is complete the error is handed back unchanged.
    pub fn send_err(&mut self, err: E) -> (r: Result<(), E>)
        requires
            wf(old(self)@),
        ensures
            wf(final(self)@),
            final(self)@ == spec_send_err(old(self)@, err).0,
            r == spec_send_err(old(self)@, err).1,
    {
        proof {
            lemma_pulse_bits(old(self)@.core.word, 0);
        }
        if self.core.is_canceled() {
            proof {
                assert(self@ =~~= spec_send_err(old(self)@, err).0);
            }
            Err(err)
        } else {
            self.err = Some(err);
            let _ = self.core.update(0, pulse_err_step);
            self.core.notify_rx();
            proof {
                lemma_pulse_bits(old(self)@.core.word, 0);
                assert(self@ =~~= spec_send_err(old(self)@, err).0);
            }
            Ok(())
        }
    }

    /// Receiver: poll the stream.  Yields the coalesced pulse count while
    /// one is pending, then the terminal error, then the end of the
    /// stream; otherwise registers `token` and suspends.
    pub fn poll_next(&mut self, token: WakeToken) -> (r: Poll<Option<Result<u32, E>>>)
        requires
            wf(old(self)@),
        ensures
            wf(final(self)@),
            final(self)@ == spec_poll_next(old(self)@, token).0,
            r == spec_poll_next(old(self)@, token).1,
    {
        proof {
            lemma_pulse_bits(old(self)@.core.word, 0);
        }
        let step = self.core.update(0, pulse_take_step);
        match step {
            Ok(count) => {
                if count > 0 {
                    self.core.discard(token);
                    proof {
                        assert(self@ =~~= spec_poll_next(old(self)@, token).0);
                    }
                    Poll::Ready(Some(Ok(count)))
                } else {
                    let taken = self.err.take();
                    match taken {
                        Some(e) => {
                            self.terminated = true;
                            self.core.discard(token);
                            proof {
                                assert(self@ =~~= spec_poll_next(old(self)@, token).0);
                            }
                            Poll::Ready(Some(Err(e)))
                        },
                        None => {
                            proof {
                                assert(false);
                            }
                            Poll::Pending
                        },
                    }
                }
            },
            Err(done) => {
                if done {
                    self.terminated = true;
                    self.core.discard(token);
                    proof {
                        assert(self@ =~~= spec_poll_next(old(self)@, token).0);
                    }
                    Poll::Ready(None)
                } else {
                    let registered = self.core.register_rx(token);
                    match registered {
                        Poll::Pending => {
                            proof {
                                assert(self@ =~~= spec_poll_next(old(self)@, token).0);
                            }
                            Poll::Pending
                        },
                        Poll::Ready(()) => {
                            proof {
                                assert(false);
                            }
                            Poll::Pending
                        },
                    }
                }
            },
        }
    }

    /// Receiver: poll the stream without registering a wake token.
    /// `Empty` stands where `poll_next` would suspend, `Canceled` where it
    /// would report the end of the stream.
    pub fn try_next(&mut self) -> (r: Result<Result<u32, E>, TryNextError>)
        requires
            wf(old(self)@),
        ensures
            wf(final(self)@),
            final(self)@ == spec_try_next(old(self)@).0,
            r == spec_try_next(old(self)@).1,
    {
        proof {
            lemma_pulse_bits(old(self)@.core.word, 0);
        }
        let step = self.core.update(0, pulse_take_step);
        match step {
            Ok(count) => {
                if count > 0 {
                    proof {
                        assert(self@ =~~= spec_try_next(old(self)@).0);
                    }
                    Ok(Ok(count))
                } else {
                    let taken = self.err.take();
                    match taken {
                        Some(e) => {
                            self.terminated = true;
                            proof {
                                assert(self@ =~~= spec_try_next(old(self)@).0);
                            }
                            Ok(Err(e))
                        },
                        None => {
                            proof {
                                assert(false);
                            }
                            Err(TryNextError::Empty)
                        },
                    }
                }
            },
            Err(done) => {
                if done {
                    self.terminated = true;
                    proof {
                        assert(self@ =~~= spec_try_next(old(self)@).0);
                    }
                    Err(TryNextError::Canceled)
                } else {
                    proof {
                        assert(self@ =~~= spec_try_next(old(self)@).0);
                    }
                    Err(TryNextError::Empty)
                }
            },
        }
    }

    /// Receiver: close the channel early.  Pending pulses and the terminal
    /// error remain drainable; the sender's cancellation observer is woken.
    pub fn close(&mut self)
        requires
            wf(old(self)@),
        ensures
            wf(final(self)@),
            final(self)@ == (ChannelModel {
                core: spec_close_half(old(self)@.core, Half::Tx),
                ..old(self)@
            }),
    {
        self.core.close_rx();
        proof {
            super::lemma_core_bits(old(self)@.core.word);
            lemma_payload_preserved(old(self)@.core.word, self@.core.word);
        }
    }

    /// The tokens handed out for invocation so far, in order.  The runtime
    /// glue around the channel invokes each exactly once.
    pub fn woken_tokens(&self) -> (r: &Vec<WakeToken>)
        ensures
            r@ == self@.core.woken,
    {
        self.core.woken_tokens()
    }

    /// The tokens discarded without invocation so far, in order.
    pub fn dropped_tokens(&self) -> (r: &Vec<WakeToken>)
        ensures
            r@ == self@.core.dropped,
    {
        self.core.dropped_tokens()
    }

    /// Receiver: true once the end of the stream has been observed.
    pub fn is_terminated(&self) -> (r: bool)
        ensures
            r == self@.terminated,
    {
        self.terminated
    }

    /// Sender: true once the receiver has been dropped or has closed the
    /// channel.
    pub fn is_canceled(&self) -> (r: bool)
        ensures
            r == complete(self@.core.word),
    {
        self.core.is_canceled()
    }

    /// Sender: observe cancellation.  `Ready` once the channel is
    /// complete; otherwise registers `token`, which the receiver's
    /// disposal will invoke.
    pub fn poll_cancel(&mut self, token: WakeToken) -> (r: Poll<()>)
        requires
            wf(old(self)@),
        ensures
            wf(final(self)@),
            final(self)@ == (ChannelModel {
                core: spec_poll_cancel(old(self)@.core, token).0,
                ..old(self)@
            }),
            r == spec_poll_cancel(old(self)@.core, token).1,
    {
        let r = self.core.poll_cancel(token);
        proof {
            lemma_payload_preserved(old(self)@.core.word, self@.core.word);
        }
        r
    }

    /// Sender's disposal: complete the channel and wake the receiver.
    /// Pending pulses and the terminal error remain drainable.
    pub fn drop_tx(&mut self)
        requires
            wf(old(self)@),
        ensures
            wf(final(self)@),
            final(self)@ == (ChannelModel {
                core: spec_close_half(old(self)@.core, Half::Rx),
                ..old(self)@
            }),
    {
        self.core.drop_tx();
        proof {
            super::lemma_core_bits(old(self)@.core.word);
            lemma_payload_preserved(old(self)@.core.word, self@.core.word);
        }
    }

    /// Receiver's disposal: complete the channel, discard the receiver's
    /// stored token and wake the sender's cancellation observer.
    pub fn drop_rx(&mut self)
        requires
            wf(old(self)@),
        ensures
            wf(final(self)@),
            final(self)@ == (ChannelModel {
                core: spec_drop_rx(old(self)@.core),
                ..old(self)@
            }),
    {
        self.core.drop_rx();
        proof {
            super::lemma_drop_mask(old(self)@.core.word);
            super::lemma_core_bits(old(self)@.core.word);
            lemma_payload_preserved(old(self)@.core.word, self@.core.word);
        }
    }
}

/// Once the channel is complete the receiver terminates in a bounded
/// number of non-suspending polls: no poll returns `Pending` any more, and
/// by the third poll at the latest the stream has ended — at most one
/// pending pulse count and at most one terminal error come first.
pub proof fn law_complete_drains_bounded<E>(
    m: ChannelModel<E>,
    t1: WakeToken,
    t2: WakeToken,
    t3: WakeToken,
)
    requires
        wf(m),
        complete(m.core.word),
    ensures
        ({
            let (m1, r1) = spec_poll_next(m, t1);
            let (m2, r2) = spec_poll_next(m1, t2);
            let (m3, r3) = spec_poll_next(m2, t3);
            &&& !(r1 is Pending)
            &&& !(r2 is Pending)
            &&& r3 == Poll::<Option<Result<u32, E>>>::Ready(None)
            &&& m3.terminated
        }),
{
    lemma_pulse_bits(m.core.word, 0);
    lemma_pulse_bits(word_with_count(m.core.word, 0), 0);
    lemma_pulse_bits(word_take_err(m.core.word), 0);
    lemma_pulse_bits(word_take_err(word_with_count(m.core.word, 0)), 0);
}

/// Pulses are neither lost nor observed twice: below the saturation bound
/// a send adds exactly its pulses to the pending count, a poll hands the
/// whole pending count out at once, and a second poll cannot yield a count
/// again until something is sent.
pub proof fn law_pulse_conservation<E>(m: ChannelModel<E>, pulses: u32, t1: WakeToken, t2: WakeToken)
    requires
        wf(m),
    ensures
        (!complete(m.core.word) && m.err is None && count_of(m.core.word) + pulses <= COUNT_MAX)
            ==> count_of(spec_send(m, pulses).0.core.word) == count_of(m.core.word) + pulses,
        count_of(m.core.word) > 0 ==> ({
            let (m1, r1) = spec_poll_next(m, t1);
            &&& r1 == Poll::<Option<Result<u32, E>>>::Ready(Some(Ok(count_of(m.core.word))))
            &&& count_of(m1.core.word) == 0
            &&& !(spec_poll_next(m1, t2).1 matches Poll::Ready(Some(Ok(_))))
        }),
{
    lemma_pulse_bits(m.core.word, pulses);
    lemma_pulse_bits(word_with_count(m.core.word, 0), 0);
    if !complete(m.core.word) && m.err is None && count_of(m.core.word) + pulses <= COUNT_MAX {
        let w1 = word_with_count(m.core.word, sat_add(count_of(m.core.word), pulses));
        lemma_pulse_bits(w1, 0);
    }
}

/// Sends coalesce: two sends below the saturation bound and one poll
/// observe the pulses of both at once, as a single count equal to their
/// sum.
pub proof fn law_sends_coalesce<E>(m: ChannelModel<E>, a: u32, b: u32, t: WakeToken)
    requires
        wf(m),
        !complete(m.core.word),
        m.err is None,
        count_of(m.core.word) + a + b <= COUNT_MAX,
        count_of(m.core.word) + a + b > 0,
    ensures
        ({
            let m1 = spec_send(m, a).0;
            let m2 = spec_send(m1, b).0;
            spec_poll_next(m2, t).1 == Poll::<Option<Result<u32, E>>>::Ready(
                Some(Ok((count_of(m.core.word) + a + b) as u32)),
            )
        }),
{
    let c = count_of(m.core.word);
    lemma_pulse_bits(m.core.word, a);
    let w1 = word_with_count(m.core.word, sat_add(c, a));
    lemma_pulse_bits(w1, b);
    let w2 = word_with_count(w1, sat_add(count_of(w1), b));
    lemma_pulse_bits(w2, 0);
}

/// Facts about the pulse payload encoding in the state word.
proof fn lemma_pulse_bits(w: u32, pulses: u32)
    by (bit_vector)
    ensures
        count_of(w) <= COUNT_MAX,
        (w & (COMPLETE | ERR_FLAG) != 0) == (complete(w) || err_flagged(w)),
        (w & ERR_FLAG != 0) == err_flagged(w),
        (w & COMPLETE != 0) == complete(w),
        (w >> 4 > 0) == (count_of(w) > 0),
        forall|c: u32|
            c <= COUNT_MAX ==> {
                &&& count_of(#[trigger] word_with_count(w, c)) == c
                &&& err_flagged(word_with_count(w, c)) == err_flagged(w)
                &&& complete(word_with_count(w, c)) == complete(w)
                &&& rx_locked(word_with_count(w, c)) == rx_locked(w)
                &&& tx_locked(word_with_count(w, c)) == tx_locked(w)
            },
        word_with_count(w, 0) == w & 0xF,
        count_of(word_take_err(w)) == count_of(w),
        !err_flagged(word_take_err(w)),
        complete(word_take_err(w)),
        rx_locked(word_take_err(w)) == rx_locked(w),
        tx_locked(word_take_err(w)) == tx_locked(w),
        err_flagged(w | ERR_FLAG),
        complete(w | ERR_FLAG) == complete(w),
        count_of(w | ERR_FLAG) == count_of(w),
        rx_locked(w | ERR_FLAG) == rx_locked(w),
        tx_locked(w | ERR_FLAG) == tx_locked(w),
        count_of(0) == 0 && !err_flagged(0) && !complete(0) && !rx_locked(0) && !tx_locked(0),
{
}

/// Payload preservation: two words with equal payload bits agree on the
/// error flag and the pulse count.
proof fn lemma_payload_preserved(w: u32, w1: u32)
    by (bit_vector)
    ensures
        w >> 3 == w1 >> 3 ==> {
            &&& err_flagged(w) == err_flagged(w1)
            &&& count_of(w) == count_of(w1)
        },
{
}

} // verus!
