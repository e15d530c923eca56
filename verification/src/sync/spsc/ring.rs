//! The ring channel: a bounded FIFO queue of capacity fixed at creation.
//!
//! The sender may push until the ring is full and then observes
//! backpressure (the value is handed back); the receiver drains in FIFO
//! order.  After the sender is gone the receiver drains the remainder and
//! then sees the end of the stream.  The queue length lives in the payload
//! bits of the shared state word; the head index is owned by the receiver
//! and kept outside the word.

use vstd::prelude::*;

use super::{
    complete, rx_locked, spec_close_half, spec_discard, spec_drop_rx, spec_poll_cancel,
    spec_register_rx, spec_notify_rx, tx_locked, Core, CoreModel, Half, Poll, WakeToken, COMPLETE,
};

verus! {

/// Largest capacity a ring channel can account for in the state word.
pub const LEN_MAX: u32 = 0x1FFF_FFFF;

/// The queue length held in `w`.
pub open spec fn len_of(w: u32) -> u32 {
    w >> 3
}

/// `w` with its queue length replaced by `l`.
pub open spec fn word_with_len(w: u32, l: u32) -> u32 {
    (w & 0x7) | (l << 3)
}

/// The slot index holding the `i`-th queued value, for a ring of capacity
/// `cap` whose oldest value sits at `head`.
pub open spec fn ring_idx(head: int, i: int, cap: int) -> int {
    if head + i < cap {
        head + i
    } else {
        head + i - cap
    }
}

/// Why a send was refused; the value is handed back in either case.
#[derive(Debug, PartialEq, Eq)]
pub enum SendError<T> {
    /// The receiver is gone.
    Canceled(T),
    /// The ring is at capacity; try again after the receiver drained.
    Full(T),
}

/// Why `try_next` yielded no value.
#[derive(Debug, PartialEq, Eq, Structural)]
pub enum TryNextError {
    /// Nothing available now; the stream is not terminated.
    Empty,
    /// The stream is terminated: the channel completed and was drained.
    Canceled,
}

/// Abstract state of a ring channel: the shared core, the queued values in
/// FIFO order, the capacity, and whether the receiver has observed the end
/// of the stream.
#[verifier::ext_equal]
pub ghost struct ChannelModel<T> {
    /// The shared coordination core; the payload bits of its state word
    /// hold the queue length.
    pub core: CoreModel,
    /// The queued values, oldest first.
    pub queue: Seq<T>,
    /// The fixed capacity.
    pub cap: nat,
    /// Set once the receiver has observed the end of the stream.
    pub terminated: bool,
}

/// Validity of a ring channel's abstract state between operations: no lock
/// bit is left set, the accounted length is the queue length, and the
/// queue fits the capacity.
pub open spec fn wf<T>(m: ChannelModel<T>) -> bool {
    &&& !rx_locked(m.core.word)
    &&& !tx_locked(m.core.word)
    &&& m.queue.len() == len_of(m.core.word) as int
    &&& m.queue.len() <= m.cap
    &&& 1 <= m.cap <= LEN_MAX as nat
}

/// Transition of `send`: append `v` and wake the receiver, unless the
/// channel is complete (the value comes back as `Canceled`) or the ring is
/// full (the value comes back as `Full`).
pub open spec fn spec_send<T>(m: ChannelModel<T>, v: T) -> (ChannelModel<T>, Result<
    (),
    SendError<T>,
>) {
    if complete(m.core.word) {
        (m, Err(SendError::Canceled(v)))
    } else if m.queue.len() >= m.cap {
        (m, Err(SendError::Full(v)))
    } else {
        let w1 = word_with_len(m.core.word, (len_of(m.core.word) + 1) as u32);
        let core = spec_notify_rx(CoreModel { word: w1, ..m.core });
        (ChannelModel { core, queue: m.queue.push(v), ..m }, Ok(()))
    }
}

/// Transition of `poll_next`: yield the oldest queued value, else the end
/// of the stream when complete; otherwise register `t` and suspend.
pub open spec fn spec_poll_next<T>(m: ChannelModel<T>, t: WakeToken) -> (ChannelModel<T>, Poll<
    Option<T>,
>) {
    if m.queue.len() > 0 {
        let w1 = word_with_len(m.core.word, (len_of(m.core.word) - 1) as u32);
        let core = spec_discard(CoreModel { word: w1, ..m.core }, t);
        (
            ChannelModel { core, queue: m.queue.subrange(1, m.queue.len() as int), ..m },
            Poll::Ready(Some(m.queue[0])),
        )
    } else if complete(m.core.word) {
        let core = spec_discard(m.core, t);
        (ChannelModel { core, terminated: true, ..m }, Poll::Ready(None))
    } else {
        (ChannelModel { core: spec_register_rx(m.core, t).0, ..m }, Poll::Pending)
    }
}

/// Transition of `try_next`: as `spec_poll_next`, but without registering a
/// wake token — an idle channel reports `Empty`, a terminated one
/// `Canceled`.
pub open spec fn spec_try_next<T>(m: ChannelModel<T>) -> (ChannelModel<T>, Result<
    T,
    TryNextError,
>) {
    if m.queue.len() > 0 {
        let w1 = word_with_len(m.core.word, (len_of(m.core.word) - 1) as u32);
        let core = CoreModel { word: w1, ..m.core };
        (
            ChannelModel { core, queue: m.queue.subrange(1, m.queue.len() as int), ..m },
            Ok(m.queue[0]),
        )
    } else if complete(m.core.word) {
        (ChannelModel { terminated: true, ..m }, Err(TryNextError::Canceled))
    } else {
        (m, Err(TryNextError::Empty))
    }
}

/// A ring channel of capacity fixed at creation.
///
/// One value of this type holds both endpoints' shared state; the sender
/// methods (`send`, `poll_cancel`, `is_canceled`, `drop_tx`) and the
/// receiver methods (`poll_next`, `try_next`, `close`, `is_terminated`,
/// `drop_rx`) act on their own side of it.
pub struct Channel<T> {
    core: Core,
    buf: Vec<Option<T>>,
    head: usize,
    terminated: bool,
}

impl<T> View for Channel<T> {
    type V = ChannelModel<T>;

    closed spec fn view(&self) -> ChannelModel<T> {
        ChannelModel {
            core: self.core@,
            queue: Seq::new(
                len_of(self.core@.word) as nat,
                |i: int|
                    self.buf@[ring_idx(self.head as int, i, self.buf@.len() as int)]->0,
            ),
            cap: self.buf@.len() as nat,
            terminated: self.terminated,
        }
    }
}

impl<T> Channel<T> {
    /// Validity of a ring channel between operations: no lock bit is left
    /// set, the accounted length fits the buffer, the head index is in
    /// range, and every accounted slot is occupied.
    pub closed spec fn inv(&self) -> bool {
        &&& !rx_locked(self.core@.word)
        &&& !tx_locked(self.core@.word)
        &&& 1 <= self.buf@.len() <= LEN_MAX
        &&& len_of(self.core@.word) as int <= self.buf@.len()
        &&& (self.head as int) < self.buf@.len()
        &&& forall|i: int|
            0 <= i < len_of(self.core@.word) as int ==> self.buf@[ring_idx(
                self.head as int,
                i,
                self.buf@.len() as int,
            )] is Some
    }
}

/// Creates a fresh ring channel of the given capacity: queue empty, both
/// wake-token slots empty.
pub fn channel<T>(capacity: usize) -> (c: Channel<T>)
    requires
        1 <= capacity <= LEN_MAX as usize,
    ensures
        c.inv(),
        c@.core.word == 0,
        c@.core.rx_task is None,
        c@.core.tx_task is None,
        c@.core.woken == Seq::<WakeToken>::empty(),
        c@.core.dropped == Seq::<WakeToken>::empty(),
        c@.queue == Seq::<T>::empty(),
        c@.cap == capacity as nat,
        !c@.terminated,
{
    let mut buf: Vec<Option<T>> = Vec::new();
    let mut i: usize = 0;
    while i < capacity
        invariant
            i <= capacity,
            buf@.len() == i as nat,
        decreases capacity - i,
    {
        buf.push(None);
        i += 1;
    }
    let c = Channel { core: Core::new(), buf, head: 0, terminated: false };
    proof {
        lemma_ring_bits(0, capacity as u32);
        assert(c@.queue =~= Seq::<T>::empty());
    }
    c
}

/// Pure transition function of `send` for a ring of capacity `cap`: grow
/// the accounted length, unless the channel is complete (`Err(true)`) or
/// the ring is full (`Err(false)`); the witness is the length before.
fn ring_send_step(w: u32, cap: u32) -> (r: Result<(u32, u32), bool>)
    ensures
        r == spec_ring_send_step(w, cap),
{
    proof {
        lemma_ring_bits(w, cap);
    }
    if w & COMPLETE != 0 {
        Err(true)
    } else if w >> 3 >= cap {
        Err(false)
    } else {
        let l = (w >> 3) + 1;
        Ok(((w & 0x7) | (l << 3), w >> 3))
    }
}

/// Transition of `send`'s accounting step.
pub open spec fn spec_ring_send_step(w: u32, cap: u32) -> Result<(u32, u32), bool> {
    if complete(w) {
        Err(true)
    } else if len_of(w) >= cap {
        Err(false)
    } else {
        Ok((word_with_len(w, (len_of(w) + 1) as u32), len_of(w)))
    }
}

/// Pure transition function of the receiver's take step: shrink a non-zero
/// accounted length (witness: the length before), else report whether the
/// word is complete.  The second argument is unused.
fn ring_take_step(w: u32, _arg: u32) -> (r: Result<(u32, u32), bool>)
    ensures
        r == spec_ring_take_step(w),
{
    proof {
        lemma_ring_bits(w, 0);
    }
    if w >> 3 > 0 {
        let l = (w >> 3) - 1;
        Ok(((w & 0x7) | (l << 3), w >> 3))
    } else {
        Err(w & COMPLETE != 0)
    }
}

/// Transition of the receiver's take step.
pub open spec fn spec_ring_take_step(w: u32) -> Result<(u32, u32), bool> {
    if len_of(w) > 0 {
        Ok((word_with_len(w, (len_of(w) - 1) as u32), len_of(w)))
    } else {
        Err(complete(w))
    }
}

impl<T> Channel<T> {
    /// Sender: append `value` to the ring and wake the receiver.  Hands
    /// the value back as `Canceled` once the channel is complete, and as
    /// `Full` while the ring is at capacity.
    pub fn send(&mut self, value: T) -> (r: Result<(), SendError<T>>)
        requires
            old(self).inv(),
        ensures
            final(self).inv(),
            final(self)@ == spec_send(old(self)@, value).0,
            r == spec_send(old(self)@, value).1,
    {
        proof {
            lemma_ring_bits(old(self)@.core.word, 0);
        }
        let cap = self.buf.len();
        let step = self.core.update(cap as u32, ring_send_step);
        match step {
            Err(canceled) => {
                proof {
                    assert(self@ =~~= spec_send(old(self)@, value).0);
                }
                if canceled {
                    Err(SendError::Canceled(value))
                } else {
                    Err(SendError::Full(value))
                }
            },
            Ok(len_before) => {
                let len_before = len_before as usize;
                let head = self.head;
                let tail = if len_before < cap - head {
                    head + len_before
                } else {
                    len_before - (cap - head)
                };
                let slot = &mut self.buf[tail];
                *slot = Some(value);
                self.core.notify_rx();
                proof {
                    lemma_ring_bits(old(self)@.core.word, cap as u32);
                    let m0 = old(self)@;
                    assert forall|i: int| 0 <= i < m0.queue.len() + 1 implies self@.queue[i]
                        == m0.queue.push(value)[i] by {
                        if i < m0.queue.len() {
                            assert(ring_idx(old(self).head as int, i, cap as int) != tail as int);
                        }
                    }
                    assert(self@.queue =~= m0.queue.push(value));
                    assert(self@ =~~= spec_send(old(self)@, value).0);
                }
                Ok(())
            },
        }
    }

    /// Receiver: poll the stream.  Yields the oldest queued value, then —
    /// once the channel is complete and drained — the end of the stream;
    /// otherwise registers `token` and suspends.
    pub fn poll_next(&mut self, token: WakeToken) -> (r: Poll<Option<T>>)
        requires
            old(self).inv(),
        ensures
            final(self).inv(),
            final(self)@ == spec_poll_next(old(self)@, token).0,
            r == spec_poll_next(old(self)@, token).1,
    {
        proof {
            lemma_ring_bits(old(self)@.core.word, 0);
        }
        let step = self.core.update(0, ring_take_step);
        match step {
            Ok(_len_before) => {
                let head = self.head;
                let slot = &mut self.buf[head];
                let taken = slot.take();
                match taken {
                    Some(v) => {
                        let cap = self.buf.len();
                        self.head = if head + 1 == cap {
                            0
                        } else {
                            head + 1
                        };
                        self.core.discard(token);
                        proof {
                            let m0 = old(self)@;
                            assert forall|i: int| 0 <= i < m0.queue.len() - 1 implies self@.queue[i]
                                == m0.queue.subrange(1, m0.queue.len() as int)[i] by {
                                assert(ring_idx(self.head as int, i, cap as int) == ring_idx(
                                    old(self).head as int,
                                    i + 1,
                                    cap as int,
                                ));
                                assert(ring_idx(old(self).head as int, i + 1, cap as int)
                                    != old(self).head as int);
                            }
                            assert forall|i: int|
                                0 <= i < len_of(self.core@.word) as int implies self.buf@[ring_idx(
                                self.head as int,
                                i,
                                self.buf@.len() as int,
                            )] is Some by {
                                assert(ring_idx(self.head as int, i, cap as int) == ring_idx(
                                    old(self).head as int,
                                    i + 1,
                                    cap as int,
                                ));
                                assert(ring_idx(old(self).head as int, i + 1, cap as int)
                                    != old(self).head as int);
                            }
                            assert(self@.queue =~= m0.queue.subrange(1, m0.queue.len() as int));
                            assert(self@ =~~= spec_poll_next(old(self)@, token).0);
                        }
                        Poll::Ready(Some(v))
                    },
                    None => {
                        proof {
                            assert(false);
                        }
                        Poll::Pending
                    },
                }
            },
            Err(done) => {
                if done {
                    self.terminated = true;
                    self.core.discard(token);
                    proof {
                        assert(self@.queue =~= spec_poll_next(old(self)@, token).0.queue);
                        assert(self@ =~~= spec_poll_next(old(self)@, token).0);
                    }
                    Poll::Ready(None)
                } else {
                    let registered = self.core.register_rx(token);
                    match registered {
                        Poll::Pending => {
                            proof {
                                assert(self@.queue =~= spec_poll_next(old(self)@, token).0.queue);
                                assert(self@ =~~= spec_poll_next(old(self)@, token).0);
                            }
                            Poll::Pending
                        },
                        Poll::Ready(()) => {
                            proof {
                                assert(false);
                            }
                            Poll::Pending
                        },
                    }
                }
            },
        }
    }

    /// Receiver: poll the stream without registering a wake token.
    /// `Empty` stands where `poll_next` would suspend, `Canceled` where it
    /// would report the end of the stream.
    pub fn try_next(&mut self) -> (r: Result<T, TryNextError>)
        requires
            old(self).inv(),
        ensures
            final(self).inv(),
            final(self)@ == spec_try_next(old(self)@).0,
            r == spec_try_next(old(self)@).1,
    {
        proof {
            lemma_ring_bits(old(self)@.core.word, 0);
        }
        let step = self.core.update(0, ring_take_step);
        match step {
            Ok(_len_before) => {
                let head = self.head;
                let slot = &mut self.buf[head];
                let taken = slot.take();
                match taken {
                    Some(v) => {
                        let cap = self.buf.len();
                        self.head = if head + 1 == cap {
                            0
                        } else {
                            head + 1
                        };
                        proof {
                            let m0 = old(self)@;
                            assert forall|i: int| 0 <= i < m0.queue.len() - 1 implies self@.queue[i]
                                == m0.queue.subrange(1, m0.queue.len() as int)[i] by {
                                assert(ring_idx(self.head as int, i, cap as int) == ring_idx(
                                    old(self).head as int,
                                    i + 1,
                                    cap as int,
                                ));
                                assert(ring_idx(old(self).head as int, i + 1, cap as int)
                                    != old(self).head as int);
                            }
                            assert forall|i: int|
                                0 <= i < len_of(self.core@.word) as int implies self.buf@[ring_idx(
                                self.head as int,
                                i,
                                self.buf@.len() as int,
                            )] is Some by {
                                assert(ring_idx(self.head as int, i, cap as int) == ring_idx(
                                    old(self).head as int,
                                    i + 1,
                                    cap as int,
                                ));
                                assert(ring_idx(old(self).head as int, i + 1, cap as int)
                                    != old(self).head as int);
                            }
                            assert(self@.queue =~= m0.queue.subrange(1, m0.queue.len() as int));
                            assert(self@ =~~= spec_try_next(old(self)@).0);
                        }
                        Ok(v)
                    },
                    None => {
                        proof {
                            assert(false);
                        }
                        Err(TryNextError::Empty)
                    },
                }
            },
            Err(done) => {
                if done {
                    self.terminated = true;
                    proof {
                        assert(self@.queue =~= spec_try_next(old(self)@).0.queue);
                        assert(self@ =~~= spec_try_next(old(self)@).0);
                    }
                    Err(TryNextError::Canceled)
                } else {
                    proof {
                        assert(self@.queue =~= spec_try_next(old(self)@).0.queue);
                        assert(self@ =~~= spec_try_next(old(self)@).0);
                    }
                    Err(TryNextError::Empty)
                }
            },
        }
    }

    /// Receiver: close the channel early.  Queued values remain drainable;
    /// the sender's cancellation observer is woken.  At most `cap` values
    /// may be stranded and are dropped with the channel.
    pub fn close(&mut self)
        requires
            old(self).inv(),
        ensures
            final(self).inv(),
            final(self)@ == (ChannelModel {
                core: spec_close_half(old(self)@.core, Half::Tx),
                ..old(self)@
            }),
    {
        self.core.close_rx();
        proof {
            super::lemma_core_bits(old(self)@.core.word);
            assert(self@.queue =~= old(self)@.queue);
            assert(self@ =~~= (ChannelModel {
                core: spec_close_half(old(self)@.core, Half::Tx),
                ..old(self)@
            }));
        }
    }

    /// The tokens handed out for invocation so far, in order.  The runtime
    /// glue around the channel invokes each exactly once.
    pub fn woken_tokens(&self) -> (r: &Vec<WakeToken>)
        ensures
            r@ == self@.core.woken,
    {
        self.core.woken_tokens()
    }

    /// The tokens discarded without invocation so far, in order.
    pub fn dropped_tokens(&self) -> (r: &Vec<WakeToken>)
        ensures
            r@ == self@.core.dropped,
    {
        self.core.dropped_tokens()
    }

    /// Receiver: true once the end of the stream has been observed.
    pub fn is_terminated(&self) -> (r: bool)
        ensures
            r == self@.terminated,
    {
        self.terminated
    }

    /// Sender: true once the receiver has been dropped or has closed the
    /// channel.
    pub fn is_canceled(&self) -> (r: bool)
        ensures
            r == complete(self@.core.word),
    {
        self.core.is_canceled()
    }

    /// Sender: observe cancellation.  `Ready` once the channel is
    /// complete; otherwise registers `token`, which the receiver's
    /// disposal will invoke.
    pub fn poll_cancel(&mut self, token: WakeToken) -> (r: Poll<()>)
        requires
            old(self).inv(),
        ensures
            final(self).inv(),
            final(self)@ == (ChannelModel {
                core: spec_poll_cancel(old(self)@.core, token).0,
                ..old(self)@
            }),
            r == spec_poll_cancel(old(self)@.core, token).1,
    {
        let r = self.core.poll_cancel(token);
        proof {
            assert(self@.queue =~= old(self)@.queue);
            assert(self@ =~~= (ChannelModel {
                core: spec_poll_cancel(old(self)@.core, token).0,
                ..old(self)@
            }));
        }
        r
    }

    /// Sender's disposal: complete the channel and wake the receiver.
    /// Queued values remain drainable.
    pub fn drop_tx(&mut self)
        requires
            old(self).inv(),
        ensures
            final(self).inv(),
            final(self)@ == (ChannelModel {
                core: spec_close_half(old(self)@.core, Half::Rx),
                ..old(self)@
            }),
    {
        self.core.drop_tx();
        proof {
            super::lemma_core_bits(old(self)@.core.word);
            assert(self@.queue =~= old(self)@.queue);
            assert(self@ =~~= (ChannelModel {
                core: spec_close_half(old(self)@.core, Half::Rx),
                ..old(self)@
            }));
        }
    }

    /// Receiver's disposal: complete the channel, discard the receiver's
    /// stored token and wake the sender's cancellation observer.  Queued
    /// values are dropped with the channel.
    pub fn drop_rx(&mut self)
        requires
            old(self).inv(),
        ensures
            final(self).inv(),
            final(self)@ == (ChannelModel {
                core: spec_drop_rx(old(self)@.core),
                ..old(self)@
            }),
    {
        self.core.drop_rx();
        proof {
            super::lemma_drop_mask(old(self)@.core.word);
            super::lemma_core_bits(old(self)@.core.word);
            assert(self@.queue =~= old(self)@.queue);
            assert(self@ =~~= (ChannelModel {
                core: spec_drop_rx(old(self)@.core),
                ..old(self)@
            }));
        }
    }
}

/// The values yielded by repeatedly calling `try_next` until the queue is
/// exhausted, in order.
pub open spec fn spec_drain<T>(m: ChannelModel<T>) -> Seq<T>
    decreases m.queue.len(),
{
    if m.queue.len() > 0 {
        seq![m.queue[0]] + spec_drain(spec_try_next(m).0)
    } else {
        Seq::empty()
    }
}

/// FIFO delivery without loss or duplication: draining the receiver yields
/// exactly the queued values, in the order they were sent.
pub proof fn law_drain_yields_queue<T>(m: ChannelModel<T>)
    ensures
        spec_drain(m) == m.queue,
    decreases m.queue.len(),
{
    if m.queue.len() > 0 {
        law_drain_yields_queue(spec_try_next(m).0);
        assert(spec_drain(m) =~= m.queue);
    } else {
        assert(spec_drain(m) =~= m.queue);
    }
}

/// A successful send appends exactly its value: draining after it yields
/// the old queue with the value at the end, so nothing is lost, nothing is
/// duplicated and the order of earlier values is kept.
pub proof fn law_send_keeps_fifo_order<T>(m: ChannelModel<T>, v: T)
    requires
        !complete(m.core.word),
        m.queue.len() < m.cap,
    ensures
        spec_send(m, v).0.queue == m.queue.push(v),
        spec_drain(spec_send(m, v).0) == m.queue.push(v),
{
    law_drain_yields_queue(spec_send(m, v).0);
}

/// Once the channel is complete, polling first drains the remaining queued
/// values and then reports the end of the stream, never `Pending`; on an
/// empty queue the end is immediate and stable.
pub proof fn law_complete_drains_ring<T>(m: ChannelModel<T>, t1: WakeToken, t2: WakeToken)
    requires
        wf(m),
        complete(m.core.word),
    ensures
        !(spec_poll_next(m, t1).1 is Pending),
        m.queue.len() == 0 ==> ({
            let (m1, r1) = spec_poll_next(m, t1);
            &&& r1 == Poll::<Option<T>>::Ready(None)
            &&& m1.terminated
            &&& spec_poll_next(m1, t2).1 == Poll::<Option<T>>::Ready(None)
        }),
        m.queue.len() > 0 ==> ({
            let (m1, r1) = spec_poll_next(m, t1);
            &&& r1 == Poll::<Option<T>>::Ready(Some(m.queue[0]))
            &&& m1.queue.len() == m.queue.len() - 1
            &&& complete(m1.core.word)
        }),
{
    lemma_ring_bits(m.core.word, 0);
    if m.queue.len() > 0 {
        let w1 = word_with_len(m.core.word, (len_of(m.core.word) - 1) as u32);
        lemma_ring_bits(w1, 0);
        assert(complete(w1) == complete(m.core.word));
    }
}

/// A valid channel value has a valid abstract state.
pub proof fn law_inv_implies_wf<T>(c: &Channel<T>)
    requires
        c.inv(),
    ensures
        wf(c@),
{
}

/// Facts about the ring payload encoding in the state word.
proof fn lemma_ring_bits(w: u32, cap: u32)
    by (bit_vector)
    ensures
        len_of(w) <= LEN_MAX,
        (w & COMPLETE != 0) == complete(w),
        (w >> 3 > 0) == (len_of(w) > 0),
        forall|l: u32|
            l <= LEN_MAX ==> {
                &&& len_of(#[trigger] word_with_len(w, l)) == l
                &&& complete(word_with_len(w, l)) == complete(w)
                &&& rx_locked(word_with_len(w, l)) == rx_locked(w)
                &&& tx_locked(word_with_len(w, l)) == tx_locked(w)
            },
        len_of(0) == 0 && !complete(0) && !rx_locked(0) && !tx_locked(0),
{
}

} // verus!
