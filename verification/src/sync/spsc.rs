//! Single-producer, single-consumer channel cores.
//!
//! The three channel flavours ([`oneshot`], [`ring`] and [`pulse`]) share one
//! coordination layer, [`Core`]: a single state word holding the two
//! per-endpoint lock bits and the terminal `COMPLETE` bit (the bits above
//! them belong to the flavour's payload), plus the two wake-token slots
//! guarded by those lock bits.
//!
//! A wake token is an opaque handle obtained from the task runtime while it
//! polls an endpoint; invoking it later re-schedules that task.  The core
//! never invokes a token itself: it records every invocation in the `woken`
//! trace and every discarded token in the `dropped` trace, in order, and the
//! surrounding runtime glue performs the actual wake-ups.  Every state change
//! goes through the single transition primitive [`Core::update`], which
//! applies a pure transition function to the state word and commits the new
//! word with one exchange; with a unique owner per endpoint the exchange
//! succeeds on the first attempt, so every operation completes in a bounded
//! number of transitions.

use vstd::prelude::*;

pub mod oneshot;
pub mod pulse;
pub mod ring;

verus! {

/// Bit of the state word guarding the receiver's wake-token slot.
pub const RX_LOCK: u32 = 0x1;

/// Bit of the state word guarding the sender's wake-token slot.
pub const TX_LOCK: u32 = 0x2;

/// Terminal bit of the state word: once set it is never cleared, the channel
/// accepts no further values, and every poll drains to termination.
pub const COMPLETE: u32 = 0x4;

/// An opaque wake token registered by a polling task.
///
/// The runtime hands one in at each poll; the core stores at most one per
/// endpoint and reports through [`CoreModel::woken`] which tokens must be
/// invoked.
#[derive(Debug, PartialEq, Eq, Structural)]
pub struct WakeToken {
    /// Identifies the registration that produced this token.
    pub id: u32,
}

/// Outcome of polling an endpoint: either a result, or a promise that the
/// registered wake token fires when progress may have occurred.
#[derive(Debug, PartialEq, Eq)]
pub enum Poll<T> {
    /// The operation finished with this result.
    Ready(T),
    /// No progress possible now; exactly one wake token was registered.
    Pending,
}

/// Which endpoint's wake-token slot an operation works on.
#[derive(Clone, Copy, Debug, PartialEq, Eq, Structural)]
pub enum Half {
    /// The receiver's slot, guarded by [`RX_LOCK`].
    Rx,
    /// The sender's slot, guarded by [`TX_LOCK`].
    Tx,
}

/// True when the receiver's slot is locked in `w`.
pub open spec fn rx_locked(w: u32) -> bool {
    w & RX_LOCK != 0
}

/// True when the sender's slot is locked in `w`.
pub open spec fn tx_locked(w: u32) -> bool {
    w & TX_LOCK != 0
}

/// True when the channel is terminally closed in `w`.
pub open spec fn complete(w: u32) -> bool {
    w & COMPLETE != 0
}

/// The flavour-specific bits of the state word, above the three core bits.
pub open spec fn payload_bits(w: u32) -> u32 {
    w >> 3
}

/// Abstract state of a [`Core`]: the state word, the two token slots, and
/// the traces of woken and discarded tokens.
#[verifier::ext_equal]
pub ghost struct CoreModel {
    /// The state word.
    pub word: u32,
    /// Token registered by the receiver's poll, if any.
    pub rx_task: Option<WakeToken>,
    /// Token registered by the sender's cancellation observer, if any.
    pub tx_task: Option<WakeToken>,
    /// Every token handed out for invocation, in order.
    pub woken: Seq<WakeToken>,
    /// Every token discarded without invocation, in order.
    pub dropped: Seq<WakeToken>,
}

/// True when `half`'s slot is locked in `w`.
pub open spec fn half_locked(w: u32, half: Half) -> bool {
    match half {
        Half::Rx => rx_locked(w),
        Half::Tx => tx_locked(w),
    }
}

/// Transition of the sender's cancellation observer, `poll_cancel`: register
/// `t` under `TX_LOCK`, unless the channel is already complete (or the slot
/// is locked), in which case the poll is already resolved and `t` is
/// discarded.
pub open spec fn spec_poll_cancel(m: CoreModel, t: WakeToken) -> (CoreModel, Poll<()>) {
    if complete(m.word) || tx_locked(m.word) {
        (CoreModel { dropped: m.dropped.push(t), ..m }, Poll::Ready(()))
    } else {
        let dropped = match m.tx_task {
            Some(prev) => m.dropped.push(prev),
            None => m.dropped,
        };
        (CoreModel { tx_task: Some(t), dropped, ..m }, Poll::<()>::Pending)
    }
}

/// Transition of the receiver's registration step: register `t` under
/// `RX_LOCK`, unless the channel is already complete (or the slot is
/// locked), in which case the poll is already resolved and `t` is discarded.
pub open spec fn spec_register_rx(m: CoreModel, t: WakeToken) -> (CoreModel, Poll<()>) {
    if complete(m.word) || rx_locked(m.word) {
        (CoreModel { dropped: m.dropped.push(t), ..m }, Poll::Ready(()))
    } else {
        let dropped = match m.rx_task {
            Some(prev) => m.dropped.push(prev),
            None => m.dropped,
        };
        (CoreModel { rx_task: Some(t), dropped, ..m }, Poll::<()>::Pending)
    }
}

/// Transition of an endpoint's disposal towards the opposite half: set
/// `COMPLETE` and, if the opposite slot is not locked by its owner, take the
/// stored token for invocation.
pub open spec fn spec_close_half(m: CoreModel, half: Half) -> CoreModel {
    if !half_locked(m.word, half) {
        let slot = match half {
            Half::Rx => m.rx_task,
            Half::Tx => m.tx_task,
        };
        let woken = match slot {
            Some(t) => m.woken.push(t),
            None => m.woken,
        };
        CoreModel {
            word: m.word | COMPLETE,
            rx_task: match half {
                Half::Rx => None,
                Half::Tx => m.rx_task,
            },
            tx_task: match half {
                Half::Rx => m.tx_task,
                Half::Tx => None,
            },
            woken,
            dropped: m.dropped,
        }
    } else if !complete(m.word) {
        CoreModel { word: m.word | COMPLETE, ..m }
    } else {
        m
    }
}

/// Transition of the receiver's disposal: set `COMPLETE`, discard the
/// receiver's own stored token, and take the sender's stored token for
/// invocation — each slot only if it is not currently locked.
pub open spec fn spec_drop_rx(m: CoreModel) -> CoreModel {
    if !rx_locked(m.word) || !tx_locked(m.word) {
        let dropped = if !rx_locked(m.word) {
            match m.rx_task {
                Some(t) => m.dropped.push(t),
                None => m.dropped,
            }
        } else {
            m.dropped
        };
        let woken = if !tx_locked(m.word) {
            match m.tx_task {
                Some(t) => m.woken.push(t),
                None => m.woken,
            }
        } else {
            m.woken
        };
        CoreModel {
            word: m.word | COMPLETE,
            rx_task: if !rx_locked(m.word) {
                None
            } else {
                m.rx_task
            },
            tx_task: if !tx_locked(m.word) {
                None
            } else {
                m.tx_task
            },
            woken,
            dropped,
        }
    } else if !complete(m.word) {
        CoreModel { word: m.word | COMPLETE, ..m }
    } else {
        m
    }
}

/// Transition recording a token that resolved a poll without being stored:
/// it is discarded, never invoked.
pub open spec fn spec_discard(m: CoreModel, t: WakeToken) -> CoreModel {
    CoreModel { dropped: m.dropped.push(t), ..m }
}

/// Transition of a sender's wake-up after publishing payload: take the
/// receiver's stored token for invocation, if its slot is not locked.
pub open spec fn spec_notify_rx(m: CoreModel) -> CoreModel {
    if !rx_locked(m.word) {
        match m.rx_task {
            Some(t) => CoreModel { rx_task: None, woken: m.woken.push(t), ..m },
            None => m,
        }
    } else {
        m
    }
}

/// First transition of `poll_cancel`: take `TX_LOCK`, or reject when the
/// channel is complete or the lock is already held.
pub open spec fn spec_cancel_lock_step(w: u32) -> Result<(u32, u32), ()> {
    if complete(w) || tx_locked(w) {
        Err(())
    } else {
        Ok((w | TX_LOCK, w | TX_LOCK))
    }
}

/// First transition of `register_rx`: take `RX_LOCK`, or reject when the
/// channel is complete or the lock is already held.
pub open spec fn spec_register_lock_step(w: u32) -> Result<(u32, u32), ()> {
    if complete(w) || rx_locked(w) {
        Err(())
    } else {
        Ok((w | RX_LOCK, w | RX_LOCK))
    }
}

/// Transition of `close_half`: capture the opposite slot if free, else just
/// set `COMPLETE`, else reject an already-complete word.
pub open spec fn spec_close_lock_step(w: u32, lock: u32) -> Result<(u32, bool), ()> {
    if w & lock == 0 {
        Ok((w | lock | COMPLETE, true))
    } else if !complete(w) {
        Ok((w | COMPLETE, false))
    } else {
        Err(())
    }
}

/// The capture mask of `drop_rx`: the lock bits that are free in `w`.
pub open spec fn spec_drop_capture_mask(w: u32) -> u32 {
    (if !tx_locked(w) {
        TX_LOCK
    } else {
        0
    }) | (if !rx_locked(w) {
        RX_LOCK
    } else {
        0
    })
}

/// Transition of `drop_rx`: capture every free slot and set `COMPLETE`,
/// else just set `COMPLETE`, else reject an already-complete word.
pub open spec fn spec_drop_lock_step(w: u32) -> Result<(u32, u32), ()> {
    let mask = spec_drop_capture_mask(w);
    if mask != 0 {
        Ok((w | mask | COMPLETE, mask))
    } else if !complete(w) {
        Ok((w | COMPLETE, 0))
    } else {
        Err(())
    }
}

/// Transition of `notify_rx`: take `RX_LOCK` if free; the witness is the
/// word before locking, to which the release returns.
pub open spec fn spec_notify_lock_step(w: u32) -> Result<(u32, u32), ()> {
    if !rx_locked(w) {
        Ok((w | RX_LOCK, w))
    } else {
        Err(())
    }
}

/// Transition releasing the lock bits in `mask`: flip them back off.
pub open spec fn spec_release_step(w: u32, mask: u32) -> Result<(u32, u32), ()> {
    Ok((w ^ mask, w ^ mask))
}

/// Pure transition function of `poll_cancel`'s locking step; the second
/// argument is unused.
fn cancel_lock_step(w: u32, _arg: u32) -> (r: Result<(u32, u32), ()>)
    ensures
        r == spec_cancel_lock_step(w),
{
    proof {
        lemma_core_bits(w);
    }
    if w & (COMPLETE | TX_LOCK) != 0 {
        Err(())
    } else {
        Ok((w | TX_LOCK, w | TX_LOCK))
    }
}

/// Pure transition function of `register_rx`'s locking step; the second
/// argument is unused.
fn register_lock_step(w: u32, _arg: u32) -> (r: Result<(u32, u32), ()>)
    ensures
        r == spec_register_lock_step(w),
{
    proof {
        lemma_core_bits(w);
    }
    if w & (COMPLETE | RX_LOCK) != 0 {
        Err(())
    } else {
        Ok((w | RX_LOCK, w | RX_LOCK))
    }
}

/// Pure transition function of `close_half`'s disposal step, for the slot
/// guarded by `lock`.
fn close_lock_step(w: u32, lock: u32) -> (r: Result<(u32, bool), ()>)
    ensures
        r == spec_close_lock_step(w, lock),
{
    if w & lock == 0 {
        Ok((w | lock | COMPLETE, true))
    } else if w & COMPLETE == 0 {
        Ok((w | COMPLETE, false))
    } else {
        Err(())
    }
}

/// Pure transition function of `drop_rx`'s capture step; the second
/// argument is unused.
fn drop_lock_step(w: u32, _arg: u32) -> (r: Result<(u32, u32), ()>)
    ensures
        r == spec_drop_lock_step(w),
{
    proof {
        lemma_drop_mask(w);
    }
    let tx_free = w & TX_LOCK == 0;
    let rx_free = w & RX_LOCK == 0;
    let mask: u32 = if tx_free && rx_free {
        0x3
    } else if tx_free {
        TX_LOCK
    } else if rx_free {
        RX_LOCK
    } else {
        0
    };
    if mask != 0 {
        Ok((w | mask | COMPLETE, mask))
    } else if w & COMPLETE == 0 {
        Ok((w | COMPLETE, 0))
    } else {
        Err(())
    }
}

/// Pure transition function of `notify_rx`'s locking step; the second
/// argument is unused.
fn notify_lock_step(w: u32, _arg: u32) -> (r: Result<(u32, u32), ()>)
    ensures
        r == spec_notify_lock_step(w),
{
    proof {
        lemma_core_bits(w);
    }
    if w & RX_LOCK == 0 {
        Ok((w | RX_LOCK, w))
    } else {
        Err(())
    }
}

/// Pure transition function releasing the lock bits in `mask`.
fn release_step(w: u32, mask: u32) -> (r: Result<(u32, u32), ()>)
    ensures
        r == spec_release_step(w, mask),
{
    Ok((w ^ mask, w ^ mask))
}

/// Shared coordination layer of the channel flavours.
///
/// Holds the state word and the two wake-token slots.  The payload bits of
/// the state word (everything above the three core bits) are owned by the
/// flavour built on top and are preserved by every operation here.
pub struct Core {
    word: u32,
    rx_task: Option<WakeToken>,
    tx_task: Option<WakeToken>,
    woken: Vec<WakeToken>,
    dropped: Vec<WakeToken>,
}

impl View for Core {
    type V = CoreModel;

    closed spec fn view(&self) -> CoreModel {
        CoreModel {
            word: self.word,
            rx_task: self.rx_task,
            tx_task: self.tx_task,
            woken: self.woken@,
            dropped: self.dropped@,
        }
    }
}

impl Core {
    /// A fresh core: state word zero, both slots empty, empty traces.
    pub fn new() -> (c: Core)
        ensures
            c@ == (CoreModel {
                word: 0,
                rx_task: None,
                tx_task: None,
                woken: Seq::<WakeToken>::empty(),
                dropped: Seq::<WakeToken>::empty(),
            }),
    {
        let c = Core {
            word: 0,
            rx_task: None,
            tx_task: None,
            woken: Vec::new(),
            dropped: Vec::new(),
        };
        proof {
            assert(c@ =~= CoreModel {
                word: 0,
                rx_task: None,
                tx_task: None,
                woken: Seq::<WakeToken>::empty(),
                dropped: Seq::<WakeToken>::empty(),
            });
        }
        c
    }

    /// The transition primitive: apply the pure transition function `f` to
    /// the current state word (passing `arg` through to it) and commit the
    /// word it proposes, or change nothing when `f` rejects the state.  The
    /// witness accompanying the new word is handed back to the caller.
    ///
    /// With a single owner per endpoint the committing exchange cannot be
    /// contended, so one attempt suffices and no retry is needed.
    pub fn update<R, EE, F: Fn(u32, u32) -> Result<(u32, R), EE>>(
        &mut self,
        arg: u32,
        f: F,
    ) -> (r: Result<R, EE>)
        requires
            f.requires((old(self)@.word, arg)),
        ensures
            final(self)@.rx_task == old(self)@.rx_task,
            final(self)@.tx_task == old(self)@.tx_task,
            final(self)@.woken == old(self)@.woken,
            final(self)@.dropped == old(self)@.dropped,
            match r {
                Ok(witness) => f.ensures(
                    (old(self)@.word, arg),
                    Ok((final(self)@.word, witness)),
                ),
                Err(e) => final(self)@.word == old(self)@.word && f.ensures(
                    (old(self)@.word, arg),
                    Err(e),
                ),
            },
    {
        match f(self.word, arg) {
            Ok((new_word, witness)) => {
                self.word = new_word;
                Ok(witness)
            },
            Err(e) => Err(e),
        }
    }

    /// True when the channel is terminally closed.
    pub fn is_canceled(&self) -> (r: bool)
        ensures
            r == complete(self@.word),
    {
        self.word & COMPLETE != 0
    }

    /// Register `token` as the sender's cancellation observer.
    ///
    /// Returns `Ready` when the receiver is already gone — then `token` is
    /// discarded, and a second poll keeps returning `Ready`.  Returns
    /// `Pending` after storing `token` under `TX_LOCK`; the receiver's
    /// disposal will take the stored token and invoke it.
    pub fn poll_cancel(&mut self, token: WakeToken) -> (r: Poll<()>)
        ensures
            final(self)@ == spec_poll_cancel(old(self)@, token).0,
            r == spec_poll_cancel(old(self)@, token).1,
    {
        proof {
            lemma_core_bits(old(self)@.word);
        }
        let step = self.update(0, cancel_lock_step);
        match step {
            Err(()) => {
                self.dropped.push(token);
                proof {
                    assert(self@ =~= spec_poll_cancel(old(self)@, token).0);
                }
                Poll::Ready(())
            },
            Ok(observed) => {
                let prev = self.tx_task.take();
                match prev {
                    Some(p) => self.dropped.push(p),
                    None => (),
                }
                self.tx_task = Some(token);
                proof {
                    lemma_core_bits(old(self)@.word);
                }
                let release = self.update(TX_LOCK, release_step);
                match release {
                    Ok(after) => {
                        proof {
                            assert(self@ =~= spec_poll_cancel(old(self)@, token).0);
                        }
                        if after & COMPLETE != 0 {
                            Poll::Ready(())
                        } else {
                            Poll::Pending
                        }
                    },
                    Err(()) => {
                        proof {
                            assert(false);
                        }
                        Poll::Pending
                    },
                }
            },
        }
    }

    /// Register `token` as the receiver's poll observer.
    ///
    /// Returns `Ready` when the channel is already complete — the caller
    /// re-reads the payload and resolves the poll — and `Pending` after
    /// storing `token` under `RX_LOCK`.
    pub fn register_rx(&mut self, token: WakeToken) -> (r: Poll<()>)
        ensures
            final(self)@ == spec_register_rx(old(self)@, token).0,
            r == spec_register_rx(old(self)@, token).1,
    {
        proof {
            lemma_core_bits(old(self)@.word);
        }
        let step = self.update(0, register_lock_step);
        match step {
            Err(()) => {
                self.dropped.push(token);
                proof {
                    assert(self@ =~= spec_register_rx(old(self)@, token).0);
                }
                Poll::Ready(())
            },
            Ok(_observed) => {
                let prev = self.rx_task.take();
                match prev {
                    Some(p) => self.dropped.push(p),
                    None => (),
                }
                self.rx_task = Some(token);
                proof {
                    lemma_core_bits(old(self)@.word);
                }
                let release = self.update(RX_LOCK, release_step);
                match release {
                    Ok(_after) => {
                        proof {
                            assert(self@ =~= spec_register_rx(old(self)@, token).0);
                        }
                        Poll::Pending
                    },
                    Err(()) => {
                        proof {
                            assert(false);
                        }
                        Poll::Pending
                    },
                }
            },
        }
    }

    /// Dispose towards the opposite endpoint: set `COMPLETE` and, when
    /// `half`'s slot is free, forcibly take it, hand its token out for
    /// invocation and release the lock again.  When the slot's owner holds
    /// its lock, only `COMPLETE` is set: the owner notices it on release.
    pub fn close_half(&mut self, half: Half)
        ensures
            final(self)@ == spec_close_half(old(self)@, half),
    {
        let lock: u32 = match half {
            Half::Rx => RX_LOCK,
            Half::Tx => TX_LOCK,
        };
        proof {
            lemma_lock_word(old(self)@.word, lock);
        }
        let step = self.update(lock, close_lock_step);
        match step {
            Ok(captured) => {
                if captured {
                    let taken = match half {
                        Half::Rx => self.rx_task.take(),
                        Half::Tx => self.tx_task.take(),
                    };
                    match taken {
                        Some(t) => self.woken.push(t),
                        None => (),
                    }
                    proof {
                        lemma_lock_word(old(self)@.word, lock);
                    }
                    let _ = self.update(lock, release_step);
                    proof {
                        assert(self@ =~= spec_close_half(old(self)@, half));
                    }
                } else {
                    proof {
                        assert(self@ =~= spec_close_half(old(self)@, half));
                    }
                }
            },
            Err(()) => {
                proof {
                    assert(self@ =~= spec_close_half(old(self)@, half));
                }
            },
        }
    }

    /// The receiver's disposal: set `COMPLETE`, discard the receiver's own
    /// stored token and hand the sender's stored token out for invocation —
    /// each slot only if it could be captured.
    pub fn drop_rx(&mut self)
        ensures
            final(self)@ == spec_drop_rx(old(self)@),
    {
        proof {
            lemma_drop_mask(old(self)@.word);
        }
        let step = self.update(0, drop_lock_step);
        match step {
            Ok(mask) => {
                if mask != 0 {
                    if mask & RX_LOCK != 0 {
                        let taken = self.rx_task.take();
                        match taken {
                            Some(t) => self.dropped.push(t),
                            None => (),
                        }
                    }
                    if mask & TX_LOCK != 0 {
                        let taken = self.tx_task.take();
                        match taken {
                            Some(t) => self.woken.push(t),
                            None => (),
                        }
                    }
                    proof {
                        lemma_drop_mask(old(self)@.word);
                    }
                    let _ = self.update(mask, release_step);
                    proof {
                        assert(self@ =~= spec_drop_rx(old(self)@));
                    }
                } else {
                    proof {
                        assert(self@ =~= spec_drop_rx(old(self)@));
                    }
                }
            },
            Err(()) => {
                proof {
                    assert(self@ =~= spec_drop_rx(old(self)@));
                }
            },
        }
    }

    /// The tokens handed out for invocation so far, in order.  The runtime
    /// glue around the channel invokes each exactly once.
    pub fn woken_tokens(&self) -> (r: &Vec<WakeToken>)
        ensures
            r@ == self@.woken,
    {
        &self.woken
    }

    /// The tokens discarded without invocation so far, in order.
    pub fn dropped_tokens(&self) -> (r: &Vec<WakeToken>)
        ensures
            r@ == self@.dropped,
    {
        &self.dropped
    }

    /// Record that `token` resolved a poll without being stored: the
    /// endpoint discards it instead of registering it.
    pub fn discard(&mut self, token: WakeToken)
        ensures
            final(self)@ == spec_discard(old(self)@, token),
    {
        self.dropped.push(token);
        proof {
            assert(self@ =~= spec_discard(old(self)@, token));
        }
    }

    /// The sender's disposal: dispose towards the receiver's half.  The
    /// receiver's stored poll token, if free, is handed out for invocation.
    pub fn drop_tx(&mut self)
        ensures
            final(self)@ == spec_close_half(old(self)@, Half::Rx),
    {
        self.close_half(Half::Rx);
    }

    /// The receiver's polite early closure: dispose towards the sender's
    /// half, waking its cancellation observer.
    pub fn close_rx(&mut self)
        ensures
            final(self)@ == spec_close_half(old(self)@, Half::Tx),
    {
        self.close_half(Half::Tx);
    }

    /// Take the receiver's stored token for invocation after publishing
    /// payload, if its slot is free.  The state word is left unchanged.
    pub fn notify_rx(&mut self)
        ensures
            final(self)@ == spec_notify_rx(old(self)@),
    {
        proof {
            lemma_core_bits(old(self)@.word);
        }
        let step = self.update(0, notify_lock_step);
        match step {
            Ok(_observed) => {
                let taken = self.rx_task.take();
                match taken {
                    Some(t) => self.woken.push(t),
                    None => (),
                }
                proof {
                    lemma_core_bits(old(self)@.word);
                }
                let _ = self.update(RX_LOCK, release_step);
                proof {
                    assert(self@ =~= spec_notify_rx(old(self)@));
                }
            },
            Err(()) => {
                proof {
                    assert(self@ =~= spec_notify_rx(old(self)@));
                }
            },
        }
    }
}

/// The number of tokens stored in a slot: zero or one.
pub open spec fn slot_count(s: Option<WakeToken>) -> int {
    match s {
        Some(_) => 1,
        None => 0,
    }
}

/// Once `COMPLETE` is set it is never cleared: every disposal leaves the
/// word complete, and every other core transition leaves the word itself
/// unchanged.
pub proof fn law_complete_is_terminal(m: CoreModel, t: WakeToken, half: Half)
    ensures
        spec_poll_cancel(m, t).0.word == m.word,
        spec_register_rx(m, t).0.word == m.word,
        spec_notify_rx(m).word == m.word,
        spec_discard(m, t).word == m.word,
        complete(spec_close_half(m, half).word),
        complete(spec_drop_rx(m).word),
        complete(m.word) ==> complete(spec_close_half(m, half).word) && complete(
            spec_drop_rx(m).word,
        ),
{
    lemma_core_bits(m.word);
}

/// The payload bits of the state word belong to the flavour: no core
/// transition changes them.
pub proof fn law_core_preserves_payload(m: CoreModel, t: WakeToken, half: Half)
    ensures
        payload_bits(spec_poll_cancel(m, t).0.word) == payload_bits(m.word),
        payload_bits(spec_register_rx(m, t).0.word) == payload_bits(m.word),
        payload_bits(spec_notify_rx(m).word) == payload_bits(m.word),
        payload_bits(spec_discard(m, t).word) == payload_bits(m.word),
        payload_bits(spec_close_half(m, half).word) == payload_bits(m.word),
        payload_bits(spec_drop_rx(m).word) == payload_bits(m.word),
{
    lemma_core_bits(m.word);
}

/// One endpoint operation, at the granularity the model takes to be
/// atomic.
pub enum CoreOp {
    /// The sender registers a cancellation observer.
    PollCancel(WakeToken),
    /// The receiver registers a poll observer.
    RegisterRx(WakeToken),
    /// An endpoint disposes towards the opposite half.
    CloseHalf(Half),
    /// The receiver's disposal.
    DropRx,
    /// The sender wakes the receiver after publishing payload.
    NotifyRx,
    /// An endpoint discards a token that resolved a poll unstored.
    Discard(WakeToken),
}

/// The state after one operation.
pub open spec fn spec_step(m: CoreModel, op: CoreOp) -> CoreModel {
    match op {
        CoreOp::PollCancel(t) => spec_poll_cancel(m, t).0,
        CoreOp::RegisterRx(t) => spec_register_rx(m, t).0,
        CoreOp::CloseHalf(h) => spec_close_half(m, h),
        CoreOp::DropRx => spec_drop_rx(m),
        CoreOp::NotifyRx => spec_notify_rx(m),
        CoreOp::Discard(t) => spec_discard(m, t),
    }
}

/// The state after a sequence of operations — any interleaving of the two
/// endpoints' calls.
pub open spec fn spec_run(m: CoreModel, ops: Seq<CoreOp>) -> CoreModel
    decreases ops.len(),
{
    if ops.len() == 0 {
        m
    } else {
        spec_run(spec_step(m, ops[0]), ops.subrange(1, ops.len() as int))
    }
}

/// Under every interleaving of the two endpoints' operations, a state with
/// both locks released stays that way, `COMPLETE` is never cleared, and
/// the traces of woken and discarded tokens only grow: no recorded
/// invocation is ever retracted.
pub proof fn law_any_interleaving_is_stable(m: CoreModel, ops: Seq<CoreOp>)
    requires
        !rx_locked(m.word),
        !tx_locked(m.word),
    ensures
        !rx_locked(spec_run(m, ops).word),
        !tx_locked(spec_run(m, ops).word),
        complete(m.word) ==> complete(spec_run(m, ops).word),
        spec_run(m, ops).woken.len() >= m.woken.len(),
        spec_run(m, ops).dropped.len() >= m.dropped.len(),
    decreases ops.len(),
{
    if ops.len() > 0 {
        lemma_core_bits(m.word);
        law_any_interleaving_is_stable(spec_step(m, ops[0]), ops.subrange(1, ops.len() as int));
    }
}

/// After both endpoints are disposed, in either order, no wake token
/// remains stored in the core: both slots are empty, and every token that
/// was stored has moved to the `woken` or the `dropped` trace — invoked or
/// discarded exactly once.
pub proof fn law_disposal_strands_no_token(m: CoreModel, rx_first: bool)
    requires
        !rx_locked(m.word),
        !tx_locked(m.word),
    ensures
        ({
            let f = if rx_first {
                spec_close_half(spec_drop_rx(m), Half::Rx)
            } else {
                spec_drop_rx(spec_close_half(m, Half::Rx))
            };
            &&& f.rx_task is None
            &&& f.tx_task is None
            &&& f.woken.len() + f.dropped.len() == m.woken.len() + m.dropped.len() + slot_count(
                m.rx_task,
            ) + slot_count(m.tx_task)
        }),
{
    lemma_core_bits(m.word);
    lemma_core_bits(m.word | COMPLETE);
}

/// The guarantee behind `poll_cancel`: once the receiver has been dropped
/// or has closed the channel the word is complete, a complete word makes
/// `poll_cancel` return `Ready` at once without storing the token, and it
/// keeps doing so on every later poll.
pub proof fn law_cancellation_observed(m: CoreModel, t: WakeToken, t2: WakeToken)
    ensures
        complete(spec_drop_rx(m).word),
        complete(spec_close_half(m, Half::Tx).word),
        complete(m.word) ==> spec_poll_cancel(m, t).1 == Poll::<()>::Ready(()),
        complete(m.word) ==> spec_poll_cancel(m, t).0.word == m.word,
        complete(m.word) ==> spec_poll_cancel(spec_poll_cancel(m, t).0, t2).1 == Poll::<
            (),
        >::Ready(()),
{
    lemma_core_bits(m.word);
}

/// The other side of that guarantee: a cancellation token stored while the
/// channel was still open is invoked by the receiver's disposal.
pub proof fn law_stored_cancel_token_is_woken(m: CoreModel, t: WakeToken)
    requires
        !rx_locked(m.word),
        !tx_locked(m.word),
        !complete(m.word),
    ensures
        ({
            let m1 = spec_poll_cancel(m, t).0;
            spec_drop_rx(m1).woken == m1.woken.push(t)
        }),
{
    lemma_core_bits(m.word);
}

/// Facts about the three core bits of a state word.
pub proof fn lemma_core_bits(w: u32)
    by (bit_vector)
    ensures
        (w & (COMPLETE | TX_LOCK) != 0) == (complete(w) || tx_locked(w)),
        (w & (COMPLETE | RX_LOCK) != 0) == (complete(w) || rx_locked(w)),
        complete(w | COMPLETE),
        rx_locked(w | COMPLETE) == rx_locked(w),
        tx_locked(w | COMPLETE) == tx_locked(w),
        payload_bits(w | COMPLETE) == payload_bits(w),
        !tx_locked(w) ==> (w | TX_LOCK) ^ TX_LOCK == w,
        !rx_locked(w) ==> (w | RX_LOCK) ^ RX_LOCK == w,
        complete(w | TX_LOCK) == complete(w),
        complete(w | RX_LOCK) == complete(w),
        payload_bits(w | TX_LOCK) == payload_bits(w),
        payload_bits(w | RX_LOCK) == payload_bits(w),
        !rx_locked(0) && !tx_locked(0) && !complete(0) && payload_bits(0) == 0,
{
}

/// Facts about taking and releasing one lock bit together with `COMPLETE`.
pub proof fn lemma_lock_word(w: u32, lock: u32)
    by (bit_vector)
    requires
        lock == RX_LOCK || lock == TX_LOCK,
    ensures
        w & lock == 0 ==> ((w | lock | COMPLETE) ^ lock) == (w | COMPLETE),
        w & RX_LOCK == 0 ==> !rx_locked(w),
        w & RX_LOCK != 0 ==> rx_locked(w),
        w & TX_LOCK == 0 ==> !tx_locked(w),
        w & TX_LOCK != 0 ==> tx_locked(w),
        complete(w | COMPLETE),
        payload_bits(w | COMPLETE) == payload_bits(w),
        rx_locked(w | COMPLETE) == rx_locked(w),
        tx_locked(w | COMPLETE) == tx_locked(w),
        !rx_locked(w) ==> ((w | RX_LOCK) ^ RX_LOCK) == w,
{
}

/// Facts about the capture mask of `drop_rx`.
pub proof fn lemma_drop_mask(w: u32)
    by (bit_vector)
    ensures
        spec_drop_capture_mask(w) == ((if w & TX_LOCK == 0 {
            TX_LOCK
        } else {
            0u32
        }) | (if w & RX_LOCK == 0 {
            RX_LOCK
        } else {
            0u32
        })),
        (w & TX_LOCK == 0 && w & RX_LOCK == 0) ==> spec_drop_capture_mask(w) == 0x3,
        (w & TX_LOCK == 0 && w & RX_LOCK != 0) ==> spec_drop_capture_mask(w) == TX_LOCK,
        (w & TX_LOCK != 0 && w & RX_LOCK == 0) ==> spec_drop_capture_mask(w) == RX_LOCK,
        (w & TX_LOCK != 0 && w & RX_LOCK != 0) ==> spec_drop_capture_mask(w) == 0,
        (spec_drop_capture_mask(w) != 0) == (!rx_locked(w) || !tx_locked(w)),
        (spec_drop_capture_mask(w) & RX_LOCK != 0) == !rx_locked(w),
        (spec_drop_capture_mask(w) & TX_LOCK != 0) == !tx_locked(w),
        w & spec_drop_capture_mask(w) == 0,
        ((w | spec_drop_capture_mask(w) | COMPLETE) ^ spec_drop_capture_mask(w)) == (w
            | COMPLETE),
        complete(w | COMPLETE),
        payload_bits(w | COMPLETE) == payload_bits(w),
{
}

} // verus!
