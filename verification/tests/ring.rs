//! Ring channel scenarios.

use drone_core::sync::spsc::ring::{channel, SendError, TryNextError};
use drone_core::sync::spsc::{Poll, WakeToken};

fn token(id: u32) -> WakeToken {
    WakeToken { id }
}

#[test]
fn ring_send_six_drain() {
    // Six unit values through a ring of capacity four, with drains
    // interleaved to relieve the backpressure: the drained sum is exactly
    // six and nothing is delivered out of order.
    let mut ch = channel::<u32>(4);
    let mut sum = 0;
    let mut sent = 0;
    while sent < 6 {
        match ch.send(1) {
            Ok(()) => sent += 1,
            Err(SendError::Full(_)) => {
                sum += ch.try_next().unwrap();
            }
            Err(SendError::Canceled(_)) => panic!(),
        }
    }
    ch.drop_tx();
    loop {
        match ch.try_next() {
            Ok(v) => sum += v,
            Err(TryNextError::Canceled) => break,
            Err(TryNextError::Empty) => panic!(),
        }
    }
    assert_eq!(sum, 6);
}

#[test]
fn ring_fifo_order() {
    let mut ch = channel::<u32>(4);
    for v in [10, 20, 30, 40] {
        assert_eq!(ch.send(v), Ok(()));
    }
    assert_eq!(ch.try_next(), Ok(10));
    assert_eq!(ch.try_next(), Ok(20));
    // Wrap around the ring: later sends reuse the freed slots.
    assert_eq!(ch.send(50), Ok(()));
    assert_eq!(ch.send(60), Ok(()));
    assert_eq!(ch.try_next(), Ok(30));
    assert_eq!(ch.try_next(), Ok(40));
    assert_eq!(ch.try_next(), Ok(50));
    assert_eq!(ch.try_next(), Ok(60));
    assert_eq!(ch.try_next(), Err(TryNextError::Empty));
}

#[test]
fn ring_full_hands_value_back() {
    let mut ch = channel::<u32>(1);
    assert_eq!(ch.send(7), Ok(()));
    assert_eq!(ch.send(8), Err(SendError::Full(8)));
    assert_eq!(ch.try_next(), Ok(7));
    assert_eq!(ch.send(8), Ok(()));
}

#[test]
fn ring_canceled_hands_value_back() {
    let mut ch = channel::<u32>(4);
    ch.drop_rx();
    assert_eq!(ch.send(7), Err(SendError::Canceled(7)));
}

#[test]
fn ring_drains_after_drop_tx() {
    let mut ch = channel::<u32>(4);
    assert_eq!(ch.send(1), Ok(()));
    assert_eq!(ch.send(2), Ok(()));
    ch.drop_tx();
    assert_eq!(ch.poll_next(token(1)), Poll::Ready(Some(1)));
    assert_eq!(ch.poll_next(token(2)), Poll::Ready(Some(2)));
    assert_eq!(ch.poll_next(token(3)), Poll::Ready(None));
    assert!(ch.is_terminated());
}

#[test]
fn ring_poll_registers_and_send_wakes() {
    let mut ch = channel::<u32>(4);
    assert_eq!(ch.poll_next(token(1)), Poll::Pending);
    assert_eq!(ch.send(5), Ok(()));
    assert_eq!(ch.woken_tokens().len(), 1);
    assert_eq!(ch.woken_tokens()[0], token(1));
    assert_eq!(ch.poll_next(token(2)), Poll::Ready(Some(5)));
}

#[test]
fn ring_close_keeps_values_drainable() {
    let mut ch = channel::<u32>(4);
    assert_eq!(ch.send(1), Ok(()));
    assert_eq!(ch.poll_cancel(token(1)), Poll::Pending);
    ch.close();
    // The close woke the sender's cancellation observer ...
    assert_eq!(ch.woken_tokens().len(), 1);
    assert_eq!(ch.woken_tokens()[0], token(1));
    assert_eq!(ch.poll_cancel(token(2)), Poll::Ready(()));
    // ... and the already-published value stays drainable.
    assert_eq!(ch.try_next(), Ok(1));
    assert_eq!(ch.try_next(), Err(TryNextError::Canceled));
}

#[test]
fn ring_cancellation_after_drop_rx() {
    let mut ch = channel::<u32>(4);
    assert_eq!(ch.poll_cancel(token(1)), Poll::Pending);
    ch.drop_rx();
    assert_eq!(ch.woken_tokens().len(), 1);
    assert_eq!(ch.woken_tokens()[0], token(1));
    assert_eq!(ch.poll_cancel(token(2)), Poll::Ready(()));
    assert!(ch.is_canceled());
}
