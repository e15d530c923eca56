//! Pulse channel scenarios: every meaningful ordering of the two
//! endpoints' operations is run explicitly, and the outcome of each is
//! checked, including which wake tokens were handed out for invocation.

use drone_core::sync::spsc::pulse::{channel, SendError, TryNextError, COUNT_MAX};
use drone_core::sync::spsc::{Poll, WakeToken};

fn token(id: u32) -> WakeToken {
    WakeToken { id }
}

#[test]
fn loom_drop() {
    // Sender side disposed first.
    let mut ch = channel::<u32>();
    ch.drop_tx();
    ch.drop_rx();
    assert!(ch.is_canceled());
    // Receiver side disposed first.
    let mut ch = channel::<u32>();
    ch.drop_rx();
    ch.drop_tx();
    assert!(ch.is_canceled());
}

#[test]
fn loom_try_next() {
    // Receiver tries before the sender is gone: empty, not terminal.
    let mut ch = channel::<u32>();
    assert_eq!(ch.try_next(), Err(TryNextError::Empty));
    ch.drop_tx();
    // Receiver tries after the sender is gone: terminal.
    let mut ch = channel::<u32>();
    ch.drop_tx();
    assert_eq!(ch.try_next(), Err(TryNextError::Canceled));
}

#[test]
fn loom_next() {
    // Sender gone first: the first poll already ends the stream.
    let mut ch = channel::<u32>();
    ch.drop_tx();
    assert_eq!(ch.poll_next(token(1)), Poll::Ready(None));
    assert!(ch.is_terminated());
    // Poll first: it suspends, the sender's disposal wakes the stored
    // token, and the next poll ends the stream.
    let mut ch = channel::<u32>();
    assert_eq!(ch.poll_next(token(1)), Poll::Pending);
    ch.drop_tx();
    assert_eq!(ch.woken_tokens().len(), 1);
    assert_eq!(ch.woken_tokens()[0], token(1));
    assert_eq!(ch.poll_next(token(2)), Poll::Ready(None));
    assert!(ch.is_terminated());
    // Two polls before the disposal: the second registration replaces the
    // first token, and the disposal wakes the replacement.
    let mut ch = channel::<u32>();
    assert_eq!(ch.poll_next(token(1)), Poll::Pending);
    assert_eq!(ch.poll_next(token(2)), Poll::Pending);
    assert_eq!(ch.dropped_tokens().len(), 1);
    assert_eq!(ch.dropped_tokens()[0], token(1));
    ch.drop_tx();
    assert_eq!(ch.woken_tokens().len(), 1);
    assert_eq!(ch.woken_tokens()[0], token(2));
}

#[test]
fn loom_cancellation() {
    // Receiver gone first: cancellation is ready at once.
    let mut ch = channel::<u32>();
    ch.drop_rx();
    assert_eq!(ch.poll_cancel(token(1)), Poll::Ready(()));
    assert!(ch.is_canceled());
    // Cancellation polled first: it suspends, the receiver's disposal
    // wakes the stored token, and the next poll is ready.
    let mut ch = channel::<u32>();
    assert_eq!(ch.poll_cancel(token(1)), Poll::Pending);
    ch.drop_rx();
    assert_eq!(ch.woken_tokens().len(), 1);
    assert_eq!(ch.woken_tokens()[0], token(1));
    assert_eq!(ch.poll_cancel(token(2)), Poll::Ready(()));
    assert!(ch.is_canceled());
}

#[test]
fn loom_cancellation_persistent() {
    // Two pending polls, then the receiver's disposal: the replacement
    // token is woken and a further poll resolves.
    let mut ch = channel::<u32>();
    assert_eq!(ch.poll_cancel(token(1)), Poll::Pending);
    assert_eq!(ch.poll_cancel(token(2)), Poll::Pending);
    assert_eq!(ch.dropped_tokens().len(), 1);
    assert_eq!(ch.dropped_tokens()[0], token(1));
    ch.drop_rx();
    assert_eq!(ch.woken_tokens().len(), 1);
    assert_eq!(ch.woken_tokens()[0], token(2));
    assert_eq!(ch.poll_cancel(token(3)), Poll::Ready(()));
    assert!(ch.is_canceled());
}

#[test]
fn loom_close_cancellation() {
    // Receiver closes first: cancellation is ready at once.
    let mut ch = channel::<u32>();
    ch.close();
    assert_eq!(ch.poll_cancel(token(1)), Poll::Ready(()));
    assert!(ch.is_canceled());
    // Cancellation polled first: the close wakes the stored token.
    let mut ch = channel::<u32>();
    assert_eq!(ch.poll_cancel(token(1)), Poll::Pending);
    ch.close();
    assert_eq!(ch.woken_tokens().len(), 1);
    assert_eq!(ch.woken_tokens()[0], token(1));
    assert_eq!(ch.poll_cancel(token(2)), Poll::Ready(()));
    assert!(ch.is_canceled());
}

#[test]
fn loom_close_cancellation_persistent() {
    let mut ch = channel::<u32>();
    assert_eq!(ch.poll_cancel(token(1)), Poll::Pending);
    assert_eq!(ch.poll_cancel(token(2)), Poll::Pending);
    ch.close();
    assert_eq!(ch.woken_tokens().len(), 1);
    assert_eq!(ch.woken_tokens()[0], token(2));
    assert_eq!(ch.poll_cancel(token(3)), Poll::Ready(()));
    assert!(ch.is_canceled());
}

#[test]
fn loom_send_err_next() {
    // Error sent first: the first poll observes it and terminates.
    let mut ch = channel::<u32>();
    assert_eq!(ch.send_err(314), Ok(()));
    assert_eq!(ch.poll_next(token(1)), Poll::Ready(Some(Err(314))));
    assert!(ch.is_terminated());
    // Poll first: it suspends, the error's arrival wakes the stored
    // token, and the next poll observes the error.
    let mut ch = channel::<u32>();
    assert_eq!(ch.poll_next(token(1)), Poll::Pending);
    assert_eq!(ch.send_err(314), Ok(()));
    assert_eq!(ch.woken_tokens().len(), 1);
    assert_eq!(ch.woken_tokens()[0], token(1));
    assert_eq!(ch.poll_next(token(2)), Poll::Ready(Some(Err(314))));
    assert!(ch.is_terminated());
}

#[test]
fn loom_send_err_next_persistent() {
    // Two pending polls before the error arrives; a further poll after it
    // observes the error.
    let mut ch = channel::<u32>();
    assert_eq!(ch.poll_next(token(1)), Poll::Pending);
    assert_eq!(ch.poll_next(token(2)), Poll::Pending);
    assert_eq!(ch.send_err(314), Ok(()));
    assert_eq!(ch.woken_tokens().len(), 1);
    assert_eq!(ch.woken_tokens()[0], token(2));
    assert_eq!(ch.poll_next(token(3)), Poll::Ready(Some(Err(314))));
    assert!(ch.is_terminated());
    assert_eq!(ch.poll_next(token(4)), Poll::Ready(None));
}

#[test]
fn loom_send_send_next_persistent() {
    // Both sends before the poll: the pulses coalesce into one count.
    let mut ch = channel::<u32>();
    assert_eq!(ch.send(11), Ok(()));
    assert_eq!(ch.send(13), Ok(()));
    assert_eq!(ch.poll_next(token(1)), Poll::Ready(Some(Ok(24))));
    ch.drop_tx();
    assert_eq!(ch.poll_next(token(2)), Poll::Ready(None));
    assert!(ch.is_terminated());
    // A poll between the sends observes the counts separately; the sum is
    // the same.
    let mut ch = channel::<u32>();
    assert_eq!(ch.send(11), Ok(()));
    assert_eq!(ch.poll_next(token(1)), Poll::Ready(Some(Ok(11))));
    assert_eq!(ch.send(13), Ok(()));
    assert_eq!(ch.poll_next(token(2)), Poll::Ready(Some(Ok(13))));
    ch.drop_tx();
    assert_eq!(ch.poll_next(token(3)), Poll::Ready(None));
    assert!(ch.is_terminated());
    // A pending poll is woken by the first send.
    let mut ch = channel::<u32>();
    assert_eq!(ch.poll_next(token(1)), Poll::Pending);
    assert_eq!(ch.send(11), Ok(()));
    assert_eq!(ch.woken_tokens().len(), 1);
    assert_eq!(ch.send(13), Ok(()));
    assert_eq!(ch.poll_next(token(2)), Poll::Ready(Some(Ok(24))));
    ch.drop_tx();
    assert_eq!(ch.poll_next(token(3)), Poll::Ready(None));
    assert!(ch.is_terminated());
}

#[test]
fn loom_send_send_send_err_next_persistent() {
    // Everything sent first: one coalesced count, then the error.
    let mut ch = channel::<u32>();
    assert_eq!(ch.send(11), Ok(()));
    assert_eq!(ch.send(13), Ok(()));
    assert_eq!(ch.send_err(314), Ok(()));
    assert_eq!(ch.poll_next(token(1)), Poll::Ready(Some(Ok(24))));
    assert_eq!(ch.poll_next(token(2)), Poll::Ready(Some(Err(314))));
    assert!(ch.is_terminated());
    assert_eq!(ch.poll_next(token(3)), Poll::Ready(None));
    // Polls interleaved with the sends: counts arrive separately, the
    // error still comes last; the sum of the counts is unchanged.
    let mut ch = channel::<u32>();
    assert_eq!(ch.send(11), Ok(()));
    assert_eq!(ch.poll_next(token(1)), Poll::Ready(Some(Ok(11))));
    assert_eq!(ch.send(13), Ok(()));
    assert_eq!(ch.send_err(314), Ok(()));
    assert_eq!(ch.poll_next(token(2)), Poll::Ready(Some(Ok(13))));
    assert_eq!(ch.poll_next(token(3)), Poll::Ready(Some(Err(314))));
    assert!(ch.is_terminated());
    // After the error is handed over, further sends are refused.
    let mut ch = channel::<u32>();
    assert_eq!(ch.send_err(314), Ok(()));
    assert_eq!(ch.send(11), Err(SendError::Canceled));
}

#[test]
fn loom_send_err_close_next() {
    // Error handed over before the close: it stays drainable.
    let mut ch = channel::<u32>();
    assert_eq!(ch.send_err(314), Ok(()));
    ch.close();
    assert_eq!(ch.poll_next(token(1)), Poll::Ready(Some(Err(314))));
    assert!(ch.is_terminated());
    // Close first: the error is refused and handed back, the stream just
    // ends.
    let mut ch = channel::<u32>();
    ch.close();
    assert_eq!(ch.send_err(314), Err(314));
    assert_eq!(ch.poll_next(token(1)), Poll::Ready(None));
    assert!(ch.is_terminated());
}

#[test]
fn loom_send_err_try_next() {
    // Error first.
    let mut ch = channel::<u32>();
    assert_eq!(ch.send_err(314), Ok(()));
    assert_eq!(ch.try_next(), Ok(Err(314)));
    assert!(ch.is_terminated());
    // Try first: empty, not terminal; the error arrives afterwards.
    let mut ch = channel::<u32>();
    assert_eq!(ch.try_next(), Err(TryNextError::Empty));
    assert_eq!(ch.send_err(314), Ok(()));
}

#[test]
fn loom_send_err_try_next_persistent() {
    let mut ch = channel::<u32>();
    assert_eq!(ch.try_next(), Err(TryNextError::Empty));
    assert_eq!(ch.send_err(314), Ok(()));
    assert_eq!(ch.try_next(), Ok(Err(314)));
    assert!(ch.is_terminated());
}

#[test]
fn loom_send_err_close_try_next() {
    // Error handed over before the close: still drainable.
    let mut ch = channel::<u32>();
    assert_eq!(ch.send_err(314), Ok(()));
    ch.close();
    assert_eq!(ch.try_next(), Ok(Err(314)));
    // Close first: the error bounces and the stream is terminal.
    let mut ch = channel::<u32>();
    ch.close();
    assert_eq!(ch.send_err(314), Err(314));
    assert_eq!(ch.try_next(), Err(TryNextError::Canceled));
}

#[test]
fn loom_next_cancellation() {
    // Neither endpoint completes: both polls suspend, in either order.
    let mut ch = channel::<u32>();
    assert_eq!(ch.poll_cancel(token(1)), Poll::Pending);
    assert_eq!(ch.poll_next(token(2)), Poll::Pending);
    ch.drop_rx();
    assert_eq!(ch.woken_tokens().len(), 1);
    assert_eq!(ch.woken_tokens()[0], token(1));
    let mut ch = channel::<u32>();
    assert_eq!(ch.poll_next(token(2)), Poll::Pending);
    assert_eq!(ch.poll_cancel(token(1)), Poll::Pending);
    ch.drop_tx();
    assert_eq!(ch.woken_tokens().len(), 1);
    assert_eq!(ch.woken_tokens()[0], token(2));
}

#[test]
fn loom_send_long_sequence_next_persistent() {
    // Six unit pulses, arbitrarily coalesced, drained by polling until
    // termination: the sum of the observed counts is exactly six.
    let mut ch = channel::<u32>();
    for _ in 0..6 {
        ch.send(1).unwrap();
    }
    ch.drop_tx();
    let mut sum = 0;
    let mut id = 0;
    while !ch.is_terminated() {
        id += 1;
        sum += match ch.poll_next(token(id)) {
            Poll::Ready(Some(Ok(n))) => n,
            Poll::Ready(Some(Err(_))) => panic!(),
            Poll::Ready(None) => 0,
            Poll::Pending => panic!(),
        };
    }
    assert_eq!(sum, 6);
    // With drains interleaved between the sends.
    let mut ch = channel::<u32>();
    let mut sum = 0;
    for i in 0..6 {
        ch.send(1).unwrap();
        if i % 2 == 0 {
            sum += match ch.poll_next(token(i)) {
                Poll::Ready(Some(Ok(n))) => n,
                _ => panic!(),
            };
        }
    }
    ch.drop_tx();
    while !ch.is_terminated() {
        sum += match ch.poll_next(token(100)) {
            Poll::Ready(Some(Ok(n))) => n,
            Poll::Ready(None) => 0,
            _ => panic!(),
        };
    }
    assert_eq!(sum, 6);
}

#[test]
fn loom_send_long_sequence_try_next_persistent() {
    let mut ch = channel::<u32>();
    for _ in 0..6 {
        ch.send(1).unwrap();
    }
    ch.drop_tx();
    let mut sum = 0;
    loop {
        match ch.try_next() {
            Ok(Ok(n)) => sum += n,
            Ok(Err(_)) => panic!(),
            Err(TryNextError::Empty) => {}
            Err(TryNextError::Canceled) => break,
        }
    }
    assert_eq!(sum, 6);
    assert!(ch.is_terminated());
}

#[test]
fn pulse_send_drop_poll() {
    let mut ch = channel::<u32>();
    assert_eq!(ch.send(1), Ok(()));
    ch.drop_tx();
    assert_eq!(ch.poll_next(token(1)), Poll::Ready(Some(Ok(1))));
    assert_eq!(ch.poll_next(token(2)), Poll::Ready(None));
    assert!(ch.is_terminated());
}

#[test]
fn pulse_send_err_drop_poll() {
    let mut ch = channel::<u32>();
    assert_eq!(ch.send_err(314), Ok(()));
    ch.drop_tx();
    assert_eq!(ch.poll_next(token(1)), Poll::Ready(Some(Err(314))));
    assert_eq!(ch.poll_next(token(2)), Poll::Ready(None));
}

#[test]
fn pulse_count_saturates() {
    let mut ch = channel::<u32>();
    assert_eq!(ch.send(COUNT_MAX), Ok(()));
    assert_eq!(ch.send(5), Ok(()));
    assert_eq!(ch.poll_next(token(1)), Poll::Ready(Some(Ok(COUNT_MAX))));
}

#[test]
fn tokens_all_accounted_after_disposal() {
    // Both observers registered, then both endpoints disposed: no token
    // stays stored — the receiver's registration is discarded, the
    // sender's cancellation observer is invoked, each exactly once.
    let mut ch = channel::<u32>();
    assert_eq!(ch.poll_cancel(token(1)), Poll::Pending);
    assert_eq!(ch.poll_next(token(2)), Poll::Pending);
    ch.drop_rx();
    ch.drop_tx();
    assert_eq!(ch.woken_tokens().len(), 1);
    assert_eq!(ch.woken_tokens()[0], token(1));
    assert_eq!(ch.dropped_tokens().len(), 1);
    assert_eq!(ch.dropped_tokens()[0], token(2));
}

#[test]
fn pulse_send_after_drop_rx_fails() {
    let mut ch = channel::<u32>();
    ch.drop_rx();
    assert_eq!(ch.send(1), Err(SendError::Canceled));
    assert!(ch.is_canceled());
}
