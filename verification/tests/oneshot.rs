//! Oneshot channel scenarios.

use drone_core::sync::spsc::oneshot::{channel, Canceled};
use drone_core::sync::spsc::{Poll, WakeToken};

fn token(id: u32) -> WakeToken {
    WakeToken { id }
}

#[test]
fn oneshot_send_then_poll() {
    let mut ch = channel::<u32>();
    assert_eq!(ch.send(7), Ok(()));
    assert_eq!(ch.poll(token(1)), Poll::Ready(Ok(7)));
    // The value is delivered exactly once.
    assert_eq!(ch.poll(token(2)), Poll::Ready(Err(Canceled)));
}

#[test]
fn oneshot_poll_then_send_wakes() {
    let mut ch = channel::<u32>();
    assert_eq!(ch.poll(token(1)), Poll::Pending);
    assert_eq!(ch.send(7), Ok(()));
    assert_eq!(ch.woken_tokens().len(), 1);
    assert_eq!(ch.woken_tokens()[0], token(1));
    assert_eq!(ch.poll(token(2)), Poll::Ready(Ok(7)));
}

#[test]
fn oneshot_second_send_bounces() {
    let mut ch = channel::<u32>();
    assert_eq!(ch.send(7), Ok(()));
    assert_eq!(ch.send(8), Err(8));
}

#[test]
fn oneshot_try_recv() {
    let mut ch = channel::<u32>();
    assert_eq!(ch.try_recv(), Ok(None));
    assert_eq!(ch.send(7), Ok(()));
    assert_eq!(ch.try_recv(), Ok(Some(7)));
    assert_eq!(ch.try_recv(), Err(Canceled));
}

#[test]
fn oneshot_drop_tx_cancels_receiver() {
    let mut ch = channel::<u32>();
    ch.drop_tx();
    assert_eq!(ch.poll(token(1)), Poll::Ready(Err(Canceled)));
}

#[test]
fn oneshot_close_bounces_send() {
    let mut ch = channel::<u32>();
    ch.close();
    assert_eq!(ch.send(7), Err(7));
    assert_eq!(ch.try_recv(), Err(Canceled));
}

#[test]
fn oneshot_concurrent_drop() {
    // Both endpoints disposed, in either order: the final state is
    // complete and no wake token is left stored.
    let mut ch = channel::<u32>();
    ch.drop_tx();
    ch.drop_rx();
    assert!(ch.is_canceled());
    let mut ch = channel::<u32>();
    ch.drop_rx();
    ch.drop_tx();
    assert!(ch.is_canceled());
}

#[test]
fn oneshot_cancellation_race() {
    // The sender polls cancellation, the receiver is dropped: the stored
    // token is woken, the poll then resolves, and it stays resolved.
    let mut ch = channel::<u32>();
    assert_eq!(ch.poll_cancel(token(1)), Poll::Pending);
    ch.drop_rx();
    assert_eq!(ch.woken_tokens().len(), 1);
    assert_eq!(ch.woken_tokens()[0], token(1));
    assert_eq!(ch.poll_cancel(token(2)), Poll::Ready(()));
    assert_eq!(ch.poll_cancel(token(3)), Poll::Ready(()));
    // The receiver dropped before the first poll: ready at once.
    let mut ch = channel::<u32>();
    ch.drop_rx();
    assert_eq!(ch.poll_cancel(token(1)), Poll::Ready(()));
    assert_eq!(ch.poll_cancel(token(2)), Poll::Ready(()));
}

#[test]
fn oneshot_value_survives_drop_tx() {
    let mut ch = channel::<u32>();
    assert_eq!(ch.send(7), Ok(()));
    ch.drop_tx();
    assert_eq!(ch.poll(token(1)), Poll::Ready(Ok(7)));
}
