//! Stream framing scenarios against the in-memory runtime.

use drone_core::stream::runtime::{LocalRuntime, Runtime};
use drone_core::stream::{stderr, stdout, write_str, Stream, STDERR_STREAM, STDOUT_STREAM};

#[test]
fn stream_numbers() {
    assert_eq!(STDOUT_STREAM, 0);
    assert_eq!(STDERR_STREAM, 1);
    assert_eq!(stdout(), Stream::new(0));
    assert_eq!(stderr(), Stream::new(1));
}

#[test]
fn is_enabled_follows_mask() {
    let rt = Runtime::new(0b110, 64);
    assert!(!Stream::new(0).is_enabled(&rt));
    assert!(Stream::new(1).is_enabled(&rt));
    assert!(Stream::new(2).is_enabled(&rt));
    assert!(!Stream::new(3).is_enabled(&rt));
}

/// Reads back one frame laid out at `at` and returns its payload.
fn frame_at(rt: &Runtime, at: usize) -> (u8, Vec<u8>) {
    let buf = rt.buffer();
    let stream = buf[at];
    let len = buf[at + 1] as usize;
    (stream, buf[at + 2..at + 2 + len].to_vec())
}

#[test]
fn write_transaction_lays_out_one_frame() {
    let mut rt = Runtime::new(0, 16);
    let s = Stream::new(3);
    let _ = s.write_transaction(&mut rt, &[1, 2, 3]);
    let (stream, payload) = frame_at(&rt, 0);
    assert_eq!(stream, 3);
    assert_eq!(payload, vec![1, 2, 3]);
    // A second frame lands right behind the first.
    let _ = s.write_transaction(&mut rt, &[9]);
    let (stream, payload) = frame_at(&rt, 5);
    assert_eq!(stream, 3);
    assert_eq!(payload, vec![9]);
}

#[test]
fn write_bytes_chunks_long_sequences() {
    // 70 bytes become one 64-byte frame and one 6-byte frame.
    let mut rt = Runtime::new(0, 256);
    let data: Vec<u8> = (0..70u8).collect();
    let _ = Stream::new(2).write_bytes(&mut rt, &data);
    let (stream, first) = frame_at(&rt, 0);
    assert_eq!(stream, 2);
    assert_eq!(first.len(), 64);
    assert_eq!(first, data[..64].to_vec());
    let (stream, second) = frame_at(&rt, 66);
    assert_eq!(stream, 2);
    assert_eq!(second, data[64..].to_vec());
}

#[test]
fn write_wraps_with_skip_marker() {
    // An 8-byte ring: a 3-byte payload fills bytes 0..5; the next frame
    // does not fit in the 3-byte tail, so a skip marker is published and
    // the frame restarts at the base.
    let mut rt = Runtime::new(0, 8);
    let s = Stream::new(1);
    let _ = s.write_transaction(&mut rt, &[1, 2, 3]);
    let _ = s.write_transaction(&mut rt, &[4, 5]);
    let buf = rt.buffer();
    assert_eq!(buf[5], 0xFF);
    assert_eq!(buf[6], 1);
    let (stream, payload) = frame_at(&rt, 0);
    assert_eq!(stream, 1);
    assert_eq!(payload, vec![4, 5]);
}

#[test]
fn write_blocked_by_probe_changes_nothing() {
    // With the probe's read cursor at the base, a frame that would land
    // the write cursor exactly on it is not written.
    let mut rt = Runtime::new(0, 4);
    let wrote = rt.write_transaction(1, &[9, 9]);
    assert!(!wrote);
    assert_eq!(rt.buffer(), &vec![0, 0, 0, 0]);
}

#[test]
fn stream_write_is_little_endian() {
    let mut rt = Runtime::new(0, 32);
    let s = Stream::new(4);
    let _ = s.write(&mut rt, 0x0102u16);
    let (stream, payload) = frame_at(&rt, 0);
    assert_eq!(stream, 4);
    assert_eq!(payload, vec![0x02, 0x01]);
    let _ = s.write(&mut rt, 0xA1B2C3D4u32);
    let (_, payload) = frame_at(&rt, 4);
    assert_eq!(payload, vec![0xD4, 0xC3, 0xB2, 0xA1]);
    let _ = s.write(&mut rt, 0x7Fu8);
    let (_, payload) = frame_at(&rt, 10);
    assert_eq!(payload, vec![0x7F]);
}

#[test]
fn write_str_frames_the_bytes() {
    let mut rt = Runtime::new(0, 64);
    write_str(11, "hello there!\n", &mut rt);
    let (stream, payload) = frame_at(&rt, 0);
    assert_eq!(stream, 11);
    assert_eq!(payload, b"hello there!\n".to_vec());
}
