//! Standard output/error streams framed for a debug probe.
//!
//! A [`Stream`] is a handle naming one of [`STREAM_COUNT`] output streams.
//! Writes are framed into the runtime's ring buffer (see [`runtime`]) where
//! a debug probe picks them up.  Nothing here checks that a stream was
//! enabled by the probe: pair writes with [`Stream::is_enabled`].

use vstd::prelude::*;

pub mod runtime;

use vstd::string::StringSliceAdditionalSpecFns;

use self::runtime::{
    spec_write_bytes, spec_write_transaction, stream_enabled, LocalRuntime, RuntimeModel,
    MAX_TRANSACTION_LENGTH,
};

verus! {

/// Number of distinct output streams.
pub const STREAM_COUNT: u8 = 32;

/// Stream number of the standard output.
pub const STDOUT_STREAM: u8 = 0;

/// Stream number of the standard error.
pub const STDERR_STREAM: u8 = 1;

/// Stream handle.
#[derive(Clone, Copy, Debug, PartialEq, Eq, Structural)]
pub struct Stream(u8);

/// Returns a stream for the standard output.
pub fn stdout() -> (s: Stream)
    ensures
        s.num() == STDOUT_STREAM,
{
    Stream::new(STDOUT_STREAM)
}

/// Returns a stream for the standard error.
pub fn stderr() -> (s: Stream)
    ensures
        s.num() == STDERR_STREAM,
{
    Stream::new(STDERR_STREAM)
}

/// Writes a string into a specific stream of `rt`.
///
/// This does not check whether the stream is enabled by a debug probe; use
/// it together with [`Stream::is_enabled`].
pub fn write_str<R: LocalRuntime>(stream: u8, value: &str, rt: &mut R)
    requires
        stream < STREAM_COUNT,
        old(rt).inv(),
    ensures
        final(rt).inv(),
        final(rt).model() == spec_write_bytes(old(rt).model(), stream, value.spec_bytes()),
{
    let s = Stream::new(stream);
    let _ = s.write_bytes(rt, value.as_bytes());
}

impl Stream {
    /// The stream number this handle names.
    pub closed spec fn num(self) -> u8 {
        self.0
    }

    /// Creates a new stream handle.  Only numbers below [`STREAM_COUNT`]
    /// name a stream.
    pub fn new(stream: u8) -> (s: Stream)
        requires
            stream < STREAM_COUNT,
        ensures
            s.num() == stream,
    {
        Stream(stream)
    }

    /// True when this stream was explicitly enabled by a debug probe in
    /// `rt`; false by default.
    pub fn is_enabled<R: LocalRuntime>(self, rt: &R) -> (r: bool)
        requires
            self.num() < STREAM_COUNT,
        ensures
            r == stream_enabled(rt.model().enable_mask, self.num()),
    {
        let Stream(stream) = self;
        rt.is_enabled(stream)
    }

    /// Writes a sequence of bytes to this stream, framed into chunks.
    ///
    /// The byte sequence visible to a debug probe may be interleaved with
    /// other writes frame by frame; see [`Stream::write`] for single-frame
    /// writes.
    pub fn write_bytes<R: LocalRuntime>(self, rt: &mut R, bytes: &[u8]) -> (s: Stream)
        requires
            old(rt).inv(),
        ensures
            final(rt).inv(),
            final(rt).model() == spec_write_bytes(old(rt).model(), self.num(), bytes@),
            s == self,
    {
        let Stream(stream) = self;
        rt.write_bytes(stream, bytes);
        self
    }

    /// Writes a sequence of at most [`MAX_TRANSACTION_LENGTH`] bytes to
    /// this stream in one frame.
    pub fn write_transaction<R: LocalRuntime>(self, rt: &mut R, bytes: &[u8]) -> (s: Stream)
        requires
            old(rt).inv(),
            bytes@.len() <= MAX_TRANSACTION_LENGTH,
        ensures
            final(rt).inv(),
            final(rt).model() == spec_write_transaction(
                old(rt).model(),
                self.num(),
                bytes@,
            ).0,
            s == self,
    {
        let Stream(stream) = self;
        let _ = rt.write_transaction(stream, bytes);
        self
    }

    /// Writes `value` as a little-endian byte sequence to this stream in
    /// one frame.  `value` can be one of `u8`, `u16`, `u32`.
    pub fn write<R: LocalRuntime, T: StreamWrite>(self, rt: &mut R, value: T) -> (s: Stream)
        requires
            old(rt).inv(),
        ensures
            final(rt).inv(),
            final(rt).model() == spec_write_transaction(
                old(rt).model(),
                self.num(),
                value.le_bytes(),
            ).0,
            s == self,
    {
        let Stream(stream) = self;
        T::stream_write(stream, rt, value);
        self
    }
}

/// Values that can be written to a stream as one frame.
pub trait StreamWrite: Sized {
    /// The little-endian bytes of this value.
    spec fn le_bytes(self) -> Seq<u8>;

    /// Writes `value` as one frame on `stream`.
    fn stream_write<R: LocalRuntime>(stream: u8, rt: &mut R, value: Self)
        requires
            old(rt).inv(),
        ensures
            final(rt).inv(),
            final(rt).model() == spec_write_transaction(
                old(rt).model(),
                stream,
                value.le_bytes(),
            ).0,
    ;
}

impl StreamWrite for u8 {
    open spec fn le_bytes(self) -> Seq<u8> {
        seq![self]
    }

    fn stream_write<R: LocalRuntime>(stream: u8, rt: &mut R, value: Self) {
        let mut bytes: Vec<u8> = Vec::new();
        bytes.push(value);
        proof {
            assert(bytes@ =~= value.le_bytes());
        }
        let _ = rt.write_transaction(stream, bytes.as_slice());
    }
}

impl StreamWrite for u16 {
    open spec fn le_bytes(self) -> Seq<u8> {
        seq![self as u8, (self >> 8) as u8]
    }

    fn stream_write<R: LocalRuntime>(stream: u8, rt: &mut R, value: Self) {
        let mut bytes: Vec<u8> = Vec::new();
        bytes.push(value as u8);
        bytes.push((value >> 8) as u8);
        proof {
            assert(bytes@ =~= value.le_bytes());
        }
        let _ = rt.write_transaction(stream, bytes.as_slice());
    }
}

impl StreamWrite for u32 {
    open spec fn le_bytes(self) -> Seq<u8> {
        seq![self as u8, (self >> 8) as u8, (self >> 16) as u8, (self >> 24) as u8]
    }

    fn stream_write<R: LocalRuntime>(stream: u8, rt: &mut R, value: Self) {
        let mut bytes: Vec<u8> = Vec::new();
        bytes.push(value as u8);
        bytes.push((value >> 8) as u8);
        bytes.push((value >> 16) as u8);
        bytes.push((value >> 24) as u8);
        proof {
            assert(bytes@ =~= value.le_bytes());
        }
        let _ = rt.write_transaction(stream, bytes.as_slice());
    }
}

} // verus!
