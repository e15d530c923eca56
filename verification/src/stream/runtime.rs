//! The stream runtime: a byte ring buffer shared with a debug probe.
//!
//! Output is framed into transactions of at most [`MAX_TRANSACTION_LENGTH`]
//! bytes: a two-byte header (stream number, payload length) followed by the
//! payload.  The writer owns `write_cursor`; the probe drains frames and
//! advances `read_cursor`.  When the tail of the buffer is too short for a
//! frame, the writer publishes a skip marker (stream `0xFF`) over the tail
//! and restarts at the base.  The probe here is a collaborator outside the
//! model: a frame that does not fit before `read_cursor` is reported as not
//! written rather than awaited.

use vstd::prelude::*;

verus! {

/// Number of bytes in a frame header: the stream number and the payload
/// length.
pub const HEADER_LENGTH: u32 = 2;

/// Largest payload of one transaction.
pub const MAX_TRANSACTION_LENGTH: usize = 255;

/// Payload bytes of one `write_bytes` chunk.
pub const CHUNK_LENGTH: usize = 64;

/// Abstract state of the stream runtime.
#[verifier::ext_equal]
pub ghost struct RuntimeModel {
    /// Per-stream enable bits, set by the debug probe.
    pub enable_mask: u32,
    /// First byte the probe has not consumed yet.
    pub read_cursor: u32,
    /// First byte the writer has not published yet.
    pub write_cursor: u32,
    /// The ring buffer contents.
    pub buf: Seq<u8>,
}

/// Validity of a runtime between operations: the buffer is addressable by
/// the cursors and both cursors are inside it.
pub open spec fn wf(m: RuntimeModel) -> bool {
    &&& 1 <= m.buf.len() <= u32::MAX
    &&& (m.write_cursor as int) < m.buf.len()
    &&& (m.read_cursor as int) < m.buf.len()
}

/// True when `stream` is enabled in `mask`.
pub open spec fn stream_enabled(mask: u32, stream: u8) -> bool {
    mask & (1u32 << (stream as u32)) != 0
}

/// One frame as laid out in the buffer: stream number, payload length,
/// payload.
pub open spec fn frame_seq(stream: u8, bytes: Seq<u8>) -> Seq<u8> {
    seq![stream, bytes.len() as u8] + bytes
}

/// `buf` with `data` written at position `at`.
pub open spec fn write_seq(buf: Seq<u8>, at: int, data: Seq<u8>) -> Seq<u8> {
    Seq::new(
        buf.len(),
        |i: int|
            if at <= i < at + data.len() {
                data[i - at]
            } else {
                buf[i]
            },
    )
}

/// One attempt to place the frame at the write cursor: it must fit before
/// the applicable limit (the buffer end when the cursor is at or past the
/// read cursor, the read cursor otherwise), and it must not advance the
/// write cursor exactly onto the read cursor, which would look like an
/// empty buffer to the probe.
pub open spec fn spec_attempt(m: RuntimeModel, stream: u8, bytes: Seq<u8>) -> Option<
    RuntimeModel,
> {
    let size = m.buf.len() as int;
    let rc = m.read_cursor as int;
    let wc = m.write_cursor as int;
    let wrapped = wc >= rc;
    let limit = if wrapped {
        size
    } else {
        rc
    };
    let available = limit - wc;
    let frame = bytes.len() + HEADER_LENGTH as int;
    if available >= frame {
        let next = if wc + frame == size {
            0
        } else {
            wc + frame
        };
        if next == rc {
            None
        } else {
            Some(
                RuntimeModel {
                    buf: write_seq(m.buf, wc, frame_seq(stream, bytes)),
                    write_cursor: next as u32,
                    ..m
                },
            )
        }
    } else {
        None
    }
}

/// Giving up on the unusable tail of a wrapped buffer: publish a skip
/// marker over it when it can hold one, and restart at the base.
pub open spec fn spec_skip_tail(m: RuntimeModel) -> RuntimeModel {
    let size = m.buf.len() as int;
    let wc = m.write_cursor as int;
    let available = size - wc;
    let buf = if available > HEADER_LENGTH as int {
        write_seq(m.buf, wc, seq![0xFFu8, ((available - HEADER_LENGTH as int) as u32) as u8])
    } else {
        m.buf
    };
    RuntimeModel { buf, write_cursor: 0, ..m }
}

/// One transaction: place the frame at the write cursor; when the tail of
/// a wrapped buffer is too short, skip the tail and try once more from the
/// base.  Reports whether the frame was written; a frame that must wait
/// for the probe leaves the cursors and the published bytes unchanged.
pub open spec fn spec_write_transaction(m: RuntimeModel, stream: u8, bytes: Seq<u8>) -> (
    RuntimeModel,
    bool,
) {
    match spec_attempt(m, stream, bytes) {
        Some(m1) => (m1, true),
        None => {
            let size = m.buf.len() as int;
            let rc = m.read_cursor as int;
            let wc = m.write_cursor as int;
            let wrapped = wc >= rc;
            let available = (if wrapped {
                size
            } else {
                rc
            }) - wc;
            let frame = bytes.len() + HEADER_LENGTH as int;
            if wrapped && available < frame {
                let m1 = spec_skip_tail(m);
                match spec_attempt(m1, stream, bytes) {
                    Some(m2) => (m2, true),
                    None => (m1, false),
                }
            } else {
                (m, false)
            }
        },
    }
}

/// A byte sequence written as successive transactions of at most
/// [`CHUNK_LENGTH`] bytes each.
pub open spec fn spec_write_bytes(m: RuntimeModel, stream: u8, bytes: Seq<u8>) -> RuntimeModel
    decreases bytes.len(),
{
    if bytes.len() > CHUNK_LENGTH {
        spec_write_bytes(
            spec_write_transaction(m, stream, bytes.subrange(0, CHUNK_LENGTH as int)).0,
            stream,
            bytes.subrange(CHUNK_LENGTH as int, bytes.len() as int),
        )
    } else if bytes.len() > 0 {
        spec_write_transaction(m, stream, bytes).0
    } else {
        m
    }
}

/// What the stream runtime offers to `Stream` handles.
pub trait LocalRuntime: Sized {
    /// The abstract state of this runtime.
    spec fn model(&self) -> RuntimeModel;

    /// Validity of this runtime between operations.
    spec fn inv(&self) -> bool;

    /// True when the debug probe has enabled `stream`.
    fn is_enabled(&self, stream: u8) -> (r: bool)
        requires
            stream < 32,
        ensures
            r == stream_enabled(self.model().enable_mask, stream),
    ;

    /// Writes one frame of at most [`MAX_TRANSACTION_LENGTH`] bytes;
    /// reports whether it was placed.
    fn write_transaction(&mut self, stream: u8, bytes: &[u8]) -> (r: bool)
        requires
            old(self).inv(),
            bytes@.len() <= MAX_TRANSACTION_LENGTH,
        ensures
            final(self).inv(),
            final(self).model() == spec_write_transaction(old(self).model(), stream, bytes@).0,
            r == spec_write_transaction(old(self).model(), stream, bytes@).1,
    ;

    /// Writes a byte sequence as successive frames of at most
    /// [`CHUNK_LENGTH`] bytes each.
    fn write_bytes(&mut self, stream: u8, bytes: &[u8])
        requires
            old(self).inv(),
        ensures
            final(self).inv(),
            final(self).model() == spec_write_bytes(old(self).model(), stream, bytes@),
    ;
}

/// The in-memory stream runtime.
pub struct Runtime {
    enable_mask: u32,
    read_cursor: u32,
    write_cursor: u32,
    buf: Vec<u8>,
}

impl View for Runtime {
    type V = RuntimeModel;

    closed spec fn view(&self) -> RuntimeModel {
        RuntimeModel {
            enable_mask: self.enable_mask,
            read_cursor: self.read_cursor,
            write_cursor: self.write_cursor,
            buf: self.buf@,
        }
    }
}

impl Runtime {
    /// Creates a runtime over a zeroed buffer of `size` bytes, with the
    /// given per-stream enable bits and both cursors at the base.
    pub fn new(enable_mask: u32, size: usize) -> (rt: Runtime)
        requires
            1 <= size <= u32::MAX,
        ensures
            rt.inv(),
            rt@.enable_mask == enable_mask,
            rt@.read_cursor == 0,
            rt@.write_cursor == 0,
            rt@.buf == Seq::<u8>::new(size as nat, |i: int| 0u8),
    {
        let mut buf: Vec<u8> = Vec::new();
        let mut i: usize = 0;
        while i < size
            invariant
                i <= size,
                buf@.len() == i as nat,
                forall|j: int| 0 <= j < i ==> buf@[j] == 0u8,
            decreases size - i,
        {
            buf.push(0);
            i += 1;
        }
        let rt = Runtime { enable_mask, read_cursor: 0, write_cursor: 0, buf };
        proof {
            assert(rt@.buf =~= Seq::<u8>::new(size as nat, |j: int| 0u8));
        }
        rt
    }

    /// The ring buffer contents, as a debug probe would see them.
    pub fn buffer(&self) -> (r: &Vec<u8>)
        ensures
            r@ == self@.buf,
    {
        &self.buf
    }

    /// One attempt to place the frame at the write cursor, as
    /// [`spec_attempt`] describes.
    fn attempt(&mut self, stream: u8, bytes: &[u8]) -> (r: bool)
        requires
            old(self).inv(),
            bytes@.len() <= MAX_TRANSACTION_LENGTH,
        ensures
            final(self).inv(),
            match spec_attempt(old(self)@, stream, bytes@) {
                Some(m1) => r && final(self)@ == m1,
                None => !r && final(self)@ == old(self)@,
            },
    {
        let size = self.buf.len() as u32;
        let rc = self.read_cursor;
        let wc = self.write_cursor;
        let wrapped = wc >= rc;
        let limit = if wrapped {
            size
        } else {
            rc
        };
        let available = limit - wc;
        let frame = (bytes.len() as u32) + HEADER_LENGTH;
        if available >= frame {
            let next0 = wc + frame;
            let next = if next0 == size {
                0
            } else {
                next0
            };
            if next == rc {
                proof {
                    assert(self@ =~~= old(self)@);
                }
                false
            } else {
                let at = wc as usize;
                let header = &mut self.buf[at];
                *header = stream;
                let length_byte = &mut self.buf[at + 1];
                *length_byte = bytes.len() as u8;
                let mut i: usize = 0;
                while i < bytes.len()
                    invariant
                        i <= bytes@.len(),
                        bytes@.len() <= MAX_TRANSACTION_LENGTH,
                        self.buf@.len() <= u32::MAX,
                        at + HEADER_LENGTH as int + bytes@.len() <= self.buf@.len(),
                        self.buf@.len() == old(self).buf@.len(),
                        self.read_cursor == old(self).read_cursor,
                        self.write_cursor == old(self).write_cursor,
                        self.enable_mask == old(self).enable_mask,
                        at == old(self).write_cursor as int,
                        forall|j: int|
                            0 <= j < self.buf@.len() ==> self.buf@[j] == (if at <= j < at + 2 + i {
                                frame_seq(stream, bytes@)[j - at]
                            } else {
                                old(self).buf@[j]
                            }),
                    decreases bytes@.len() - i,
                {
                    let b = bytes[i];
                    let slot = &mut self.buf[at + 2 + i];
                    *slot = b;
                    i += 1;
                }
                self.write_cursor = next;
                proof {
                    let m1 = spec_attempt(old(self)@, stream, bytes@);
                    assert(self@.buf =~= write_seq(
                        old(self)@.buf,
                        old(self)@.write_cursor as int,
                        frame_seq(stream, bytes@),
                    ));
                    assert(self@ =~~= m1->0);
                }
                true
            }
        } else {
            proof {
                assert(self@ =~~= old(self)@);
            }
            false
        }
    }

    /// Validity of this runtime between operations.
    pub closed spec fn runtime_inv(&self) -> bool {
        wf(self@)
    }
}

impl LocalRuntime for Runtime {
    open spec fn model(&self) -> RuntimeModel {
        self@
    }

    open spec fn inv(&self) -> bool {
        self.runtime_inv()
    }

    fn is_enabled(&self, stream: u8) -> (r: bool) {
        self.enable_mask & (1u32 << (stream as u32)) != 0
    }

    fn write_transaction(&mut self, stream: u8, bytes: &[u8]) -> (r: bool) {
        if self.attempt(stream, bytes) {
            return true;
        }
        let size = self.buf.len() as u32;
        let rc = self.read_cursor;
        let wc = self.write_cursor;
        let wrapped = wc >= rc;
        let available = (if wrapped {
            size
        } else {
            rc
        }) - wc;
        let frame = (bytes.len() as u32) + HEADER_LENGTH;
        if wrapped && available < frame {
            // The tail cannot hold the frame: publish a skip marker over it
            // and restart at the base.
            if available > HEADER_LENGTH {
                let at = wc as usize;
                let marker = &mut self.buf[at];
                *marker = 0xFF;
                let skip_len = &mut self.buf[at + 1];
                *skip_len = (available - HEADER_LENGTH) as u8;
                proof {
                    assert(self@.buf =~= write_seq(
                        old(self)@.buf,
                        old(self)@.write_cursor as int,
                        seq![
                            0xFFu8,
                            ((old(self)@.buf.len() - old(self)@.write_cursor
                                - HEADER_LENGTH as int) as u32) as u8,
                        ],
                    ));
                }
            }
            self.write_cursor = 0;
            proof {
                assert(self@ =~~= spec_skip_tail(old(self)@));
            }
            let r = self.attempt(stream, bytes);
            proof {
                assert(self@ =~~= spec_write_transaction(old(self)@, stream, bytes@).0);
            }
            r
        } else {
            proof {
                assert(self@ =~~= spec_write_transaction(old(self)@, stream, bytes@).0);
            }
            false
        }
    }

    fn write_bytes(&mut self, stream: u8, bytes: &[u8]) {
        let mut offset: usize = 0;
        let ghost m0 = self@;
        proof {
            assert(bytes@.subrange(0, bytes@.len() as int) =~= bytes@);
        }
        while bytes.len() - offset > CHUNK_LENGTH
            invariant
                self.inv(),
                offset <= bytes@.len(),
                spec_write_bytes(m0, stream, bytes@) == spec_write_bytes(
                    self@,
                    stream,
                    bytes@.subrange(offset as int, bytes@.len() as int),
                ),
            decreases bytes@.len() - offset,
        {
            let chunk = vstd::slice::slice_subrange(bytes, offset, offset + CHUNK_LENGTH);
            let ghost before = self@;
            let _ = self.write_transaction(stream, chunk);
            offset += CHUNK_LENGTH;
            proof {
                let whole = bytes@.subrange(offset as int - CHUNK_LENGTH as int, bytes@.len() as int);
                assert(whole.subrange(0, CHUNK_LENGTH as int) =~= chunk@);
                assert(whole.subrange(CHUNK_LENGTH as int, whole.len() as int) =~= bytes@.subrange(
                    offset as int,
                    bytes@.len() as int,
                ));
            }
        }
        if bytes.len() - offset > 0 {
            let chunk = vstd::slice::slice_subrange(bytes, offset, bytes.len());
            let _ = self.write_transaction(stream, chunk);
            proof {
                assert(bytes@.subrange(offset as int, bytes@.len() as int) =~= chunk@);
            }
        } else {
            proof {
                assert(bytes@.subrange(offset as int, bytes@.len() as int) =~= Seq::<u8>::empty());
            }
        }
    }
}

} // verus!
