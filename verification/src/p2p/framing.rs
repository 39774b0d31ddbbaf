//! Framing of messages on a byte stream.
//!
//! A stream carries messages one after the other.  Each message is preceded
//! by its length, four bytes with the least significant first.  The receiver
//! collects what arrives until a whole message is there.  A length beyond the
//! agreed maximum is an error as soon as it is read, before any of the
//! message is stored: a peer cannot make the node set memory aside by
//! claiming a huge message.

use vstd::prelude::*;
use vstd::bytes::*;
use vstd::slice::*;

verus! {

/// Number of bytes of the length that precedes every message.
pub open spec fn header_len() -> nat {
    4
}

/// A message cannot be framed or unframed.
#[derive(Clone, Copy, Debug, PartialEq, Eq, Structural)]
pub enum FrameError {
    /// The message is longer than the limit allows.
    MessageTooLarge { size: usize, max: usize },
}

/// The largest message under an optional limit: the limit, but never more
/// than the length field can tell.
pub open spec fn size_limit(max_message_size: Option<usize>) -> nat {
    match max_message_size {
        Some(max) => if max <= u32::MAX {
            max as nat
        } else {
            u32::MAX as nat
        },
        None => u32::MAX as nat,
    }
}

/// The bytes that carry `payload` on the stream.
pub open spec fn framed(payload: Seq<u8>) -> Seq<u8>
    recommends
        payload.len() <= u32::MAX,
{
    spec_u32_to_le_bytes(payload.len() as u32) + payload
}

/// What the start of a stream holds.
pub enum NextFrame {
    /// More bytes are needed before anything can be said.
    Incomplete,
    /// A whole message, and the number of bytes of the stream that it took.
    Complete { payload: Seq<u8>, consumed: nat },
    /// A message that is longer than the limit allows.
    TooLarge { size: nat },
}

/// Reads the start of a stream.
pub open spec fn next_frame(stream: Seq<u8>, max_message_size: Option<usize>) -> NextFrame {
    if stream.len() < header_len() {
        NextFrame::Incomplete
    } else {
        let size = spec_u32_from_le_bytes(stream.subrange(0, 4)) as nat;
        if size > size_limit(max_message_size) {
            NextFrame::TooLarge { size }
        } else if stream.len() < header_len() + size {
            NextFrame::Incomplete
        } else {
            NextFrame::Complete { payload: stream.subrange(4, 4 + size as int), consumed: header_len() + size }
        }
    }
}

/// A framed message at the start of a stream is read back as it was sent,
/// and what follows it is left for the next read.
pub proof fn lemma_framed_message_is_read_back(payload: Seq<u8>, rest: Seq<u8>, max_message_size: Option<usize>)
    requires
        payload.len() <= size_limit(max_message_size),
    ensures
        next_frame(framed(payload) + rest, max_message_size) == (NextFrame::Complete {
            payload,
            consumed: framed(payload).len(),
        }),
        (framed(payload) + rest).subrange(framed(payload).len() as int, (framed(payload) + rest).len() as int) == rest,
{
    lemma_auto_spec_u32_to_from_le_bytes();
    let stream = framed(payload) + rest;
    let header = spec_u32_to_le_bytes(payload.len() as u32);
    assert(stream.subrange(0, 4) =~= header);
    assert(stream.subrange(4, 4 + payload.len() as int) =~= payload);
    assert(stream.subrange(framed(payload).len() as int, stream.len() as int) =~= rest);
}

/// As long as a framed message has not arrived in full, nothing is read:
/// a part of a message is never taken for a message.
pub proof fn lemma_partial_message_is_incomplete(payload: Seq<u8>, n: int, max_message_size: Option<usize>)
    requires
        payload.len() <= size_limit(max_message_size),
        0 <= n < framed(payload).len(),
    ensures
        next_frame(framed(payload).subrange(0, n), max_message_size) == NextFrame::Incomplete,
{
    lemma_auto_spec_u32_to_from_le_bytes();
    let part = framed(payload).subrange(0, n);
    let header = spec_u32_to_le_bytes(payload.len() as u32);
    if n >= 4 {
        assert(part.subrange(0, 4) =~= header);
    }
}

/// Frames a message for sending.
pub fn encode_frame(payload: &[u8], max_message_size: Option<usize>) -> (result: Result<Vec<u8>, FrameError>)
    ensures
        match result {
            Ok(bytes) => payload@.len() <= size_limit(max_message_size) && bytes@ == framed(payload@),
            Err(err) => payload@.len() > size_limit(max_message_size) && err == (FrameError::MessageTooLarge {
                size: payload@.len() as usize,
                max: size_limit(max_message_size) as usize,
            }),
        },
{
    let limit = effective_limit(max_message_size);
    if payload.len() > limit {
        return Err(FrameError::MessageTooLarge { size: payload.len(), max: limit });
    }
    let mut bytes = u32_to_le_bytes(payload.len() as u32);
    let mut body = slice_to_vec(payload);
    bytes.append(&mut body);
    Ok(bytes)
}

/// The largest message under an optional limit.
fn effective_limit(max_message_size: Option<usize>) -> (limit: usize)
    ensures
        limit == size_limit(max_message_size),
        limit <= u32::MAX,
{
    match max_message_size {
        Some(max) => if max <= 0xffff_ffff {
            max
        } else {
            0xffff_ffff
        },
        None => 0xffff_ffff,
    }
}

/// What a transcoder holds, as mathematics.
pub struct TranscoderView {
    /// The bytes that have arrived and have not been read as messages.
    pub buffer: Seq<u8>,
    pub max_message_size: Option<usize>,
}

/// The receiving end of a framed stream.
pub struct BufferedTranscoder {
    buffer: Vec<u8>,
    max_message_size: Option<usize>,
}

impl View for BufferedTranscoder {
    type V = TranscoderView;

    closed spec fn view(&self) -> TranscoderView {
        TranscoderView { buffer: self.buffer@, max_message_size: self.max_message_size }
    }
}

impl BufferedTranscoder {
    /// A transcoder that has received nothing.
    pub fn new(max_message_size: Option<usize>) -> (transcoder: Self)
        ensures
            transcoder@ == (TranscoderView { buffer: Seq::empty(), max_message_size }),
    {
        BufferedTranscoder { buffer: Vec::new(), max_message_size }
    }

    /// Number of bytes that wait to be read.
    pub fn buffered_len(&self) -> (n: usize)
        ensures
            n == self@.buffer.len(),
    {
        self.buffer.len()
    }

    /// Takes in bytes that arrived on the stream.
    pub fn push_bytes(&mut self, data: &[u8])
        ensures
            final(self)@ == (TranscoderView { buffer: old(self)@.buffer + data@, ..old(self)@ }),
    {
        let mut more = slice_to_vec(data);
        self.buffer.append(&mut more);
    }

    /// Reads the next message, if it has arrived in full.
    ///
    /// `Ok(None)` means that more bytes are needed.  A message that is too
    /// large is an error; the buffer is then left as it is, and the
    /// connection is of no further use.
    pub fn try_decode(&mut self) -> (result: Result<Option<Vec<u8>>, FrameError>)
        ensures
            match next_frame(old(self)@.buffer, old(self)@.max_message_size) {
                NextFrame::Incomplete => result == Ok::<Option<Vec<u8>>, FrameError>(None) && final(self)@ == old(
                    self,
                )@,
                NextFrame::Complete { payload, consumed } => {
                    &&& result matches Ok(Some(message))
                    &&& message@ == payload
                    &&& final(self)@ == (TranscoderView {
                        buffer: old(self)@.buffer.subrange(consumed as int, old(self)@.buffer.len() as int),
                        ..old(self)@
                    })
                },
                NextFrame::TooLarge { size } => {
                    &&& result == Err::<Option<Vec<u8>>, FrameError>(
                        FrameError::MessageTooLarge {
                            size: size as usize,
                            max: size_limit(old(self)@.max_message_size) as usize,
                        },
                    )
                    &&& final(self)@ == old(self)@
                },
            },
    {
        if self.buffer.len() < 4 {
            return Ok(None);
        }
        let size = u32_from_le_bytes(slice_subrange(self.buffer.as_slice(), 0, 4)) as usize;
        let limit = effective_limit(self.max_message_size);
        if size > limit {
            return Err(FrameError::MessageTooLarge { size, max: limit });
        }
        if self.buffer.len() - 4 < size {
            return Ok(None);
        }
        let rest = self.buffer.split_off(4 + size);
        let message = self.buffer.split_off(4);
        assert(message@ =~= old(self)@.buffer.subrange(4, 4 + size as int));
        self.buffer = rest;
        Ok(Some(message))
    }
}

} // verus!
