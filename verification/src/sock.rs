//! Assembling whole messages out of a raw byte stream. A socket delivers
//! bytes in arbitrary pieces; the reader here owns a persistent
//! accumulation buffer, so a read that stops half-way loses nothing: the
//! next bytes resume from the offset already collected.
//!
//! The caller does the waiting and the reading; it hands every chunk it
//! got to [`MessageReader::feed`] and asks [`MessageReader::poll`] whether
//! a complete frame has arrived.
use vstd::prelude::*;

use crate::msg::HEADER_LEN;
use crate::msg::Header;
use crate::msg::HeaderParserError;
use crate::msg::Message;
use crate::msg::MessageView;
use crate::msg::spec_parse_header;
use crate::seri::DecodeError;
use crate::seri::deserialize;
use crate::seri::lemma_msg_round_trip;
use crate::seri::msg_wf;
use crate::seri::spec_decode_msg;
use crate::seri::spec_frame_bytes;
use crate::seri::spec_msg_bytes;

verus! {

/// Why a message could not be read: the peer hung up, the header was
/// malformed, or the payload did not decode. Each cause stays
/// distinguishable; none is ever coalesced into another.
#[derive(Clone, Copy, Debug, PartialEq, Eq)]
pub enum ReadMessageError {
    /// The peer closed the connection (a zero-length read).
    Disconnected,
    /// The fixed-size preamble did not parse.
    HeaderParser(HeaderParserError),
    /// The payload bytes did not decode to any message.
    DeserializationError(DecodeError),
}

/// One message read from the stream, with its payload size in bytes.
#[derive(Debug)]
pub struct ReadMessageStatus {
    pub msg: Message,
    pub bytes: usize,
}

/// Outcome of sending one queued message: how many payload bytes went
/// out, or nothing was waiting to be sent.
#[derive(Debug)]
pub enum SendStatus {
    Sent(usize),
    NoTask,
}

/// What polling a byte stream yields: a complete message and the total
/// frame bytes it consumed, nothing yet, or a framing error.
pub open spec fn spec_poll(s: Seq<u8>) -> Result<Option<(MessageView, int)>, ReadMessageError> {
    if s.len() < HEADER_LEN {
        Ok(None)
    } else {
        match spec_parse_header(s.subrange(0, HEADER_LEN as int)) {
            Err(e) => Err(ReadMessageError::HeaderParser(e)),
            Ok(n) => if n > usize::MAX {
                Err(ReadMessageError::HeaderParser(HeaderParserError::InvalidMsgSize))
            } else if s.len() < HEADER_LEN + n {
                Ok(None)
            } else {
                match spec_decode_msg(s.subrange(HEADER_LEN as int, HEADER_LEN + n)) {
                    Some(m) => Ok(Some((m, HEADER_LEN + n))),
                    None => Err(
                        ReadMessageError::DeserializationError(DecodeError::CorruptPayload),
                    ),
                }
            },
        }
    }
}

/// Assembles complete frames from arbitrarily-chunked input. Its view is
/// the byte sequence received but not yet consumed.
pub struct MessageReader {
    buf: Vec<u8>,
}

impl View for MessageReader {
    type V = Seq<u8>;

    closed spec fn view(&self) -> Seq<u8> {
        self.buf@
    }
}

impl MessageReader {
    /// A reader that has seen no bytes.
    pub fn new() -> (r: Self)
        ensures
            r@ == Seq::<u8>::empty(),
    {
        MessageReader { buf: Vec::new() }
    }

    /// Takes the next chunk of raw bytes from the stream. Where the chunk
    /// boundaries fall cannot matter: the buffer afterwards is exactly the
    /// concatenation of everything fed so far.
    pub fn feed(&mut self, chunk: &[u8])
        ensures
            final(self)@ == old(self)@ + chunk@,
    {
        self.buf.extend_from_slice(chunk);
    }

    /// How many bytes are buffered but not yet consumed.
    pub fn pending(&self) -> (r: usize)
        ensures
            r == self@.len(),
    {
        self.buf.len()
    }

    /// Checks whether the buffered bytes begin with a complete frame. If
    /// so, decodes it, consumes exactly its bytes, and returns the message;
    /// on a framing or decoding error nothing is consumed, and the caller
    /// decides whether to drop the connection. The result is a function of
    /// the buffered byte sequence alone.
    pub fn poll(&mut self) -> (r: Result<Option<ReadMessageStatus>, ReadMessageError>)
        ensures
            match r {
                Ok(None) => spec_poll(old(self)@) == Ok::<Option<(MessageView, int)>,
                    ReadMessageError,
                >(None) && final(self)@ == old(self)@,
                Ok(Some(status)) => spec_poll(old(self)@) matches Ok(Some((m, consumed)))
                    && status.msg@ == m && HEADER_LEN + status.bytes == consumed && final(self)@
                    == old(self)@.skip(consumed),
                Err(e) => spec_poll(old(self)@) == Err::<Option<(MessageView, int)>,
                    ReadMessageError,
                >(e) && final(self)@ == old(self)@,
            },
    {
        if self.buf.len() < HEADER_LEN {
            return Ok(None);
        }
        let header_slice = vstd::slice::slice_subrange(self.buf.as_slice(), 0, HEADER_LEN);
        let header = match Header::from_bytes(header_slice) {
            Err(e) => {
                return Err(ReadMessageError::HeaderParser(e));
            },
            Ok(h) => h,
        };
        let n = match header.size_checked() {
            None => {
                return Err(ReadMessageError::HeaderParser(HeaderParserError::InvalidMsgSize));
            },
            Some(n) => n,
        };
        if self.buf.len() - HEADER_LEN < n {
            return Ok(None);
        }
        let payload = vstd::slice::slice_subrange(self.buf.as_slice(), HEADER_LEN, HEADER_LEN + n);
        match deserialize(payload) {
            Err(_) => Err(ReadMessageError::DeserializationError(DecodeError::CorruptPayload)),
            Ok(msg) => {
                let rest = self.buf.split_off(HEADER_LEN + n);
                self.buf = rest;
                Ok(Some(ReadMessageStatus { msg, bytes: n }))
            },
        }
    }
}

/// A reader whose buffer starts with the frame of a well-formed message
/// yields exactly that message, consuming exactly the frame, whatever
/// bytes follow it.
pub proof fn lemma_poll_frame(m: MessageView, rest: Seq<u8>)
    requires
        msg_wf(m),
        spec_msg_bytes(m).len() <= usize::MAX,
    ensures
        spec_poll(spec_frame_bytes(m) + rest) == Ok::<Option<(MessageView, int)>,
            ReadMessageError,
        >(Some((m, spec_frame_bytes(m).len() as int))),
        (spec_frame_bytes(m) + rest).skip(spec_frame_bytes(m).len() as int) == rest,
{
    let payload = spec_msg_bytes(m);
    let n = payload.len() as u64;
    let s = spec_frame_bytes(m) + rest;
    crate::msg::lemma_header_bytes_len(n);
    assert(s.subrange(0, HEADER_LEN as int) =~= crate::msg::spec_header_bytes(n));
    crate::msg::lemma_header_round_trip(n);
    assert(s.subrange(HEADER_LEN as int, HEADER_LEN + n) =~= payload);
    lemma_msg_round_trip(m);
    assert(s.skip(spec_frame_bytes(m).len() as int) =~= rest);
}

/// The byte sequence a reader holds after being fed each chunk in order.
pub open spec fn spec_fed(chunks: Seq<Seq<u8>>) -> Seq<u8>
    decreases chunks.len(),
{
    if chunks.len() == 0 {
        Seq::empty()
    } else {
        spec_fed(chunks.drop_last()) + chunks.last()
    }
}

/// Chunking cannot matter: however a byte stream is split into chunks,
/// feeding them in order accumulates exactly the whole stream, so `poll`
/// — a function of the accumulated sequence alone — yields the identical
/// message it would for the stream fed as one chunk.
pub proof fn lemma_chunking_irrelevant(chunks: Seq<Seq<u8>>)
    ensures
        spec_fed(chunks) == chunks.flatten_alt(),
    decreases chunks.len(),
{
    if chunks.len() == 0 {
        assert(chunks.flatten_alt() =~= Seq::<u8>::empty());
    } else {
        lemma_chunking_irrelevant(chunks.drop_last());
    }
}

} // verus!
