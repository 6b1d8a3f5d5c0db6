//! Framing of messages on a byte stream.
//!
//! A frame is a header of four bytes, the payload's length with the most
//! significant byte first, followed by the payload. A stream of frames can be
//! cut into reads at any place: the reader collects the bytes and hands out
//! every payload whole, in order.

use vstd::prelude::*;

verus! {

/// The number of bytes of a frame's header.
pub const HEADER_LEN: usize = 4;

/// The longest payload that a frame may carry.
pub const MAX_PAYLOAD_LEN: usize = 1048576;

/// The header of a frame whose payload has `len` bytes.
pub open spec fn spec_header(len: nat) -> Seq<u8> {
    seq![
        (len / 16777216 % 256) as u8,
        (len / 65536 % 256) as u8,
        (len / 256 % 256) as u8,
        (len % 256) as u8,
    ]
}

/// The length that the first four bytes of `bytes` announce.
pub open spec fn spec_announced(bytes: Seq<u8>) -> nat {
    (bytes[0] as nat) * 16777216 + (bytes[1] as nat) * 65536 + (bytes[2] as nat) * 256 + (bytes[3] as nat)
}

/// The frame that carries `payload`.
pub open spec fn spec_frame(payload: Seq<u8>) -> Seq<u8> {
    spec_header(payload.len()) + payload
}

/// What the start of a stream holds.
pub enum Parsed {
    /// Not yet a whole frame.
    Incomplete,
    /// A header that announces more than `MAX_PAYLOAD_LEN` bytes.
    Oversized,
    /// A whole frame: its payload and the bytes after it.
    Complete { payload: Seq<u8>, rest: Seq<u8> },
}

/// What the start of `stream` holds.
pub open spec fn spec_parse(stream: Seq<u8>) -> Parsed {
    if stream.len() < HEADER_LEN {
        Parsed::Incomplete
    } else if spec_announced(stream) > MAX_PAYLOAD_LEN {
        Parsed::Oversized
    } else if stream.len() < HEADER_LEN + spec_announced(stream) {
        Parsed::Incomplete
    } else {
        Parsed::Complete {
            payload: stream.subrange(HEADER_LEN as int, HEADER_LEN + spec_announced(stream)),
            rest: stream.subrange(HEADER_LEN + spec_announced(stream), stream.len() as int),
        }
    }
}

/// Why a stream cannot be read any further.
#[derive(Debug, Clone, Copy, PartialEq, Eq, Structural)]
pub enum FrameError {
    /// A frame announces, or a payload has, more than `MAX_PAYLOAD_LEN` bytes.
    TooLong,
}

/// The frame that carries `payload`, or `TooLong` for a payload of more than
/// `MAX_PAYLOAD_LEN` bytes.
pub fn encode_frame(payload: &Vec<u8>) -> (frame: Result<Vec<u8>, FrameError>)
    ensures
        payload@.len() <= MAX_PAYLOAD_LEN ==> (frame matches Ok(bytes) && bytes@ == spec_frame(payload@)),
        payload@.len() > MAX_PAYLOAD_LEN ==> frame == Err::<Vec<u8>, FrameError>(FrameError::TooLong),
{
    let len = payload.len();
    if len > MAX_PAYLOAD_LEN {
        return Err(FrameError::TooLong);
    }
    let mut bytes: Vec<u8> = Vec::new();
    bytes.push((len / 16777216 % 256) as u8);
    bytes.push((len / 65536 % 256) as u8);
    bytes.push((len / 256 % 256) as u8);
    bytes.push((len % 256) as u8);
    assert(bytes@ =~= spec_header(len as nat));
    let mut i: usize = 0;
    while i < len
        invariant
            len == payload@.len(),
            i <= len,
            bytes@ == spec_header(len as nat) + payload@.subrange(0, i as int),
        decreases len - i,
    {
        bytes.push(payload[i]);
        i = i + 1;
        assert(bytes@ =~= spec_header(len as nat) + payload@.subrange(0, i as int));
    }
    assert(payload@.subrange(0, len as int) =~= payload@);
    Ok(bytes)
}

/// A header announces the length it was made for.
pub proof fn lemma_header_round_trip(len: nat)
    requires
        len < 4294967296,
    ensures
        spec_header(len).len() == HEADER_LEN,
        spec_announced(spec_header(len)) == len,
{
}

/// The bytes of a connection that were read and not yet handed out.
pub struct FrameReader {
    buffer: Vec<u8>,
}

impl View for FrameReader {
    type V = Seq<u8>;

    closed spec fn view(&self) -> Seq<u8> {
        self.buffer@
    }
}

impl FrameReader {
    pub fn new() -> (reader: Self)
        ensures
            reader@ == Seq::<u8>::empty(),
    {
        Self { buffer: Vec::new() }
    }

    /// Takes in the bytes of one read.
    pub fn feed(&mut self, chunk: &Vec<u8>)
        ensures
            final(self)@ == old(self)@ + chunk@,
    {
        let mut i: usize = 0;
        while i < chunk.len()
            invariant
                i <= chunk.len(),
                self@ == old(self)@ + chunk@.subrange(0, i as int),
            decreases chunk.len() - i,
        {
            self.buffer.push(chunk[i]);
            i = i + 1;
            assert(self@ =~= old(self)@ + chunk@.subrange(0, i as int));
        }
        assert(chunk@.subrange(0, chunk.len() as int) =~= chunk@);
    }

    /// Hands out the payload of the first frame if it is whole, and keeps the
    /// bytes after it. Without a whole frame nothing changes and the result is
    /// `None`. A header that announces too long a payload is an error, and
    /// the bytes stay as they are.
    pub fn next_frame(&mut self) -> (frame: Result<Option<Vec<u8>>, FrameError>)
        ensures
            match spec_parse(old(self)@) {
                Parsed::Incomplete => frame == Ok::<Option<Vec<u8>>, FrameError>(None) && final(self)@ == old(
                    self,
                )@,
                Parsed::Oversized => frame == Err::<Option<Vec<u8>>, FrameError>(FrameError::TooLong)
                    && final(self)@ == old(self)@,
                Parsed::Complete { payload, rest } => (frame matches Ok(Some(bytes)) && bytes@ == payload)
                    && final(self)@ == rest,
            },
    {
        if self.buffer.len() < HEADER_LEN {
            return Ok(None);
        }
        let announced: usize = (self.buffer[0] as usize) * 16777216 + (self.buffer[1] as usize) * 65536 + (
        self.buffer[2] as usize) * 256 + (self.buffer[3] as usize);
        if announced > MAX_PAYLOAD_LEN {
            return Err(FrameError::TooLong);
        }
        if self.buffer.len() - HEADER_LEN < announced {
            return Ok(None);
        }
        let end: usize = HEADER_LEN + announced;
        let mut payload: Vec<u8> = Vec::new();
        let mut i: usize = HEADER_LEN;
        while i < end
            invariant
                HEADER_LEN <= i <= end <= self.buffer@.len(),
                payload@ == self.buffer@.subrange(HEADER_LEN as int, i as int),
            decreases end - i,
        {
            payload.push(self.buffer[i]);
            i = i + 1;
            assert(payload@ =~= self.buffer@.subrange(HEADER_LEN as int, i as int));
        }
        let mut rest: Vec<u8> = Vec::new();
        let mut j: usize = end;
        while j < self.buffer.len()
            invariant
                end <= j <= self.buffer@.len(),
                rest@ == self.buffer@.subrange(end as int, j as int),
            decreases self.buffer.len() - j,
        {
            rest.push(self.buffer[j]);
            j = j + 1;
            assert(rest@ =~= self.buffer@.subrange(end as int, j as int));
        }
        self.buffer = rest;
        Ok(Some(payload))
    }
}

/// A frame, whatever follows it on the stream, is read back as its payload,
/// and what follows it is what stays.
pub proof fn law_frame_round_trip(payload: Seq<u8>, rest: Seq<u8>)
    requires
        payload.len() <= MAX_PAYLOAD_LEN,
    ensures
        spec_parse(spec_frame(payload) + rest) == (Parsed::Complete { payload, rest }),
{
    let stream = spec_frame(payload) + rest;
    lemma_header_round_trip(payload.len());
    assert(stream[0] == spec_header(payload.len())[0]);
    assert(stream[1] == spec_header(payload.len())[1]);
    assert(stream[2] == spec_header(payload.len())[2]);
    assert(stream[3] == spec_header(payload.len())[3]);
    assert(spec_announced(stream) == payload.len());
    assert(stream.subrange(HEADER_LEN as int, HEADER_LEN + payload.len()) =~= payload);
    assert(stream.subrange(HEADER_LEN + payload.len(), stream.len() as int) =~= rest);
}

/// A frame that has not arrived whole is not read: every proper start of a
/// frame is incomplete.
pub proof fn law_partial_frame_is_incomplete(payload: Seq<u8>, received: int)
    requires
        payload.len() <= MAX_PAYLOAD_LEN,
        0 <= received < spec_frame(payload).len(),
    ensures
        spec_parse(spec_frame(payload).subrange(0, received)) == Parsed::Incomplete,
{
    let start = spec_frame(payload).subrange(0, received);
    lemma_header_round_trip(payload.len());
    if received >= HEADER_LEN {
        assert(start[0] == spec_header(payload.len())[0]);
        assert(start[1] == spec_header(payload.len())[1]);
        assert(start[2] == spec_header(payload.len())[2]);
        assert(start[3] == spec_header(payload.len())[3]);
        assert(spec_announced(start) == payload.len());
    }
}

} // verus!
