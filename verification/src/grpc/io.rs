//! Demultiplexing of the framed stdout/stderr stream of a Docker exec session.
//!
//! Each frame is an eight-byte header (stream type, three zero bytes, a
//! big-endian payload length) followed by the payload. Stdout payloads are
//! passed on; stderr payloads are dropped.

use vstd::prelude::*;
use crate::bytes::{split_to, read_be_u32, be_u32, be_bytes, lemma_be_roundtrip};
use crate::text::decimal_text;

verus! {

/// The largest payload a frame may announce (16 MiB).
pub const MAX_DOCKER_EXEC_FRAME_SIZE: usize = 16777216;

/// The stream a frame belongs to.
#[derive(Debug, Copy, Clone, PartialEq, Eq, Structural)]
pub enum DockerExecStreamType {
    /// Standard output (type byte 1).
    Stdout,
    /// Standard error (type byte 2).
    Stderr,
}

/// Where the decoder stands within the frame sequence.
#[derive(Debug, Copy, Clone, PartialEq, Eq, Structural)]
pub enum DockerExecDecoderState {
    /// The next bytes are a frame header.
    WaitingHeader,
    /// A header has been read; `length` payload bytes of `stream_type` follow.
    WaitingPayload { stream_type: DockerExecStreamType, length: usize },
}

/// What went wrong while decoding.
#[derive(Debug, Copy, Clone, PartialEq, Eq, Structural)]
pub enum DecodeErrorKind {
    /// A header that breaks the frame format.
    InvalidData,
    /// The input ended inside a frame.
    UnexpectedEof,
}

/// A decoding failure: its kind and a message for people.
#[derive(Debug)]
pub struct DecodeError {
    /// The kind of failure.
    pub kind: DecodeErrorKind,
    /// A description of the failure.
    pub message: String,
}

impl DecodeError {
    /// The kind of failure.
    pub fn kind(&self) -> (res: DecodeErrorKind)
        ensures
            res == self.kind,
    {
        self.kind
    }
}

/// The outcome of one decoding step, in the model: the decoder's next state,
/// the bytes left in the buffer, and the frame payload or error produced.
pub type DecodeOutcome = (DockerExecDecoderState, Seq<u8>, Result<Option<Seq<u8>>, (DecodeErrorKind, Seq<char>)>);

/// The measure that every decoding step decreases.
pub open spec fn decode_measure(state: DockerExecDecoderState, buf: Seq<u8>) -> nat {
    buf.len() * 2 + if state is WaitingPayload { 1nat } else { 0nat }
}

/// What one call of `decode` does, given the decoder state and buffer: it
/// reads headers and payloads until a non-empty stdout payload is complete,
/// more input is needed, or a header is malformed.
pub open spec fn decode_spec(state: DockerExecDecoderState, buf: Seq<u8>) -> DecodeOutcome
    decreases decode_measure(state, buf),
{
    match state {
        DockerExecDecoderState::WaitingHeader => {
            if buf.len() < 8 {
                (state, buf, Ok(None))
            } else {
                let rest = buf.skip(8);
                if buf[0] != 1 && buf[0] != 2 {
                    (state, rest, Err((
                        DecodeErrorKind::InvalidData,
                        "unexpected Docker exec stream type: "@ + decimal_text(buf[0] as nat),
                    )))
                } else if buf[1] != 0 || buf[2] != 0 || buf[3] != 0 {
                    (state, rest, Err((DecodeErrorKind::InvalidData, "non-zero reserved bytes in Docker exec stream header"@)))
                } else {
                    let length = be_u32(buf[4], buf[5], buf[6], buf[7]) as nat;
                    if length > MAX_DOCKER_EXEC_FRAME_SIZE {
                        (state, rest, Err((
                            DecodeErrorKind::InvalidData,
                            "Docker exec frame exceeds maximum size: "@ + decimal_text(length) + " > "@
                                + decimal_text(MAX_DOCKER_EXEC_FRAME_SIZE as nat),
                        )))
                    } else {
                        let stream_type = if buf[0] == 1 {
                            DockerExecStreamType::Stdout
                        } else {
                            DockerExecStreamType::Stderr
                        };
                        decode_spec(
                            DockerExecDecoderState::WaitingPayload {
                                stream_type,
                                length: length as usize,
                            },
                            rest,
                        )
                    }
                }
            }
        },
        DockerExecDecoderState::WaitingPayload { stream_type, length } => {
            if buf.len() < length {
                (state, buf, Ok(None))
            } else {
                let payload = buf.take(length as int);
                let rest = buf.skip(length as int);
                if stream_type == DockerExecStreamType::Stdout && length > 0 {
                    (DockerExecDecoderState::WaitingHeader, rest, Ok(Some(payload)))
                } else {
                    decode_spec(DockerExecDecoderState::WaitingHeader, rest)
                }
            }
        },
    }
}

/// What `decode_eof` does: decode, and at the end of input report a
/// truncated frame unless the decoder stands between frames with nothing left.
pub open spec fn decode_eof_spec(state: DockerExecDecoderState, buf: Seq<u8>) -> DecodeOutcome {
    let (s, rest, r) = decode_spec(state, buf);
    match r {
        Ok(None) => if rest.len() == 0 && s is WaitingHeader {
            (s, rest, Ok(None))
        } else {
            (s, rest, Err((DecodeErrorKind::UnexpectedEof, "truncated Docker exec stream frame"@)))
        },
        _ => (s, rest, r),
    }
}

/// The type byte of a stream.
pub open spec fn stream_type_byte(t: DockerExecStreamType) -> u8 {
    match t {
        DockerExecStreamType::Stdout => 1,
        DockerExecStreamType::Stderr => 2,
    }
}

/// The bytes of one frame carrying `payload` on stream `t`.
pub open spec fn encode_frame(t: DockerExecStreamType, payload: Seq<u8>) -> Seq<u8> {
    seq![stream_type_byte(t), 0u8, 0u8, 0u8] + be_bytes(payload.len() as u32) + payload
}

/// Decoding a stdout frame with a non-empty payload yields exactly that
/// payload and leaves whatever followed the frame in the buffer.
pub proof fn law_stdout_frame_is_passed_on(payload: Seq<u8>, rest: Seq<u8>)
    requires
        0 < payload.len() <= MAX_DOCKER_EXEC_FRAME_SIZE,
    ensures
        decode_spec(
            DockerExecDecoderState::WaitingHeader,
            encode_frame(DockerExecStreamType::Stdout, payload) + rest,
        ) == (DockerExecDecoderState::WaitingHeader, rest, Ok::<Option<Seq<u8>>, (DecodeErrorKind, Seq<char>)>(Some(payload))),
{
    reveal_with_fuel(decode_spec, 2);
    let buf = encode_frame(DockerExecStreamType::Stdout, payload) + rest;
    lemma_frame_header(DockerExecStreamType::Stdout, payload, rest);
    let after = buf.skip(8);
    assert(after == payload + rest);
    assert(after.take(payload.len() as int) == payload);
    assert(after.skip(payload.len() as int) == rest);
}

/// A stderr frame, or a stdout frame with an empty payload, is consumed
/// without output: decoding continues with what follows it.
pub proof fn law_silent_frame_is_skipped(t: DockerExecStreamType, payload: Seq<u8>, rest: Seq<u8>)
    requires
        payload.len() <= MAX_DOCKER_EXEC_FRAME_SIZE,
        t == DockerExecStreamType::Stderr || payload.len() == 0,
    ensures
        decode_spec(DockerExecDecoderState::WaitingHeader, encode_frame(t, payload) + rest)
            == decode_spec(DockerExecDecoderState::WaitingHeader, rest),
{
    reveal_with_fuel(decode_spec, 2);
    let buf = encode_frame(t, payload) + rest;
    lemma_frame_header(t, payload, rest);
    let after = buf.skip(8);
    assert(after == payload + rest);
    assert(after.take(payload.len() as int) == payload);
    assert(after.skip(payload.len() as int) == rest);
}

proof fn lemma_frame_header(t: DockerExecStreamType, payload: Seq<u8>, rest: Seq<u8>)
    requires
        payload.len() <= MAX_DOCKER_EXEC_FRAME_SIZE,
    ensures
        ({
            let buf = encode_frame(t, payload) + rest;
            &&& buf.len() >= 8
            &&& buf[0] == stream_type_byte(t)
            &&& buf[1] == 0 && buf[2] == 0 && buf[3] == 0
            &&& be_u32(buf[4], buf[5], buf[6], buf[7]) == payload.len()
            &&& buf.skip(8) == payload + rest
        }),
{
    let n = payload.len() as u32;
    lemma_be_roundtrip(n);
    let buf = encode_frame(t, payload) + rest;
    assert(buf[4] == be_bytes(n)[0]);
    assert(buf[5] == be_bytes(n)[1]);
    assert(buf[6] == be_bytes(n)[2]);
    assert(buf[7] == be_bytes(n)[3]);
    assert(buf.skip(8) =~= payload + rest);
}

/// Splits the Docker exec stream into stdout payloads.
#[derive(Debug, Copy, Clone)]
pub struct DockerExecDecoder {
    /// The decoder's position within the frame sequence.
    pub state: DockerExecDecoderState,
}

impl DockerExecDecoder {
    /// A decoder that expects a frame header first.
    pub fn new() -> (res: Self)
        ensures
            res.state == DockerExecDecoderState::WaitingHeader,
    {
        DockerExecDecoder { state: DockerExecDecoderState::WaitingHeader }
    }

    /// Consumes complete frames from the front of `src` and returns the next
    /// non-empty stdout payload, `None` when more input is needed, or the
    /// error of a malformed header.
    pub fn decode(&mut self, src: &mut Vec<u8>) -> (res: Result<Option<Vec<u8>>, DecodeError>)
        ensures
            ({
                let (s, rest, r) = decode_spec(old(self).state, old(src)@);
                &&& final(self).state == s
                &&& final(src)@ == rest
                &&& match r {
                    Ok(Some(p)) => res matches Ok(Some(v)) && v@ == p,
                    Ok(None) => res matches Ok(None),
                    Err((k, m)) => res matches Err(e) && e.kind == k && e.message@ == m,
                }
            }),
    {
        loop
            invariant
                decode_spec(self.state, src@) == decode_spec(old(self).state, old(src)@),
            decreases decode_measure(self.state, src@),
        {
            match self.state {
                DockerExecDecoderState::WaitingHeader => {
                    if src.len() < 8 {
                        return Ok(None);
                    }
                    let header = split_to(src, 8);
                    if header[0] != 1 && header[0] != 2 {
                        let mut message = crate::text::owned("unexpected Docker exec stream type: ");
                        crate::text::push_decimal(&mut message, header[0] as u64);
                        return Err(DecodeError { kind: DecodeErrorKind::InvalidData, message });
                    }
                    if header[1] != 0 || header[2] != 0 || header[3] != 0 {
                        return Err(DecodeError {
                            kind: DecodeErrorKind::InvalidData,
                            message: crate::text::owned(
                                "non-zero reserved bytes in Docker exec stream header",
                            ),
                        });
                    }
                    let length = read_be_u32(header[4], header[5], header[6], header[7]);
                    if length as usize > MAX_DOCKER_EXEC_FRAME_SIZE {
                        let mut message = crate::text::owned("Docker exec frame exceeds maximum size: ");
                        crate::text::push_decimal(&mut message, length as u64);
                        crate::text::push_all(&mut message, " > ");
                        crate::text::push_decimal(&mut message, MAX_DOCKER_EXEC_FRAME_SIZE as u64);
                        return Err(DecodeError { kind: DecodeErrorKind::InvalidData, message });
                    }
                    let stream_type = if header[0] == 1 {
                        DockerExecStreamType::Stdout
                    } else {
                        DockerExecStreamType::Stderr
                    };
                    self.state = DockerExecDecoderState::WaitingPayload {
                        stream_type,
                        length: length as usize,
                    };
                },
                DockerExecDecoderState::WaitingPayload { stream_type, length } => {
                    if src.len() < length {
                        return Ok(None);
                    }
                    let payload = split_to(src, length);
                    self.state = DockerExecDecoderState::WaitingHeader;
                    if stream_type == DockerExecStreamType::Stdout && length > 0 {
                        return Ok(Some(payload));
                    }
                },
            }
        }
    }

    /// Like `decode`, for the end of input: a frame cut short, or bytes left
    /// over, is an `UnexpectedEof` error.
    pub fn decode_eof(&mut self, src: &mut Vec<u8>) -> (res: Result<Option<Vec<u8>>, DecodeError>)
        ensures
            ({
                let (s, rest, r) = decode_eof_spec(old(self).state, old(src)@);
                &&& final(self).state == s
                &&& final(src)@ == rest
                &&& match r {
                    Ok(Some(p)) => res matches Ok(Some(v)) && v@ == p,
                    Ok(None) => res matches Ok(None),
                    Err((k, m)) => res matches Err(e) && e.kind == k && e.message@ == m,
                }
            }),
    {
        match self.decode(src) {
            Err(e) => Err(e),
            Ok(Some(item)) => Ok(Some(item)),
            Ok(None) => {
                if src.len() == 0 && self.state == DockerExecDecoderState::WaitingHeader {
                    Ok(None)
                } else {
                    Err(DecodeError {
                        kind: DecodeErrorKind::UnexpectedEof,
                        message: crate::text::owned("truncated Docker exec stream frame"),
                    })
                }
            },
        }
    }
}

} // verus!

verus! {

/// Where a reader over a stream of byte chunks stands.
pub enum ReadState {
    /// A chunk is being handed out, from `chunk_start` on.
    Ready { chunk: Vec<u8>, chunk_start: usize },
    /// The next chunk must be fetched from the stream.
    PendingChunk,
    /// The stream ended or failed; reads return nothing.
    Eof,
}

/// The model of a reader's state: the rest of the current chunk, whether a
/// chunk must be fetched, whether the stream is over.
pub enum ReadView {
    Ready(Seq<u8>),
    PendingChunk,
    Eof,
}

/// What one read attempt does.
pub enum ReadStep {
    /// These bytes were read; the read is complete.
    Copied(Vec<u8>),
    /// The stream is over: the read completes with nothing.
    Finished,
    /// The next chunk must be fetched from the stream first.
    NeedChunk,
}

/// Turns a stream of byte chunks into a reader: each read hands out as much
/// of the current chunk as fits, empty chunks are skipped, and the end or a
/// failure of the stream ends the reader. The caller polls the stream.
pub struct IntoAsyncRead {
    state: ReadState,
}

impl IntoAsyncRead {
    /// The reader's state.
    pub closed spec fn view(&self) -> ReadView {
        match self.state {
            ReadState::Ready { chunk, chunk_start } => ReadView::Ready(chunk@.skip(chunk_start as int)),
            ReadState::PendingChunk => ReadView::PendingChunk,
            ReadState::Eof => ReadView::Eof,
        }
    }

    #[verifier::type_invariant]
    spec fn well_formed(&self) -> bool {
        match self.state {
            ReadState::Ready { chunk, chunk_start } => chunk_start < chunk@.len(),
            _ => true,
        }
    }

    /// A reader that has not fetched anything yet.
    pub fn new() -> (res: Self)
        ensures
            res@ == ReadView::PendingChunk,
    {
        IntoAsyncRead { state: ReadState::PendingChunk }
    }

    /// One read attempt with room for `remaining` bytes: a ready chunk hands
    /// out up to that many bytes (and is done when it runs out), a finished
    /// stream reads nothing, and otherwise a chunk must be fetched.
    pub fn poll_step(&mut self, remaining: usize) -> (res: ReadStep)
        ensures
            match old(self)@ {
                ReadView::Ready(rest) => {
                    let n = if remaining < rest.len() { remaining as int } else { rest.len() as int };
                    &&& res matches ReadStep::Copied(v) && v@ == rest.take(n)
                    &&& final(self)@ == if n == rest.len() { ReadView::PendingChunk } else { ReadView::Ready(rest.skip(n)) }
                },
                ReadView::PendingChunk => res is NeedChunk && final(self)@ == ReadView::PendingChunk,
                ReadView::Eof => res is Finished && final(self)@ == ReadView::Eof,
            },
    {
        proof {
            use_type_invariant(&*self);
        }
        let mut state = ReadState::Eof;
        std::mem::swap(&mut state, &mut self.state);
        match state {
            ReadState::Ready { chunk, chunk_start } => {
                let available = chunk.len() - chunk_start;
                let n = if remaining < available { remaining } else { available };
                let mut out: Vec<u8> = Vec::new();
                let mut i: usize = 0;
                while i < n
                    invariant
                        i <= n <= chunk@.len() - chunk_start,
                        chunk_start < chunk@.len(),
                        chunk@.len() == chunk.len(),
                        out@ == chunk@.subrange(chunk_start as int, chunk_start + i),
                    decreases n - i,
                {
                    out.push(chunk[chunk_start + i]);
                    assert(out@ =~= chunk@.subrange(chunk_start as int, chunk_start + i + 1));
                    i = i + 1;
                }
                assert(out@ =~= chunk@.skip(chunk_start as int).take(n as int));
                let next = chunk_start + n;
                if next == chunk.len() {
                    self.state = ReadState::PendingChunk;
                } else {
                    assert(chunk@.skip(next as int) =~= chunk@.skip(chunk_start as int).skip(n as int));
                    self.state = ReadState::Ready { chunk, chunk_start: next };
                }
                ReadStep::Copied(out)
            },
            ReadState::PendingChunk => {
                self.state = ReadState::PendingChunk;
                ReadStep::NeedChunk
            },
            ReadState::Eof => {
                self.state = ReadState::Eof;
                ReadStep::Finished
            },
        }
    }

    /// Records what the stream yielded when a chunk was needed: a non-empty
    /// chunk becomes ready, an empty one is skipped (`None`: poll again), and
    /// the end or a failure of the stream ends the reader and completes the
    /// read, passing the failure on.
    pub fn on_chunk<E>(&mut self, next: Option<Result<Vec<u8>, E>>) -> (res: Option<Result<(), E>>)
        requires
            old(self)@ == ReadView::PendingChunk,
        ensures
            match next {
                Some(Ok(c)) => res is None && final(self)@ == if c@.len() > 0 { ReadView::Ready(c@) } else { ReadView::PendingChunk },
                Some(Err(_)) => res matches Some(Err(_)) && final(self)@ == ReadView::Eof,
                None => res matches Some(Ok(())) && final(self)@ == ReadView::Eof,
            },
    {
        match next {
            Some(Ok(chunk)) => {
                if chunk.len() > 0 {
                    assert(chunk@.skip(0) =~= chunk@);
                    self.state = ReadState::Ready { chunk, chunk_start: 0 };
                }
                None
            },
            Some(Err(e)) => {
                self.state = ReadState::Eof;
                Some(Err(e))
            },
            None => {
                self.state = ReadState::Eof;
                Some(Ok(()))
            },
        }
    }
}

/// Reading hands out a stream's bytes in order: a chunk read in reads of
/// any sizes comes out whole, and nothing is lost between two reads.
pub proof fn law_reads_preserve_order(rest: Seq<u8>, remaining: nat)
    requires
        rest.len() > 0,
    ensures
        ({
            let n = if remaining < rest.len() { remaining as int } else { rest.len() as int };
            rest.take(n) + rest.skip(n) == rest
        }),
{
    let n = if remaining < rest.len() { remaining as int } else { rest.len() as int };
    assert(rest.take(n) + rest.skip(n) =~= rest);
}

} // verus!
