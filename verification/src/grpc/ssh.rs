//! Framing of the ssh-agent protocol relayed for BuildKit's ssh forwarding.
//!
//! A message is a four-byte big-endian length, a one-byte message type and
//! the rest of the payload. Identity requests and sign responses are relayed
//! whole; extension requests are answered with a fixed failure-free reply;
//! any other message type is refused.

use vstd::prelude::*;
use crate::bytes::{split_to, read_be_u32, be_u32};

verus! {

/// `SSH_AGENTC_REQUEST_IDENTITIES`.
pub const SSH_AGENTC_REQUEST_IDENTITIES: u8 = 11;
/// `SSH_AGENTC_SIGN_RESPONSE`.
pub const SSH_AGENTC_SIGN_RESPONSE: u8 = 13;
/// `SSH_AGENTC_EXTENSION`.
pub const SSH_AGENTC_EXTENSION: u8 = 27;
/// The largest message length accepted (1 MiB).
pub const MAX_MESSAGE_SIZE: u32 = 1048576;

/// Errors of the ssh forwarding session.
#[derive(Debug, Clone, PartialEq, Eq)]
pub enum GrpcSshError {
    /// A message that breaks the protocol's framing.
    InvalidMessage(String),
    /// A message of a type that is not relayed.
    InvalidMessageType(u8),
    /// The buffered input is longer than a `u32` can count.
    BufferTooLarge,
    /// The agent socket could not be determined or reached.
    SshAgentSocketInit(String),
}

/// Where the decoder stands within the message sequence.
#[derive(Debug, Copy, Clone, PartialEq, Eq, Structural)]
pub enum SshAgentPacketDecoderState {
    /// A message header is expected.
    WaitingHeader,
    /// A header announcing this message type and length has been seen.
    WaitingPayload(u8, u32),
}

/// The reply relayed for an extension request.
pub open spec fn extension_reply() -> Seq<u8> {
    seq![0u8, 0u8, 0u8, 1u8, 6u8]
}

/// The model of a decoding outcome: the error, or the message produced.
pub enum SshDecodeResult {
    /// More input is needed.
    Pending,
    /// A message to relay.
    Message(Seq<u8>),
    /// The announced length exceeds the maximum.
    TooLong,
    /// The buffer is longer than `u32::MAX` bytes.
    Overflow,
    /// A message type that is not relayed.
    BadType(u8),
}

/// The payload step: with the header seen, relay or refuse once the buffer
/// holds the announced length.
pub open spec fn payload_step(t: u8, length: u32, buf: Seq<u8>) -> (SshAgentPacketDecoderState, Seq<u8>, SshDecodeResult) {
    let state = SshAgentPacketDecoderState::WaitingPayload(t, length);
    if buf.len() > u32::MAX {
        (state, buf, SshDecodeResult::Overflow)
    } else if buf.len() < length {
        (state, buf, SshDecodeResult::Pending)
    } else if t == SSH_AGENTC_REQUEST_IDENTITIES || t == SSH_AGENTC_SIGN_RESPONSE {
        (SshAgentPacketDecoderState::WaitingHeader, Seq::empty(), SshDecodeResult::Message(buf))
    } else if t == SSH_AGENTC_EXTENSION {
        (SshAgentPacketDecoderState::WaitingHeader, Seq::empty(), SshDecodeResult::Message(extension_reply()))
    } else {
        (SshAgentPacketDecoderState::WaitingHeader, Seq::empty(), SshDecodeResult::BadType(t))
    }
}

/// What one call of `decode` does. The header stays in the buffer: a relayed
/// message is the whole buffer, header included.
pub open spec fn ssh_decode_spec(state: SshAgentPacketDecoderState, buf: Seq<u8>) -> (SshAgentPacketDecoderState, Seq<u8>, SshDecodeResult) {
    match state {
        SshAgentPacketDecoderState::WaitingHeader => {
            if buf.len() < 5 {
                (state, buf, SshDecodeResult::Pending)
            } else {
                let length = be_u32(buf[0], buf[1], buf[2], buf[3]);
                if length > MAX_MESSAGE_SIZE {
                    (state, buf, SshDecodeResult::TooLong)
                } else {
                    payload_step(buf[4], length, buf)
                }
            }
        },
        SshAgentPacketDecoderState::WaitingPayload(t, length) => payload_step(t, length, buf),
    }
}

/// Decoder of the ssh-agent message stream.
#[derive(Debug)]
pub struct SshAgentPacketDecoder {
    /// The decoder's position within the message sequence.
    pub state: SshAgentPacketDecoderState,
}

impl SshAgentPacketDecoder {
    /// A decoder that expects a message header first.
    pub fn new() -> (res: Self)
        ensures
            res.state == SshAgentPacketDecoderState::WaitingHeader,
    {
        SshAgentPacketDecoder { state: SshAgentPacketDecoderState::WaitingHeader }
    }

    /// Returns the next message to relay, `None` when more input is needed,
    /// or the error of a message that must not be relayed.
    pub fn decode(&mut self, src: &mut Vec<u8>) -> (res: Result<Option<Vec<u8>>, GrpcSshError>)
        ensures
            ({
                let (s, rest, r) = ssh_decode_spec(old(self).state, old(src)@);
                &&& final(self).state == s
                &&& final(src)@ == rest
                &&& match r {
                    SshDecodeResult::Pending => res matches Ok(None),
                    SshDecodeResult::Message(m) => res matches Ok(Some(v)) && v@ == m,
                    SshDecodeResult::TooLong => res matches Err(GrpcSshError::InvalidMessage(m))
                        && m@ == "Refusing to read message with size larger than 1048576"@,
                    SshDecodeResult::Overflow => res matches Err(GrpcSshError::BufferTooLarge),
                    SshDecodeResult::BadType(t) => res == Err::<Option<Vec<u8>>, GrpcSshError>(
                        GrpcSshError::InvalidMessageType(t),
                    ),
                }
            }),
    {
        if let SshAgentPacketDecoderState::WaitingHeader = self.state {
            if src.len() < 5 {
                return Ok(None);
            }
            let length = read_be_u32(src[0], src[1], src[2], src[3]);
            if length > MAX_MESSAGE_SIZE {
                return Err(GrpcSshError::InvalidMessage(crate::text::owned(
                    "Refusing to read message with size larger than 1048576",
                )));
            }
            self.state = SshAgentPacketDecoderState::WaitingPayload(src[4], length);
        }
        match self.state {
            SshAgentPacketDecoderState::WaitingPayload(message_type, length) => {
                if src.len() > 4294967295usize {
                    return Err(GrpcSshError::BufferTooLarge);
                }
                if (src.len() as u32) < length {
                    return Ok(None);
                }
                let n = src.len();
                let message = split_to(src, n);
                assert(message@ == old(src)@);
                if message_type == SSH_AGENTC_REQUEST_IDENTITIES || message_type
                    == SSH_AGENTC_SIGN_RESPONSE {
                    self.state = SshAgentPacketDecoderState::WaitingHeader;
                    Ok(Some(message))
                } else if message_type == SSH_AGENTC_EXTENSION {
                    self.state = SshAgentPacketDecoderState::WaitingHeader;
                    Ok(Some(vec![0u8, 0u8, 0u8, 1u8, 6u8]))
                } else {
                    self.state = SshAgentPacketDecoderState::WaitingHeader;
                    Err(GrpcSshError::InvalidMessageType(message_type))
                }
            },
            SshAgentPacketDecoderState::WaitingHeader => {
                Ok(None)
            },
        }
    }
}

} // verus!
