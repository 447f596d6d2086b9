use bollard::grpc::io::{
    DecodeErrorKind, DockerExecDecoder, DockerExecDecoderState, DockerExecStreamType,
    MAX_DOCKER_EXEC_FRAME_SIZE,
};
use bollard::grpc::ssh::{SshAgentPacketDecoder, SSH_AGENTC_EXTENSION, SSH_AGENTC_REQUEST_IDENTITIES};

fn frame_header(stream_type: u8, length: usize) -> Vec<u8> {
    let mut frame = Vec::with_capacity(8);
    frame.extend_from_slice(&[stream_type, 0, 0, 0]);
    frame.extend_from_slice(&(length as u32).to_be_bytes());
    frame
}

#[test]
fn docker_exec_decoder_rejects_unknown_stream_types() {
    let mut decoder = DockerExecDecoder::new();
    let mut src = frame_header(3, 7);
    let error = decoder.decode(&mut src).unwrap_err();
    assert_eq!(error.kind(), DecodeErrorKind::InvalidData);
}

#[test]
fn docker_exec_decoder_rejects_non_zero_reserved_header_bytes() {
    let mut decoder = DockerExecDecoder::new();
    let mut src = vec![1, 0, 1, 0, 0, 0, 0, 0];
    let error = decoder.decode(&mut src).unwrap_err();
    assert_eq!(error.kind(), DecodeErrorKind::InvalidData);
}

#[test]
fn docker_exec_decoder_rejects_truncated_frames() {
    let mut decoder = DockerExecDecoder::new();
    let mut src = frame_header(1, b"payload".len())[..5].to_vec();
    let error = decoder.decode_eof(&mut src).unwrap_err();
    assert_eq!(error.kind(), DecodeErrorKind::UnexpectedEof);
}

#[test]
fn docker_exec_decoder_accepts_maximum_frame_length() {
    let mut decoder = DockerExecDecoder::new();
    let mut src = frame_header(1, MAX_DOCKER_EXEC_FRAME_SIZE);
    assert!(decoder.decode(&mut src).unwrap().is_none());
    assert!(matches!(
        decoder.state,
        DockerExecDecoderState::WaitingPayload {
            stream_type: DockerExecStreamType::Stdout,
            length: MAX_DOCKER_EXEC_FRAME_SIZE,
        }
    ));
}

#[test]
fn docker_exec_decoder_rejects_frame_length_above_maximum() {
    let mut decoder = DockerExecDecoder::new();
    let mut src = frame_header(1, MAX_DOCKER_EXEC_FRAME_SIZE + 1);
    let error = decoder.decode(&mut src).unwrap_err();
    assert_eq!(error.kind(), DecodeErrorKind::InvalidData);
}

#[test]
fn docker_exec_decoder_passes_stdout_and_skips_stderr() {
    let mut decoder = DockerExecDecoder::new();
    let mut src = frame_header(2, 3);
    src.extend_from_slice(b"err");
    src.extend_from_slice(&frame_header(1, 2));
    src.extend_from_slice(b"ok");
    assert_eq!(decoder.decode(&mut src).unwrap(), Some(b"ok".to_vec()));
    assert!(src.is_empty());
    assert_eq!(decoder.decode(&mut src).unwrap(), None);
}

#[test]
fn test_sshforward_message_identities_answer() {
    let mut buf = b"\0\0\0\x05\x0c\0\0\0\0".to_vec();
    let mut codec = SshAgentPacketDecoder::new();
    assert!(codec.decode(&mut buf).is_err());
}

#[test]
fn test_sshforward_message_unknown() {
    let mut buf = b"\0\0\0\x01\xff".to_vec();
    let mut codec = SshAgentPacketDecoder::new();
    assert!(codec.decode(&mut buf).is_err());
}

#[test]
fn test_sshforward_request_identities() {
    let mut buf = vec![0_u8, 0, 0, 1, SSH_AGENTC_REQUEST_IDENTITIES];
    let mut codec = SshAgentPacketDecoder::new();
    assert_eq!(codec.decode(&mut buf).unwrap(), Some(b"\0\0\0\x01\x0b".to_vec()));
}

#[test]
fn test_sshforward_extension() {
    let mut buf = vec![0_u8, 0, 0, 1, SSH_AGENTC_EXTENSION];
    let mut codec = SshAgentPacketDecoder::new();
    assert_eq!(codec.decode(&mut buf).unwrap(), Some(b"\0\0\0\x01\x06".to_vec()));
}

#[test]
fn test_sshforward_overly_long_message_length() {
    let mut buf = b"\x01\0\0\x01\xff".to_vec();
    let mut codec = SshAgentPacketDecoder::new();
    assert!(codec.decode(&mut buf).is_err());
}
