use bollard::grpc::transfer::{
    validate_path, FileTransferLimits, TransferAction, TransferErrorCode, TransferLedger,
    TransferPacket, TransferStat, PACKET_DATA, PACKET_FIN, PACKET_STAT,
};

#[test]
fn test_safe_path_rejects_unsafe_components() {
    for path in ["", ".", "..", "../escape", "/absolute", "foo/../bar"] {
        assert!(validate_path(path).is_err(), "{path:?}");
    }
}

#[test]
fn safe_paths_are_canonicalised() {
    assert_eq!(validate_path("a//b/./c").unwrap(), "a/b/c");
}

fn stat(path: &str, mode: u32, size: i64) -> TransferPacket {
    TransferPacket {
        packet_type: PACKET_STAT,
        stat: Some(TransferStat { path: path.to_string(), mode, size, linkname: String::new() }),
        id: 0,
        data: Vec::new(),
    }
}

fn packet(packet_type: i32, id: u32, data: &[u8]) -> TransferPacket {
    TransferPacket { packet_type, stat: None, id, data: data.to_vec() }
}

#[test]
fn ledger_accepts_a_regular_file_transfer() {
    let mut ledger = TransferLedger::new();
    match ledger.handle_packet(&stat("f", 0o644, 3)).unwrap() {
        TransferAction::Stat { path, .. } => assert_eq!(path, "f"),
        _ => panic!("expected a stat action"),
    }
    assert!(matches!(ledger.handle_packet(&packet(PACKET_STAT, 0, b"")).unwrap(), TransferAction::Nothing));
    assert!(matches!(
        ledger.handle_packet(&packet(PACKET_DATA, 0, b"abc")).unwrap(),
        TransferAction::WriteData { id: 0 }
    ));
    assert!(matches!(
        ledger.handle_packet(&packet(PACKET_DATA, 0, b"")).unwrap(),
        TransferAction::FinishFile { id: 0, then_fin: true, .. }
    ));
    assert!(ledger.is_complete());
    assert!(matches!(ledger.handle_packet(&packet(PACKET_FIN, 0, b"")).unwrap(), TransferAction::Nothing));
    assert_eq!(
        ledger.handle_packet(&packet(PACKET_DATA, 0, b"x")).unwrap_err().code,
        TransferErrorCode::FailedPrecondition
    );
}

#[test]
fn ledger_refuses_duplicates_and_oversized_files() {
    let mut ledger = TransferLedger::with_limits(FileTransferLimits { max_files: None, max_bytes: Some(4) });
    ledger.handle_packet(&stat("d", 0x8000_0000 | 0o755, 0)).unwrap();
    assert_eq!(ledger.handle_packet(&stat("d", 0x8000_0000, 0)).unwrap_err().code, TransferErrorCode::AlreadyExists);
    assert_eq!(ledger.handle_packet(&stat("big", 0o644, 5)).unwrap_err().code, TransferErrorCode::ResourceExhausted);
    assert_eq!(FileTransferLimits::default(), FileTransferLimits { max_files: None, max_bytes: None });
}

fn refusal(result: Result<TransferAction, bollard::grpc::transfer::TransferError>) -> (TransferErrorCode, String) {
    let e = result.unwrap_err();
    (e.code, e.message)
}

#[test]
fn refusals_name_the_offending_path() {
    let err = validate_path("../escape").unwrap_err();
    assert_eq!(err.code, TransferErrorCode::InvalidArgument);
    assert_eq!(err.message, "invalid export path: \"../escape\"");
    let mut ledger = TransferLedger::new();
    assert!(ledger.handle_packet(&stat("dir/file", 0o644, 0)).is_ok());
    let (code, message) = refusal(ledger.handle_packet(&stat("dir//file", 0o644, 0)));
    assert_eq!(code, TransferErrorCode::AlreadyExists);
    assert_eq!(message, "duplicate export path: \"dir//file\"");
    match ledger.handle_packet(&stat("fifo", 0x0200_0000, 0)).unwrap() {
        TransferAction::Stat { path, action: bollard::grpc::transfer::StatAction::Refuse(e) } => {
            assert_eq!(path, "fifo");
            assert_eq!(e.code, TransferErrorCode::Unimplemented);
            assert_eq!(e.message, "unsupported file type for path \"fifo\"");
        }
        other => panic!("unexpected {other:?}"),
    }
}

#[test]
fn data_errors_say_how_much_arrived() {
    let mut ledger = TransferLedger::new();
    assert!(ledger.handle_packet(&stat("f", 0o644, 4)).is_ok());
    assert!(ledger.handle_packet(&packet(PACKET_DATA, 0, b"ab")).is_ok());
    let (code, message) = refusal(ledger.handle_packet(&packet(PACKET_DATA, 0, b"")));
    assert_eq!(code, TransferErrorCode::InvalidArgument);
    assert_eq!(message, "file ended after 2 of 4 bytes");
    let (_, message) = refusal(ledger.handle_packet(&packet(PACKET_DATA, 0, b"abc")));
    assert_eq!(message, "file transfer exceeds the declared file size");
    let (_, message) = refusal(ledger.handle_packet(&packet(PACKET_DATA, 7, b"")));
    assert_eq!(message, "end-of-file packet for unknown file");
    let (_, message) = refusal(ledger.handle_packet(&packet(PACKET_DATA, 7, b"x")));
    assert_eq!(message, "data packet for unknown file");
    let (code, message) = refusal(ledger.handle_packet(&packet(4, 0, b"boom \xff")));
    assert_eq!(code, TransferErrorCode::Unknown);
    assert_eq!(message, "packet error: boom \u{fffd}");
    let (_, message) = refusal(ledger.handle_packet(&packet(42, 0, b"")));
    assert_eq!(message, "unknown packet type");
}

#[test]
fn finalizing_and_ending_the_stream_need_the_whole_transfer() {
    let mut ledger = TransferLedger::new();
    let early = ledger.check_finalize().unwrap_err();
    assert_eq!(early.code, TransferErrorCode::FailedPrecondition);
    assert_eq!(early.message, "file transfer finalized before all files were received");
    let eof = ledger.finish_stream().unwrap_err();
    assert_eq!(eof.code, TransferErrorCode::FailedPrecondition);
    assert_eq!(eof.message, "file packet stream ended before PACKET_FIN");
    ledger.handle_packet(&stat("f", 0o644, 0)).unwrap();
    ledger.handle_packet(&packet(PACKET_STAT, 0, b"")).unwrap();
    assert!(ledger.check_finalize().is_err());
    ledger.handle_packet(&packet(PACKET_DATA, 0, b"")).unwrap();
    assert!(ledger.check_finalize().is_ok());
    assert!(ledger.finish_stream().is_err());
    ledger.handle_packet(&packet(PACKET_FIN, 0, b"")).unwrap();
    assert!(ledger.finish_stream().is_ok());
}
