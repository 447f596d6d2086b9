use bollard::grpc::filesync::{lookup_mount, metadata_values, mount_name, parse_options, MetadataEntry};
use bollard::strmap::StrMap;
use bollard::grpc::filesync::{
    check_pattern_counts, normalize_follow_target, selection_with_follow_paths, validate_options,
    FileJob, ScanRequest, ScanSelection, SendAction, SendEvent, SendSession, SourceEntry, SyncCode,
    MAX_FILESYNC_PATTERNS, SCAN_BATCH_SIZE,
};
use bollard::grpc::transfer::{PACKET_DATA, PACKET_ERR, PACKET_FIN, PACKET_REQ, PACKET_STAT};

#[test]
fn normalize_follow_target_clamps_at_mount_root() {
    assert_eq!(normalize_follow_target("dir", "../../target"), Some(String::from("target")));
}

#[test]
fn follow_targets_resolve_like_paths() {
    assert_eq!(normalize_follow_target("a/b", "c/./d"), Some(String::from("a/b/c/d")));
    assert_eq!(normalize_follow_target("a/b", "/x/../y"), Some(String::from("y")));
    assert_eq!(normalize_follow_target("a", ".."), Some(String::new()));
    assert_eq!(normalize_follow_target("", "x//y/"), Some(String::from("x/y")));
}

fn strings(values: &[&str]) -> Vec<String> {
    values.iter().map(|v| v.to_string()).collect()
}

#[test]
fn scan_selection_bounds_resolved_filter_patterns() {
    let inclusions = vec![String::from("included"); MAX_FILESYNC_PATTERNS];
    let follow = strings(&["followed"]);
    let error = selection_with_follow_paths(&inclusions, &[], &follow).err().unwrap();
    assert_eq!(error.code, SyncCode::ResourceExhausted);
    assert_eq!(error.message, "FileSync request resolves to too many filter patterns");
}

#[test]
fn too_many_patterns_are_refused_before_resolution() {
    let many = vec![String::from("x"); MAX_FILESYNC_PATTERNS + 1];
    assert_eq!(check_pattern_counts(&many, &[]).err().unwrap().code, SyncCode::ResourceExhausted);
    assert!(check_pattern_counts(&[], &[]).is_ok());
}

#[test]
fn followpaths_become_inclusions_unless_one_is_the_root() {
    let sel = selection_with_follow_paths(&[], &[], &strings(&["src"])).unwrap();
    assert!(sel.is_selected("src"));
    assert!(sel.is_selected("src/main.rs"));
    assert!(!sel.is_selected("target"));
    let all = selection_with_follow_paths(&[], &[], &strings(&["src", "."])).unwrap();
    assert!(matches!(all, ScanSelection::All));
    assert!(all.is_selected("target"));
}

#[test]
fn exclusions_win_over_inclusions() {
    let sel = ScanSelection::from_patterns(&strings(&["src"]), &strings(&["src/gen"])).unwrap();
    assert!(sel.is_selected("src/lib.rs"));
    assert!(!sel.is_selected("src/gen/out.rs"));
    let error = ScanSelection::from_patterns(&[], &strings(&["!"])).err().unwrap();
    assert_eq!(error.code, SyncCode::InvalidArgument);
    assert_eq!(error.message, "invalid FileSync exclude pattern: illegal exclusion pattern: \"!\"");
}

#[test]
fn followpaths_are_checked_for_their_form() {
    assert!(validate_options(&strings(&[".", "src/lib.rs"]), &[], &[]).is_ok());
    for bad in ["", "/abs", "a/../b", ".."] {
        let error = validate_options(&strings(&[bad]), &[], &[]).err().unwrap();
        assert_eq!(error.code, SyncCode::InvalidArgument, "{bad:?}");
        assert_eq!(error.message, "invalid FileSync followpath path");
    }
    let long = "a".repeat(4097);
    assert!(validate_options(&[long], &[], &[]).is_err());
    let error = validate_options(&strings(&["[ab"]), &[], &[]).err().unwrap();
    assert_eq!(error.message, "invalid FileSync followpath pattern: invalid pattern \"[ab\"");
}

fn entry(position: u32, regular: bool, relative: &str) -> SourceEntry<&'static str> {
    SourceEntry { stat: "stat", position, regular, relative: relative.to_string() }
}

fn announced(session: &mut SendSession<&'static str>) {
    assert_eq!(session.scan_request(), Some(ScanRequest::Batch(SCAN_BATCH_SIZE)));
    let entries = vec![entry(0, false, "dir"), entry(1, true, "dir/file")];
    assert!(matches!(
        session.handle(SendEvent::ScanBatch { entries, finished: true }),
        SendAction::Wait
    ));
    for _ in 0..2 {
        assert!(session.has_pending_stat());
        assert!(matches!(session.handle(SendEvent::StatReady), SendAction::EmitStat("stat")));
    }
    assert!(!session.has_pending_stat());
    assert_eq!(session.scan_request(), Some(ScanRequest::Completion));
    assert!(matches!(
        session.handle(SendEvent::ScanBatch { entries: Vec::new(), finished: true }),
        SendAction::JoinScanner
    ));
    assert!(matches!(session.handle(SendEvent::ScannerJoined(Ok(()))), SendAction::EmitStatTerminator));
    assert_eq!(session.scan_request(), None);
}

fn fail_message(action: SendAction<&'static str>) -> (SyncCode, String) {
    match action {
        SendAction::Fail(status) => (status.code, status.message),
        _ => panic!("expected a failure"),
    }
}

#[test]
fn send_session_serves_each_regular_file_once() {
    let mut session = SendSession::new();
    announced(&mut session);
    assert!(matches!(
        session.handle(SendEvent::Packet { packet_type: PACKET_REQ, id: 1 }),
        SendAction::Wait
    ));
    let job: FileJob = session.queued_job().unwrap();
    assert_eq!((job.id, job.relative.as_str()), (1, "dir/file"));
    assert!(matches!(session.handle(SendEvent::JobQueued(1)), SendAction::Wait));
    assert!(session.queued_job().is_none());
    let (code, message) = fail_message(session.handle(SendEvent::Packet { packet_type: PACKET_REQ, id: 1 }));
    assert_eq!(code, SyncCode::InvalidArgument);
    assert_eq!(message, "invalid or repeated FileSync request ID");
}

#[test]
fn send_session_refuses_directories_and_unknown_ids() {
    let mut session = SendSession::new();
    announced(&mut session);
    let (_, message) = fail_message(session.handle(SendEvent::Packet { packet_type: PACKET_REQ, id: 0 }));
    assert_eq!(message, "FileSync request does not identify a regular file");
    let (_, message) = fail_message(session.handle(SendEvent::Packet { packet_type: PACKET_REQ, id: 9 }));
    assert_eq!(message, "invalid or repeated FileSync request ID");
}

#[test]
fn send_session_finishes_after_fin_and_the_last_file() {
    let mut session = SendSession::new();
    announced(&mut session);
    session.handle(SendEvent::Packet { packet_type: PACKET_REQ, id: 1 });
    session.handle(SendEvent::JobQueued(1));
    assert!(matches!(
        session.handle(SendEvent::Packet { packet_type: PACKET_FIN, id: 0 }),
        SendAction::Wait
    ));
    assert!(matches!(
        session.handle(SendEvent::WorkerData { id: 1, data: b"abc".to_vec() }),
        SendAction::Forward { id: 1, then_finish: false, .. }
    ));
    assert!(matches!(
        session.handle(SendEvent::WorkerData { id: 1, data: Vec::new() }),
        SendAction::Forward { id: 1, then_finish: true, .. }
    ));
}

#[test]
fn send_session_answers_fin_at_once_without_pending_files() {
    let mut session = SendSession::new();
    announced(&mut session);
    assert!(matches!(
        session.handle(SendEvent::Packet { packet_type: PACKET_FIN, id: 0 }),
        SendAction::Finish
    ));
    let (code, message) = fail_message(session.handle(SendEvent::Packet { packet_type: PACKET_FIN, id: 0 }));
    assert_eq!(code, SyncCode::FailedPrecondition);
    assert_eq!(message, "FileSync received repeated PACKET_FIN");
    let (_, message) = fail_message(session.handle(SendEvent::Packet { packet_type: PACKET_REQ, id: 1 }));
    assert_eq!(message, "FileSync received PACKET_REQ after PACKET_FIN");
}

#[test]
fn send_session_refuses_protocol_violations() {
    let mut session: SendSession<&'static str> = SendSession::new();
    let (_, message) = fail_message(session.handle(SendEvent::Packet { packet_type: PACKET_FIN, id: 0 }));
    assert_eq!(message, "FileSync received PACKET_FIN before STAT termination");
    for t in [PACKET_STAT, PACKET_DATA] {
        let (code, message) = fail_message(session.handle(SendEvent::Packet { packet_type: t, id: 0 }));
        assert_eq!(code, SyncCode::InvalidArgument);
        assert_eq!(message, "unexpected packet type from FileSync receiver");
    }
    let (_, message) = fail_message(session.handle(SendEvent::Packet { packet_type: 42, id: 0 }));
    assert_eq!(message, "unknown FileSync packet type");
    let (code, _) = fail_message(session.handle(SendEvent::Packet { packet_type: PACKET_ERR, id: 0 }));
    assert_eq!(code, SyncCode::Aborted);
    let (code, message) = fail_message(session.handle(SendEvent::InputEnded));
    assert_eq!(code, SyncCode::FailedPrecondition);
    assert_eq!(message, "FileSync stream ended before PACKET_FIN");
    let (_, message) = fail_message(session.handle(SendEvent::WorkerData { id: 5, data: Vec::new() }));
    assert_eq!(message, "FileSync worker emitted an unexpected EOF");
    let (_, message) = fail_message(session.handle(SendEvent::JobQueueClosed(7)));
    assert_eq!(message, "FileSync file-job queue closed for request 7");
    let (_, message) = fail_message(session.handle(SendEvent::ScannerJoined(Err("boom".to_string()))));
    assert_eq!(message, "FileSync scanner task failed: boom");
}

fn meta(key: &str, value: &str) -> MetadataEntry {
    MetadataEntry { key: key.to_string(), value: Some(value.to_string()) }
}

#[test]
fn metadata_decodes_encoded_values() {
    let metadata = vec![meta("dir-name", "caf%C3%A9"), meta("dir-name-encoded", "1")];
    let options = parse_options(&metadata).expect("metadata decodes");
    assert_eq!(options.dir_name.as_deref(), Some("café"));
}

#[test]
fn metadata_values_keep_order_and_decode_only_when_flagged() {
    let metadata = vec![
        meta("followpaths", "a+b"),
        meta("include-patterns", "x%2Fy"),
        meta("followpaths", "c%26d&e"),
        meta("followpaths-encoded", "True"),
        meta("followpaths-encoded", "0"),
    ];
    assert_eq!(metadata_values(&metadata, "followpaths").unwrap(), ["a b", "c&d"]);
    assert_eq!(metadata_values(&metadata, "include-patterns").unwrap(), ["x%2Fy"]);
    let options = parse_options(&metadata).unwrap();
    assert_eq!(options.dir_name, None);
    assert!(options.exclude_patterns.is_empty());
    let err = mount_name(&metadata).unwrap_err();
    assert_eq!(err.code, SyncCode::NotFound);
    assert_eq!(err.message, "local source name is missing");
    let bad = vec![meta("dir-name", "src"), MetadataEntry { key: String::from("exclude-patterns"), value: None }];
    let err = parse_options(&bad).unwrap_err();
    assert_eq!(err.code, SyncCode::InvalidArgument);
    assert_eq!(err.message, "invalid exclude-patterns metadata");
    assert_eq!(mount_name(&[meta("dir-name", "src"), meta("dir-name", "other")]).unwrap(), "src");
}

#[test]
fn mounts_are_found_by_their_exact_name() {
    let mut mounts: StrMap<u32> = StrMap::new();
    mounts.insert(String::from("context"), 7);
    assert_eq!(lookup_mount(&mounts, "context").ok(), Some(&7));
    for name in ["missing", "con", "Context"] {
        let e = lookup_mount(&mounts, name).unwrap_err();
        assert_eq!(e.code, SyncCode::NotFound);
        assert_eq!(e.message, format!("no access allowed to dir {name:?}"));
    }
}
