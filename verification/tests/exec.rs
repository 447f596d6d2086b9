use bollard::exec::{exec_start_request, StartExecOptions};

#[test]
fn detached_starts_send_their_options_without_attaching() {
    let req = exec_start_request("abc123", Some(StartExecOptions { detach: true }));
    assert_eq!(req.path, "/exec/abc123/start");
    assert!(!req.attach);
    assert_eq!(req.options, StartExecOptions { detach: true });
}

#[test]
fn other_starts_attach_with_default_options() {
    let req = exec_start_request("abc123", None);
    assert_eq!(req.path, "/exec/abc123/start");
    assert!(req.attach);
    assert_eq!(req.options, StartExecOptions { detach: false });
    let explicit = exec_start_request("x", Some(StartExecOptions { detach: false }));
    assert!(explicit.attach);
}
