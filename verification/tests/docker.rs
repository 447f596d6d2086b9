use bollard::docker::{
    api_default_version, host_kind, http_client_addr, negotiate_version, server_error,
    status_accepted, ClientVersion, DockerResponseServerError, ErrorBodyParse, HostKind,
    TruncatedErrorBody,
};

#[test]
fn versions_parse_and_print() {
    let v = ClientVersion::parse("1.41").unwrap();
    assert_eq!(v, ClientVersion { major_version: 1, minor_version: 41 });
    assert_eq!(v.version_string(), "1.41");
    assert!(ClientVersion::parse("1").is_none());
    assert!(ClientVersion::parse("1.2.3").is_none());
    assert!(ClientVersion::parse("a.b").is_none());
    assert_eq!(ClientVersion::parse("+1.+2"), Some(ClientVersion { major_version: 1, minor_version: 2 }));
    assert_eq!(api_default_version().version_string(), "1.48");
}

#[test]
fn versions_order_by_major_then_minor() {
    let a = ClientVersion { major_version: 1, minor_version: 48 };
    let b = ClientVersion { major_version: 2, minor_version: 0 };
    assert!(a < b);
    assert!(a.is_older_than(&b));
    assert!(!b.is_older_than(&a));
    assert!(ClientVersion { major_version: 1, minor_version: 9 } < a);
}

#[test]
fn negotiation_moves_down_only() {
    let client = api_default_version();
    assert_eq!(
        negotiate_version(client, Some("1.41")).unwrap(),
        ClientVersion { major_version: 1, minor_version: 41 }
    );
    assert_eq!(negotiate_version(client, Some("1.50")).unwrap(), client);
    assert!(negotiate_version(client, Some("x")).is_err());
    assert!(negotiate_version(client, None).is_err());
}

#[test]
fn host_schemes_pick_the_transport() {
    assert_eq!(host_kind("unix:///var/run/docker.sock", false).ok(), Some(HostKind::Unix));
    assert_eq!(host_kind("tcp://h:2375", false).ok(), Some(HostKind::Http));
    assert_eq!(host_kind("tcp://h:2376", true).ok(), Some(HostKind::Ssl));
    assert_eq!(host_kind("https://h", false).ok(), Some(HostKind::Ssl));
    assert_eq!(host_kind("ssh://u@h", false).ok(), Some(HostKind::Ssh));
    assert_eq!(host_kind("ftp://h", false).err().unwrap().uri, "ftp://h");
    assert_eq!(http_client_addr("tcp://localhost:2375"), "localhost:2375");
    assert_eq!(http_client_addr("http://localhost:2375"), "localhost:2375");
}

#[test]
fn success_not_modified_and_upgrade_statuses_are_accepted() {
    for status in [200u16, 201, 204, 299, 304, 101] {
        assert!(status_accepted(status), "{status}");
    }
    for status in [100u16, 199, 300, 301, 400, 404, 409, 500] {
        assert!(!status_accepted(status), "{status}");
    }
}

#[test]
fn server_errors_carry_the_daemon_message() {
    assert_eq!(
        server_error(404, String::from("{\"message\":\"no such container\"}"), ErrorBodyParse::Message(String::from("no such container"))),
        Ok(DockerResponseServerError { status_code: 404, message: String::from("no such container") })
    );
    assert_eq!(
        server_error(500, String::from("plain failure"), ErrorBodyParse::NotJson),
        Ok(DockerResponseServerError { status_code: 500, message: String::from("plain failure") })
    );
    assert_eq!(
        server_error(500, String::new(), ErrorBodyParse::NotJson),
        Ok(DockerResponseServerError { status_code: 500, message: String::new() })
    );
    assert_eq!(server_error(500, String::from("{\"mess"), ErrorBodyParse::Truncated), Err(TruncatedErrorBody));
}
