use bollard::auth::DockerCredentials;
use bollard::grpc::ssh::GrpcSshError;
use bollard::grpc::{
    agent_id_from_metadata, new_id, resolve_agent_id, AuthProvider, BuildRef, HealthServerImpl,
    InvalidDockerCredentials, SecretError, SecretProvider, SecretSource, ServingStatus,
    SshAgentSource, SshProvider, UploadProvider, DEFAULT_SSH_AGENT_ID, SSH_ID_METADATA_KEY,
    UPLOAD_CHUNK_SIZE,
};
use bollard::strmap::StrMap;

#[test]
fn ssh_id_metadata_key_matches_buildkits_own() {
    assert_eq!(SSH_ID_METADATA_KEY, "buildkit.ssh.id");
    assert_eq!(DEFAULT_SSH_AGENT_ID, "default");
}

#[test]
fn an_empty_agent_id_means_default() {
    assert_eq!(resolve_agent_id(""), "default");
    assert_eq!(resolve_agent_id("deploy"), "deploy");
}

#[test]
fn a_forward_agent_stream_names_its_agent_in_metadata() {
    assert_eq!(agent_id_from_metadata(Some("deploy")), "deploy");
}

#[test]
fn a_forward_agent_stream_with_no_usable_id_falls_back_to_default() {
    assert_eq!(agent_id_from_metadata(None), "default", "absent key");
    assert_eq!(agent_id_from_metadata(Some("")), "default", "present but empty");
}

#[test]
fn a_socket_source_resolves_to_its_own_path() {
    let source = SshAgentSource::Socket(String::from("/tmp/deploy.sock"));
    assert_eq!(
        source.resolve(Some(String::from("/ignored"))).unwrap(),
        "/tmp/deploy.sock",
        "an explicit socket must not be overridden by SSH_AUTH_SOCK"
    );
}

#[test]
fn the_default_source_resolves_to_ssh_auth_sock() {
    assert_eq!(
        SshAgentSource::DefaultAgentSocket
            .resolve(Some(String::from("/run/agent.sock")))
            .unwrap(),
        "/run/agent.sock"
    );
}

#[test]
fn the_default_source_reports_a_missing_ssh_auth_sock() {
    for absent in [None, Some(String::new())] {
        let error = SshAgentSource::DefaultAgentSocket.resolve(absent.clone()).unwrap_err();
        match error {
            GrpcSshError::SshAgentSocketInit(message) => {
                assert!(message.contains("SSH_AUTH_SOCK"), "{absent:?}: {message}")
            }
            other => panic!("unexpected error {other:?}"),
        }
    }
}

#[test]
fn an_unregistered_agent_is_named_in_the_error() {
    let mut sources = StrMap::new();
    sources.insert(String::from("deploy"), SshAgentSource::Socket(String::from("/tmp/d.sock")));
    let provider = SshProvider::new(sources);
    assert_eq!(provider.socket_for("deploy", None).unwrap(), "/tmp/d.sock");
    match provider.socket_for("other", None).unwrap_err() {
        GrpcSshError::SshAgentSocketInit(message) => assert_eq!(
            message,
            "No ssh agent is registered under the id 'other' requested by this build"
        ),
        other => panic!("unexpected error {other:?}"),
    }
}

#[test]
fn grpc_test_new_id() {
    let s = new_id();
    assert_eq!(s.len(), 25);
}

#[test]
fn mod_test_new_id() {
    let s = new_id();
    assert_eq!(s.len(), 25);
    assert!(s.chars().all(|c| c.is_ascii_digit() || c.is_ascii_lowercase()));
}

#[test]
fn build_refs_are_random_ids() {
    let a = BuildRef::random();
    let b = BuildRef::random();
    assert_eq!(a.as_str().len(), 25);
    assert_ne!(a.as_str(), b.as_str());
    let text = a.as_str().to_owned();
    assert_eq!(a.into_string(), text);
}

#[test]
fn health_reports_the_overall_service_as_serving() {
    let health = HealthServerImpl::new();
    assert_eq!(health.check(""), Ok(ServingStatus::Serving));
    assert!(health.check("other").is_err());
    health.shutdown();
}

#[test]
fn uploads_are_offered_under_a_session_url_and_streamed_in_chunks() {
    let mut provider = UploadProvider::new();
    let data: Vec<u8> = (0..(UPLOAD_CHUNK_SIZE * 2 + 5)).map(|i| (i % 251) as u8).collect();
    let url = provider.add(data.clone());
    assert!(url.starts_with("http://buildkit-session/"));
    let id = &url["http://buildkit-session/".len()..];
    assert_eq!(id.len(), 25);
    let path = format!("/{id}");
    let chunks = provider.pull_chunks(Some(path.as_str())).unwrap();
    assert_eq!(chunks.len(), 3);
    assert_eq!(chunks[0].len(), UPLOAD_CHUNK_SIZE);
    assert_eq!(chunks[2].len(), 5);
    assert_eq!(chunks.concat(), data);
    assert!(provider.pull_chunks(Some("/missing")).is_err());
    assert!(provider.pull_chunks(None).is_err());
}

#[test]
fn auth_provider_answers_tokens_then_passwords() {
    let mut auth = AuthProvider::new();
    assert_eq!(auth.get_credentials("any").unwrap(), (String::new(), String::new()));
    auth.set_docker_credentials(
        "registry-1.docker.io",
        DockerCredentials {
            username: Some("u".into()),
            password: Some("p".into()),
            ..Default::default()
        },
    );
    assert_eq!(
        auth.get_credentials("https://index.docker.io/v1/").unwrap(),
        ("u".to_string(), "p".to_string())
    );
    auth.set_docker_credentials(
        "ghcr.io",
        DockerCredentials {
            username: Some("u".into()),
            identitytoken: Some("tok".into()),
            ..Default::default()
        },
    );
    assert_eq!(auth.get_credentials("ghcr.io").unwrap(), (String::new(), "tok".to_string()));
    auth.set_docker_credentials(
        "broken",
        DockerCredentials { username: Some("u".into()), ..Default::default() },
    );
    assert_eq!(auth.get_credentials("broken"), Err(InvalidDockerCredentials));
    assert_eq!(AuthProvider::token_expiry(None), 60);
    assert_eq!(AuthProvider::token_expiry(Some(300)), 300);
}

#[test]
fn secrets_are_found_by_id_and_bounded_in_size() {
    let mut store = StrMap::new();
    store.insert(String::from("npmrc"), SecretSource::Env(String::from("NPMRC")));
    let provider = SecretProvider::new(store);
    assert_eq!(provider.source_of("npmrc"), Ok(SecretSource::Env(String::from("NPMRC"))));
    assert_eq!(
        provider.source_of("other"),
        Err(SecretError::NotFound(String::from("secret missing ID")))
    );
    assert!(SecretProvider::check_secret_size(512000).is_ok());
    assert_eq!(
        SecretProvider::check_secret_size(512001),
        Err(SecretError::FailedPrecondition(String::from("invalid secret size 512001")))
    );
}

#[test]
fn token_form_uses_a_password_grant_for_users() {
    let scopes = vec![String::from("repository:a:pull"), String::from("repository:b:push")];
    let form = AuthProvider::token_form(&scopes, "registry.example", "alice", "secret", false);
    let expected = [
        ("client_id", "bollard-client"),
        ("scope", "repository:a:pull repository:b:push"),
        ("service", "registry.example"),
        ("grant_type", "password"),
        ("username", "alice"),
        ("password", "secret"),
    ];
    assert_eq!(form.iter().map(|(k, v)| (k.as_str(), v.as_str())).collect::<Vec<_>>(), expected);
}

#[test]
fn token_form_uses_a_refresh_grant_for_identity_tokens() {
    let form = AuthProvider::token_form(&[], "svc", "", "token", true);
    let expected = [
        ("client_id", "bollard-client"),
        ("service", "svc"),
        ("grant_type", "refresh_token"),
        ("refresh_token", "token"),
        ("access_type", "offline"),
    ];
    assert_eq!(form.iter().map(|(k, v)| (k.as_str(), v.as_str())).collect::<Vec<_>>(), expected);
    assert!(AuthProvider::token_status_accepted(200));
    assert!(AuthProvider::token_status_accepted(399));
    assert!(!AuthProvider::token_status_accepted(400));
    assert!(!AuthProvider::token_status_accepted(199));
}

#[test]
fn unavailable_secret_sources_name_the_path_or_variable() {
    assert_eq!(
        SecretProvider::unavailable_source(&SecretSource::File(String::from("/run/secret"))),
        SecretError::FailedPrecondition(String::from("path does not exist '\"/run/secret\"'"))
    );
    assert_eq!(
        SecretProvider::unavailable_source(&SecretSource::Env(String::from("TOKEN"))),
        SecretError::FailedPrecondition(String::from("env var 'TOKEN' does not exist"))
    );
}
