use bollard::grpc::driver::{solve_transition, SolveEvent, SolvePhase, SolveStep};
use bollard::auth::DockerCredentials;
use bollard::grpc::driver::docker_container::{DockerContainerBuilder, DockerContainerLifecycle};
use bollard::grpc::driver::{
    build_definition_solve_request, plan_definition_solve, plan_solve, solve_outcome, DefinitionExporter,
    DefinitionSolveOptions, DefinitionSolveOptionsBuilder, DefinitionSolveRequest, DriverBuilder, SessionService,
};
use bollard::grpc::image_build::{
    CacheOptionsEntry, ImageBuildFrontendOptions, ImageBuildHostIp, ImageBuildNetworkMode, ImageBuildPlatform,
};
use bollard::grpc::transfer::FileTransferLimits;
use bollard::grpc::{BuildRef, SecretSource};
use bollard::strmap::StrMap;
use std::time::Duration;

fn local_cache() -> CacheOptionsEntry {
    CacheOptionsEntry { backend: String::from("local"), attrs: StrMap::new() }
}

#[test]
fn definition_options_are_configured_through_builder() {
    let cache = local_cache();
    let options = DefinitionSolveOptionsBuilder::new()
        .cache_to(&cache)
        .cache_from(&cache)
        .credential("registry.example", DockerCredentials::default())
        .secret("token", SecretSource::Env(String::from("TOKEN")))
        .enable_ssh(true)
        .timeout(Duration::from_secs(3))
        .file_transfer_limits(FileTransferLimits { max_files: Some(2), max_bytes: Some(8) })
        .build();

    assert_eq!(options.cache_to().len(), 1);
    assert_eq!(options.cache_from().len(), 1);
    assert!(options.credentials().contains_key("registry.example"));
    assert!(options.secrets().contains_key("token"));
    assert!(options.ssh());
    assert_eq!(options.timeout(), Some(Duration::from_secs(3)));
    assert_eq!(options.file_transfer_limits().max_files, Some(2));
}

#[test]
fn definition_options_have_a_bounded_default_timeout() {
    assert_eq!(DefinitionSolveOptions::default().timeout(), Some(Duration::from_secs(10 * 60)));
}

#[test]
fn definition_solve_request_has_definition_and_empty_frontend() {
    let request = build_definition_solve_request(
        &DefinitionExporter::Local(String::from("/out")),
        &DefinitionSolveOptions::default(),
        "session-id",
        None,
    );
    assert!(request.frontend.is_empty());
    assert!(request.frontend_attrs.is_empty());
    assert_eq!(request.exporter, "local");
    assert!(request.exporter_attrs.is_empty());
    assert_eq!(request.exporters, ["local"]);
    assert_eq!(request.session, "session-id");
    assert_eq!(request.reference.len(), 25);
    assert!(!request.reference.contains("/out"));
}

#[test]
fn definition_solve_keeps_a_chosen_build_reference() {
    let request = build_definition_solve_request(
        &DefinitionExporter::Local(String::from("/out")),
        &DefinitionSolveOptions::default(),
        "s",
        Some(BuildRef::random()),
    );
    assert_eq!(request.reference.len(), 25);
    let plan = plan_definition_solve(
        DefinitionSolveRequest::new(7u8, DefinitionExporter::Local(String::from("/out"))),
    );
    assert_eq!(plan.definition, 7);
    assert_eq!(plan.request.session.len(), 25);
    assert_ne!(plan.request.session, plan.request.reference);
}

#[test]
fn definition_solve_registers_shared_services_without_upload() {
    let request = DefinitionSolveRequest::new((), DefinitionExporter::Local(String::from("/out"))).with_options(
        DefinitionSolveOptionsBuilder::new()
            .enable_ssh(true)
            .credential("registry.example", DockerCredentials {
                username: Some(String::from("u")),
                password: Some(String::from("p")),
                ..DockerCredentials::default()
            })
            .file_transfer_limits(FileTransferLimits { max_files: Some(3), max_bytes: None })
            .build(),
    );
    let plan = plan_definition_solve(request);
    assert_eq!(plan.services.len(), 4);
    match &plan.services[0] {
        SessionService::Auth(auth) => {
            assert_eq!(auth.get_credentials("registry.example").unwrap(), (String::from("u"), String::from("p")));
        }
        _ => panic!("credentials come first"),
    }
    assert!(matches!(plan.services[1], SessionService::Secrets(_)));
    match &plan.services[2] {
        SessionService::Ssh(ssh) => assert_eq!(ssh.socket_for("default", Some(String::from("/agent"))).unwrap(), "/agent"),
        _ => panic!("the ssh agent comes third"),
    }
    match &plan.services[3] {
        SessionService::FileSendPacket(receiver) => {
            assert_eq!(receiver.dest(), "/out");
            assert_eq!(receiver.limits().max_files, Some(3));
        }
        _ => panic!("the export receiver comes last"),
    }
    assert!(!plan.services.iter().any(|s| matches!(s, SessionService::Upload(_))));
}

#[test]
fn dockerfile_solve_offers_the_context_for_upload() {
    let options = ImageBuildFrontendOptions::builder().pull(true).target("release").build();
    let mut exporter_attrs = StrMap::new();
    exporter_attrs.insert(String::from("name"), String::from("img"));
    let plan = plan_solve("docker", exporter_attrs, Some(String::from("/tmp/out.tar")), options, vec![1, 2, 3], None, None);
    assert_eq!(plan.request.frontend, "dockerfile.v0");
    assert_eq!(plan.request.exporter, "docker");
    assert_eq!(plan.request.exporter_attrs.get("name"), Some(&String::from("img")));
    assert!(plan.request.exporters.is_empty());
    assert_eq!(plan.request.frontend_attrs.get("image-resolve-mode"), Some(&String::from("pull")));
    assert_eq!(plan.request.frontend_attrs.get("target"), Some(&String::from("release")));
    let context = plan.request.frontend_attrs.get("context").unwrap().clone();
    assert!(context.starts_with("http://buildkit-session/"));
    let id = &context["http://buildkit-session/".len()..];
    assert_eq!(id.len(), 25);
    assert_eq!(plan.services.len(), 4);
    match &plan.services[1] {
        SessionService::Upload(upload) => {
            let path = format!("/{id}");
            assert_eq!(upload.pull_chunks(Some(path.as_str())).unwrap(), vec![vec![1u8, 2, 3]]);
        }
        _ => panic!("the upload comes second"),
    }
    match &plan.services[3] {
        SessionService::FileSend(receiver) => assert_eq!(receiver.dest(), "/tmp/out.tar"),
        _ => panic!("the file receiver comes last"),
    }
}

#[test]
fn dockerfile_solve_without_path_or_ssh_offers_three_services() {
    let plan = plan_solve("oci", StrMap::new(), None, ImageBuildFrontendOptions::builder().build(), vec![], None, None);
    assert_eq!(plan.services.len(), 3);
    assert!(matches!(plan.services[0], SessionService::Auth(_)));
    assert!(matches!(plan.services[2], SessionService::Secrets(_)));
}

#[test]
fn solve_failure_wins_over_teardown_failure() {
    assert_eq!(solve_outcome(Err("solve"), Err("teardown")), Err("solve"));
    assert_eq!(solve_outcome::<&str>(Err("solve"), Ok(())), Err("solve"));
    assert_eq!(solve_outcome(Ok(()), Err("teardown")), Err("teardown"));
    assert_eq!(solve_outcome::<&str>(Ok(()), Ok(())), Ok(()));
}

#[test]
fn frontend_options_become_frontend_attributes() {
    let mut cache = local_cache();
    cache.attrs.insert(String::from("dest"), String::from("/cache"));
    let options = ImageBuildFrontendOptions::builder()
        .cacheto(&cache)
        .nocache(true)
        .buildarg("A", "1")
        .label("team", "core")
        .platforms(&ImageBuildPlatform { architecture: String::from("linux"), os: String::from("arm64"), variant: Some(String::from("v8")) })
        .platforms(&ImageBuildPlatform { architecture: String::from("linux"), os: String::from("amd64"), variant: None })
        .force_network_mode(&ImageBuildNetworkMode::Host)
        .extrahost(&ImageBuildHostIp { host: String::from("db"), ip: String::from("10.0.0.2") })
        .extrahost(&ImageBuildHostIp { host: String::from("cache"), ip: String::from("::1") })
        .shmsize(1024)
        .set_secret("token", &SecretSource::File(String::from("/run/token")))
        .enable_ssh(true)
        .named_context("base", "docker-image://alpine")
        .build();
    let ingest = options.consume();
    let attrs = &ingest.frontend_attrs;
    let get = |k: &str| attrs.get(k).cloned();
    assert_eq!(get("image-resolve-mode"), Some(String::from("default")));
    assert_eq!(get("no-cache"), Some(String::new()));
    assert_eq!(get("build-arg:A"), Some(String::from("1")));
    assert_eq!(get("label:team"), Some(String::from("core")));
    assert_eq!(get("platform"), Some(String::from("linux/arm64/v8,linux/amd64")));
    assert_eq!(get("force-network-mode"), Some(String::from("host")));
    assert_eq!(get("add-hosts"), Some(String::from("db=10.0.0.2,cache=::1")));
    assert_eq!(get("shm-size"), Some(String::from("1024")));
    assert_eq!(get("frontend.caps"), Some(String::from("moby.buildkit.frontend.contexts+forward")));
    assert_eq!(get("context:base"), Some(String::from("docker-image://alpine")));
    assert_eq!(get("target"), None);
    assert_eq!(attrs.len(), 10);
    assert_eq!(ingest.cache_to.len(), 1);
    assert_eq!(ingest.cache_to[0].attrs.get("dest"), Some(&String::from("/cache")));
    assert!(ingest.cache_from.is_empty());
    assert_eq!(ingest.secret_sources.get("token"), Some(&SecretSource::File(String::from("/run/token"))));
    assert!(ingest.ssh);
}

#[test]
fn default_frontend_options_only_set_the_resolve_mode() {
    let ingest = ImageBuildFrontendOptions::builder().force_network_mode(&ImageBuildNetworkMode::Bridge).build().consume();
    assert_eq!(ingest.frontend_attrs.len(), 1);
    assert_eq!(ingest.frontend_attrs.get("image-resolve-mode"), Some(&String::from("default")));
    let none = ImageBuildFrontendOptions::builder().force_network_mode(&ImageBuildNetworkMode::NoNetwork).build().consume();
    assert_eq!(none.frontend_attrs.get("force-network-mode"), Some(&String::from("none")));
}

#[test]
fn network_modes_and_platforms_have_their_names() {
    assert_eq!(ImageBuildNetworkMode::Bridge.to_string(), "default");
    assert_eq!(ImageBuildNetworkMode::Host.to_string(), "host");
    assert_eq!(ImageBuildNetworkMode::NoNetwork.to_string(), "none");
    assert_eq!(ImageBuildNetworkMode::Container(String::from("db")).to_string(), "container:db");
    let absolute = ImageBuildPlatform { architecture: String::from("arm"), os: String::from("/linux"), variant: None };
    assert_eq!(absolute.to_string(), "/linux");
}

#[test]
fn legacy_driver_defaults_to_the_host_network() {
    let driver = DriverBuilder::new("buildkit", "session").into_bootstrap_config();
    let plan = driver.create_plan(true, Some(&[String::from("name=userns")][..]));
    assert_eq!(plan.image, "moby/buildkit:master");
    assert_eq!(plan.cmd, ["--allow-insecure-entitlement=network.host"]);
    assert_eq!(plan.network_mode.as_deref(), Some("host"));
    assert_eq!(plan.volume_source, "buildkit_state");
    assert_eq!(plan.volume_target, "/var/lib/buildkit");
    assert_eq!(plan.cgroup_parent.as_deref(), Some("/docker/buildx"));
    assert_eq!(plan.userns_mode, None);
    let userns = driver.create_plan(false, Some(&[String::from("userns")][..]));
    assert_eq!(userns.userns_mode.as_deref(), Some("host"));
    assert_eq!(userns.cgroup_parent, None);
    let mut builder = DriverBuilder::new("b", "s");
    builder.network("bridge");
    let bridged = builder.into_bootstrap_config();
    assert_eq!(bridged.create_plan(false, None).cmd, Vec::<String>::new());
    assert_eq!(bridged.name(), "b");
    assert_eq!(bridged.session_id(), "s");
}

#[test]
fn docker_container_plan_shares_the_defaults() {
    let mut builder = DockerContainerBuilder::new();
    builder.name("builder");
    builder.lifecycle(DockerContainerLifecycle::StopAfterSolve);
    let config = builder.into_bootstrap_config().unwrap();
    let plan = config.create_plan(true, None);
    assert_eq!(plan.image, "moby/buildkit:master");
    assert_eq!(plan.cgroup_parent.as_deref(), Some("/docker/buildx"));
    assert_eq!(plan.restart_policy, None);
}


/// Runs `events` from the start of a solve; gives the number of teardowns
/// and the result it ended with, if any.
fn run_solve(events: Vec<SolveEvent<String>>) -> (usize, Option<Result<(), String>>) {
    let mut phase = SolvePhase::SettingUp;
    let mut teardowns = 0;
    let mut finished = None;
    for event in events {
        let (next, step) = solve_transition(phase, event);
        phase = next;
        match step {
            SolveStep::TearDown => teardowns += 1,
            SolveStep::Finish(r) => finished = Some(r),
            SolveStep::StartSolve | SolveStep::Nothing => {}
        }
    }
    (teardowns, finished)
}

#[test]
fn execute_solve_tears_down_after_setup_failure() {
    let (teardowns, result) = run_solve(vec![
        SolveEvent::SetupFinished(Err("internal".to_string())),
        SolveEvent::TearDownFinished(Err("aborted".to_string())),
    ]);
    assert_eq!(teardowns, 1);
    assert_eq!(result, Some(Err("internal".to_string())));
}

#[test]
fn execute_solve_preserves_solve_failure_over_teardown_failure() {
    let (teardowns, result) = run_solve(vec![
        SolveEvent::SetupFinished(Ok(())),
        SolveEvent::SolveFinished(Err("not found".to_string())),
        SolveEvent::TearDownFinished(Err("aborted".to_string())),
    ]);
    assert_eq!(teardowns, 1);
    assert_eq!(result, Some(Err("not found".to_string())));
}

#[test]
fn execute_solve_returns_teardown_failure_after_success() {
    let (teardowns, result) = run_solve(vec![
        SolveEvent::SetupFinished(Ok(())),
        SolveEvent::SolveFinished(Ok(())),
        SolveEvent::TearDownFinished(Err("aborted".to_string())),
    ]);
    assert_eq!(teardowns, 1);
    assert_eq!(result, Some(Err("aborted".to_string())));
}

#[test]
fn execute_solve_succeeds_and_tears_down_once() {
    let (teardowns, result) = run_solve(vec![
        SolveEvent::SetupFinished(Ok(())),
        SolveEvent::SolveFinished(Ok(())),
        SolveEvent::TearDownFinished(Ok(())),
        SolveEvent::Cancelled,
    ]);
    assert_eq!(teardowns, 1);
    assert_eq!(result, Some(Ok(())));
}

#[test]
fn execute_solve_tears_down_after_cancellation() {
    let (teardowns, result) = run_solve(vec![SolveEvent::SetupFinished(Ok(())), SolveEvent::Cancelled]);
    assert_eq!(teardowns, 1);
    assert_eq!(result, None);
    let (teardowns, _) = run_solve(vec![
        SolveEvent::SetupFinished(Ok(())),
        SolveEvent::SolveFinished(Ok(())),
        SolveEvent::Cancelled,
    ]);
    assert_eq!(teardowns, 1);
}
