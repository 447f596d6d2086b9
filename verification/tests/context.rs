use bollard::context::{current_context_name, docker_config_dir, host_for_context, resolve_host, ContextMeta};

fn meta(name: &str, host: &str) -> ContextMeta {
    ContextMeta { name: name.to_string(), host: Some(host.to_string()) }
}

fn some(s: &str) -> Option<String> {
    Some(s.to_string())
}

#[test]
fn docker_host_wins_over_everything() {
    let metas = [meta("some-context", "tcp://from-context:1234")];
    let resolved = resolve_host(
        &some("tcp://from-env:9999"),
        &some("some-context"),
        &some("some-context"),
        "unix:///default.sock",
        &metas,
    )
    .unwrap();
    assert_eq!(resolved, "tcp://from-env:9999");
}

#[test]
fn docker_context_env_resolves_to_stored_host() {
    let metas = [meta("remote", "ssh://user@host")];
    let resolved = resolve_host(&None, &some("remote"), &None, "unix:///default.sock", &metas).unwrap();
    assert_eq!(resolved, "ssh://user@host");
}

#[test]
fn current_context_from_config_used_when_env_unset() {
    let metas = [meta("staging", "tcp://staging:2375")];
    let resolved = resolve_host(&None, &None, &some("staging"), "unix:///default.sock", &metas).unwrap();
    assert_eq!(resolved, "tcp://staging:2375");
}

#[test]
fn docker_context_overrides_config_current_context() {
    let metas = [meta("from-config", "tcp://from-config:1"), meta("from-env", "tcp://from-env-ctx:2")];
    let resolved =
        resolve_host(&None, &some("from-env"), &some("from-config"), "unix:///default.sock", &metas).unwrap();
    assert_eq!(resolved, "tcp://from-env-ctx:2");
}

#[test]
fn default_context_falls_back_to_default_host() {
    let resolved = resolve_host(&None, &None, &some("default"), "unix:///default.sock", &[]).unwrap();
    assert_eq!(resolved, "unix:///default.sock");
}

#[test]
fn missing_config_and_env_falls_back_to_default() {
    let resolved = resolve_host(&None, &None, &None, "unix:///default.sock", &[]).unwrap();
    assert_eq!(resolved, "unix:///default.sock");
}

#[test]
fn unknown_context_errors() {
    let err = resolve_host(&None, &some("missing"), &None, "unix:///default.sock", &[]).err().unwrap();
    assert_eq!(err.name, "missing");
}

#[test]
fn host_for_context_resolves_named() {
    let metas = [meta("prod", "tcp://prod:2375")];
    assert_eq!(host_for_context("prod", "unix:///default.sock", &metas).ok().unwrap(), "tcp://prod:2375");
}

#[test]
fn host_for_context_default_returns_default() {
    assert_eq!(
        host_for_context("default", "unix:///default.sock", &[]).ok().unwrap(),
        "unix:///default.sock"
    );
    assert_eq!(host_for_context("", "unix:///default.sock", &[]).ok().unwrap(), "unix:///default.sock");
}

#[test]
fn host_for_context_unknown_errors() {
    let err = host_for_context("ghost", "unix:///default.sock", &[]).err().unwrap();
    assert_eq!(err.name, "ghost");
}

#[test]
fn current_context_name_reads_env_then_config() {
    assert_eq!(current_context_name(&some("from-env"), &some("from-config")).as_deref(), Some("from-env"));
    assert_eq!(current_context_name(&None, &some("from-config")).as_deref(), Some("from-config"));
}

#[test]
fn current_context_name_ignores_docker_host() {
    assert_eq!(current_context_name(&None, &None), None);
}

#[test]
fn empty_docker_host_treated_as_unset() {
    let metas = [meta("remote", "tcp://remote:2375")];
    let resolved = resolve_host(&some(""), &some("remote"), &None, "unix:///default.sock", &metas).unwrap();
    assert_eq!(resolved, "tcp://remote:2375");
}

#[test]
fn first_stored_context_of_a_name_wins_and_may_lack_a_host() {
    let metas = [
        ContextMeta { name: "a".into(), host: None },
        meta("a", "tcp://second:1"),
    ];
    assert_eq!(host_for_context("a", "d", &metas).err().unwrap().name, "a");
}

#[test]
fn config_dir_prefers_docker_config_then_home() {
    assert_eq!(docker_config_dir(&some("/cfg"), &some("/home/u")).as_deref(), Some("/cfg"));
    assert_eq!(docker_config_dir(&some(""), &some("/home/u")).as_deref(), Some("/home/u/.docker"));
    assert_eq!(docker_config_dir(&None, &some("/home/u/")).as_deref(), Some("/home/u/.docker"));
    assert_eq!(docker_config_dir(&None, &None), None);
}
