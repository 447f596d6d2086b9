use bollard::grpc::driver::docker_container::{
    validate_container_name, wait_decision, DockerContainerBuilder, DockerContainerLifecycle,
    RestartPolicyName, WaitDecision, LABEL_BUILDER_NAME, LABEL_DRIVER, LABEL_LIFECYCLE_SCHEMA,
    LABEL_MANAGED, LABEL_STATE_VOLUME, LIFECYCLE_SCHEMA_VERSION,
};

fn builder() -> DockerContainerBuilder {
    DockerContainerBuilder::new()
}

#[test]
fn persistent_is_the_default_lifecycle() {
    let builder = builder();
    assert_eq!(builder.config().lifecycle(), DockerContainerLifecycle::Persistent);
}

#[test]
fn lifecycle_policy_can_be_selected() {
    let mut builder = builder();
    builder.lifecycle(DockerContainerLifecycle::RemoveAfterSolve { keep_state: true });
    assert_eq!(
        builder.config().lifecycle(),
        DockerContainerLifecycle::RemoveAfterSolve { keep_state: true }
    );
}

#[test]
fn name_setter_updates_container_identity() {
    let mut builder = builder();
    builder.name("project-builder");
    assert_eq!(builder.config().name(), "project-builder");
    assert_eq!(builder.config().state_volume_name(), "project-builder_state");
}

#[test]
fn valid_container_names_are_accepted() {
    for name in ["ab", "project-builder", "A_b.c-1"] {
        assert!(validate_container_name(name).is_ok(), "{name}");
    }
}

#[test]
fn invalid_container_names_are_rejected() {
    for name in ["", "a", "-builder", ".builder", "builder/name", "builder name", "büilder"] {
        assert!(validate_container_name(name).is_err(), "{name}");
    }
}

#[test]
fn ownership_labels_identify_the_builder_and_state_volume() {
    let mut builder = builder();
    builder.name("project-builder");
    let labels = builder.config().ownership_labels();
    assert_eq!(labels.get(LABEL_MANAGED), Some(&String::from("true")));
    assert_eq!(labels.get(LABEL_DRIVER), Some(&String::from("docker-container")));
    assert_eq!(
        labels.get(LABEL_LIFECYCLE_SCHEMA),
        Some(&String::from(LIFECYCLE_SCHEMA_VERSION))
    );
    assert_eq!(labels.get(LABEL_BUILDER_NAME), Some(&String::from("project-builder")));
    assert_eq!(labels.get(LABEL_STATE_VOLUME), Some(&String::from("project-builder_state")));
}

#[test]
fn persistent_builders_restart_unless_stopped() {
    let builder = builder();
    assert_eq!(builder.config().restart_policy(), Some(RestartPolicyName::UnlessStopped));
}

#[test]
fn ephemeral_builders_do_not_restart_automatically() {
    let mut builder = builder();
    builder.lifecycle(DockerContainerLifecycle::StopAfterSolve);
    assert!(builder.config().restart_policy().is_none());
    builder.lifecycle(DockerContainerLifecycle::RemoveAfterSolve { keep_state: false });
    assert!(builder.config().restart_policy().is_none());
}

#[test]
fn fresh_builders_get_generated_names() {
    let builder = builder();
    let name = builder.config().name();
    assert!(name.starts_with("bollard_buildkit_"));
    assert_eq!(name.len(), "bollard_buildkit_".len() + 25);
    assert_eq!(builder.config().session_id().len(), 25);
}

#[test]
fn invalid_name_message_names_the_builder() {
    assert_eq!(
        validate_container_name("-x").unwrap_err(),
        "invalid Docker-container builder name `-x`: expected [a-zA-Z0-9][a-zA-Z0-9_.-]+"
    );
}

#[test]
fn bootstrap_defaults_to_the_host_network() {
    let mut b = builder();
    b.name("proj");
    b.arg("--debug");
    let config = b.into_bootstrap_config().unwrap();
    let plan = config.create_plan(false, None);
    assert_eq!(plan.network_mode.as_deref(), Some("host"));
    assert_eq!(
        plan.cmd,
        vec!["--debug".to_string(), "--allow-insecure-entitlement=network.host".to_string()]
    );
    let mut bad = builder();
    bad.name("x");
    assert!(bad.into_bootstrap_config().is_err());
}

#[test]
fn create_plan_follows_the_host() {
    let mut b = builder();
    b.name("proj");
    b.network("bridge");
    b.image("moby/buildkit:v0.12");
    b.env("A=1");
    let config = b.into_bootstrap_config().unwrap();
    let plan = config.create_plan(true, Some(&["name=seccomp".to_string(), "userns".to_string()]));
    assert_eq!(plan.image, "moby/buildkit:v0.12");
    assert_eq!(plan.env, vec!["A=1".to_string()]);
    assert!(plan.cmd.is_empty());
    assert_eq!(plan.network_mode.as_deref(), Some("bridge"));
    assert_eq!(plan.cgroup_parent.as_deref(), Some("/docker/buildx"));
    assert_eq!(plan.userns_mode.as_deref(), Some("host"));
    assert_eq!(plan.volume_source, "proj_state");
    assert_eq!(plan.volume_target, "/var/lib/buildkit");
    assert_eq!(plan.restart_policy, Some(RestartPolicyName::UnlessStopped));

    let mut c = builder();
    c.name("proj");
    c.cgroup_parent("/custom");
    let config = c.into_bootstrap_config().unwrap();
    let plan = config.create_plan(true, Some(&["apparmor".to_string()]));
    assert_eq!(plan.image, "moby/buildkit:master");
    assert_eq!(plan.cgroup_parent.as_deref(), Some("/custom"));
    assert!(plan.userns_mode.is_none());
    assert!(config.create_plan(false, None).cgroup_parent.is_none());
}

#[test]
fn start_up_is_retried_with_growing_delays() {
    assert_eq!(wait_decision(1, Some(0)), WaitDecision::Ready);
    assert_eq!(wait_decision(1, Some(1)), WaitDecision::Retry { delay_ms: 120 });
    assert_eq!(wait_decision(15, Some(1)), WaitDecision::Retry { delay_ms: 1800 });
    assert_eq!(wait_decision(16, Some(3)), WaitDecision::Failed { code: 3 });
    assert_eq!(wait_decision(20, None), WaitDecision::Retry { delay_ms: 2400 });
}
