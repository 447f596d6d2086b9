use bollard::env::{config_paths, DOCKER_CONFIG_FILENAME, INDEX_NAME};

#[test]
fn config_is_looked_for_in_docker_config_then_home() {
    assert_eq!(
        config_paths(&Some("/cfg".into()), &Some("/home/u".into())),
        vec!["/cfg/config.json".to_string(), "/home/u/.docker/config.json".to_string()]
    );
    assert_eq!(config_paths(&None, &None), Vec::<String>::new());
    assert_eq!(DOCKER_CONFIG_FILENAME, "config.json");
    assert_eq!(INDEX_NAME, "docker.io");
}
