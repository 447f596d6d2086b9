use bollard::container::{
    wait_outcome, ContainerWaitExitError, ContainerWaitResponse, DockerContainerWaitError,
};

#[test]
fn test_container_wait_with_error() {
    let response = ContainerWaitResponse { status_code: 1, error: None };
    assert_eq!(
        wait_outcome(response),
        Err(DockerContainerWaitError { error: String::new(), code: 1 })
    );
}

#[test]
fn wait_errors_carry_the_daemon_message() {
    let response = ContainerWaitResponse {
        status_code: 137,
        error: Some(ContainerWaitExitError { message: Some(String::from("killed")) }),
    };
    assert_eq!(
        wait_outcome(response),
        Err(DockerContainerWaitError { error: String::from("killed"), code: 137 })
    );
}

#[test]
fn clean_exits_and_errors_without_message_pass_through() {
    let clean = ContainerWaitResponse { status_code: 0, error: None };
    assert_eq!(wait_outcome(clean.clone()), Ok(clean));
    let silent = ContainerWaitResponse {
        status_code: 2,
        error: Some(ContainerWaitExitError { message: None }),
    };
    assert_eq!(wait_outcome(silent.clone()), Ok(silent));
}
