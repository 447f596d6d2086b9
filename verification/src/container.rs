//! Plain results and options of the container endpoints.

use vstd::prelude::*;
use crate::strmap::StrMap;

verus! {

/// What the archive endpoint reports about a path in a container.
#[derive(Debug, Clone)]
pub struct PathStatResponse {
    /// The entry's name.
    pub name: String,
    /// Its size in bytes.
    pub size: i64,
    /// Its file mode bits.
    pub file_mode: u32,
    /// Its modification time.
    pub modification_time: Option<String>,
    /// Its link target, for a symlink.
    pub link_target: String,
}

/// The networks a container is connected to when it is created: endpoint
/// settings by network name.
pub struct NetworkingConfig<E> {
    pub endpoints_config: StrMap<E>,
}

impl<E> NetworkingConfig<E> {
    /// The endpoint settings by network name.
    pub fn into_endpoints(self) -> (res: StrMap<E>)
        ensures
            res@ == self.endpoints_config@,
    {
        self.endpoints_config
    }
}

/// Options of the checkpoint creation endpoint.
#[derive(Debug, Clone)]
pub struct CreateCheckpointOptions {
    /// The checkpoint's id.
    pub checkpoint_id: String,
    /// The directory the checkpoint is written to.
    pub checkpoint_dir: Option<String>,
    /// Whether the container stops after checkpointing.
    pub exit: bool,
}

/// Options of the checkpoint listing endpoint.
#[derive(Debug, Clone)]
pub struct ListCheckpointsOptions {
    /// The directory checkpoints are read from.
    pub checkpoint_dir: Option<String>,
}

/// Options of the checkpoint removal endpoint.
#[derive(Debug, Clone)]
pub struct DeleteCheckpointOptions {
    /// The directory the checkpoint is removed from.
    pub checkpoint_dir: Option<String>,
}

/// A checkpoint of a container.
#[derive(Debug, Clone)]
pub struct Checkpoint {
    /// The checkpoint's name.
    pub name: String,
}

impl Default for CreateCheckpointOptions {
    fn default() -> (res: Self)
        ensures
            res.checkpoint_id@.len() == 0,
            res.checkpoint_dir is None,
            !res.exit,
    {
        CreateCheckpointOptions { checkpoint_id: String::new(), checkpoint_dir: None, exit: false }
    }
}

impl Default for ListCheckpointsOptions {
    fn default() -> (res: Self)
        ensures
            res.checkpoint_dir is None,
    {
        ListCheckpointsOptions { checkpoint_dir: None }
    }
}

impl Default for DeleteCheckpointOptions {
    fn default() -> (res: Self)
        ensures
            res.checkpoint_dir is None,
    {
        DeleteCheckpointOptions { checkpoint_dir: None }
    }
}


/// The exit error reported with a container's wait response.
#[derive(Debug, Clone, PartialEq, Eq)]
pub struct ContainerWaitExitError {
    /// Its message, when the daemon gives one.
    pub message: Option<String>,
}

/// One answer of the container wait endpoint.
#[derive(Debug, Clone, PartialEq, Eq)]
pub struct ContainerWaitResponse {
    /// The container's exit code.
    pub status_code: i64,
    /// The exit error, when the daemon reports one.
    pub error: Option<ContainerWaitExitError>,
}

/// A container that exited with a non-zero code while being waited on.
#[derive(Debug, Clone, PartialEq, Eq)]
pub struct DockerContainerWaitError {
    /// The error message the daemon reported, empty when it reported no
    /// error.
    pub error: String,
    /// The exit code.
    pub code: i64,
}

/// What a wait answer becomes: a positive exit code with an error message,
/// or with no error at all, is an error carrying the code and the message
/// (empty when there is none); any other answer is passed on unchanged.
pub fn wait_outcome(response: ContainerWaitResponse) -> (res: Result<ContainerWaitResponse, DockerContainerWaitError>)
    ensures
        match response.error {
            Some(ContainerWaitExitError { message: Some(m) }) if response.status_code > 0 =>
                res matches Err(e) && e.code == response.status_code && e.error@ == m@,
            None if response.status_code > 0 =>
                res matches Err(e) && e.code == response.status_code && e.error@.len() == 0,
            _ => res == Ok::<ContainerWaitResponse, DockerContainerWaitError>(response),
        },
{
    if response.status_code > 0 {
        match response.error {
            Some(ContainerWaitExitError { message: Some(m) }) => {
                return Err(DockerContainerWaitError { error: m, code: response.status_code });
            },
            None => {
                return Err(DockerContainerWaitError { error: String::new(), code: response.status_code });
            },
            Some(ContainerWaitExitError { message: None }) => {
                return Ok(ContainerWaitResponse {
                    status_code: response.status_code,
                    error: Some(ContainerWaitExitError { message: None }),
                });
            },
        }
    }
    Ok(response)
}

} // verus!
