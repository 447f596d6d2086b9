//! Plain results and options of the exec endpoints.

use vstd::prelude::*;
use crate::text::{owned, push_all};

verus! {

/// The result of creating an exec instance.
#[derive(Debug, Clone)]
pub struct CreateExecResults {
    /// The exec instance's id.
    pub id: String,
}

/// Options of starting an exec instance.
#[derive(Debug, Clone, Copy, PartialEq, Eq, Structural)]
pub struct StartExecOptions {
    /// Whether to detach from the command.
    pub detach: bool,
}

impl Default for StartExecOptions {
    fn default() -> (res: Self)
        ensures
            !res.detach,
    {
        StartExecOptions { detach: false }
    }
}

/// Options of resizing an exec instance's TTY.
#[derive(Debug, Clone, Copy, PartialEq, Eq, Structural)]
pub struct ResizeExecOptions {
    /// The height in characters.
    pub height: u16,
    /// The width in characters.
    pub width: u16,
}

impl Default for ResizeExecOptions {
    fn default() -> (res: Self)
        ensures
            res.height == 0 && res.width == 0,
    {
        ResizeExecOptions { height: 0, width: 0 }
    }
}

/// How an exec instance is started: the endpoint's path, whether the
/// connection is upgraded to carry the command's input and output, and the
/// options sent.
#[derive(Debug, Clone)]
pub struct ExecStartRequest {
    /// The endpoint's path.
    pub path: String,
    /// Whether the connection is upgraded and the command's streams
    /// attached.
    pub attach: bool,
    /// The options sent with the request.
    pub options: StartExecOptions,
}

/// The path of the endpoint that starts the exec instance `id`.
pub open spec fn exec_start_path(id: Seq<char>) -> Seq<char> {
    ("/exec/"@ + id) + "/start"@
}

/// The request that starts exec instance `exec_id`: a detached start sends
/// its options and waits for nothing; any other start upgrades the
/// connection and attaches to the command, with the given options or the
/// default ones.
pub fn exec_start_request(exec_id: &str, config: Option<StartExecOptions>) -> (res: ExecStartRequest)
    ensures
        res.path@ == exec_start_path(exec_id@),
        res.attach == !(config matches Some(c) && c.detach),
        res.options == (match config {
            Some(c) => c,
            None => StartExecOptions { detach: false },
        }),
{
    let mut path = owned("/exec/");
    push_all(&mut path, exec_id);
    push_all(&mut path, "/start");
    match config {
        Some(c) => ExecStartRequest { path, attach: !c.detach, options: c },
        None => ExecStartRequest { path, attach: true, options: StartExecOptions::default() },
    }
}

} // verus!
