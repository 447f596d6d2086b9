//! The system information the engine reports (legacy form).

use vstd::prelude::*;

verus! {

/// System-wide information about the engine.
#[allow(non_snake_case)]
#[derive(Debug, Clone)]
pub struct Info {
    pub Containers: i64,
    pub Images: i64,
    pub Driver: String,
    pub DriverStatus: Vec<(String, String)>,
    pub ExecutionDriver: String,
    pub KernelVersion: String,
    pub NCPU: i64,
    pub MemTotal: i64,
    pub Name: String,
    pub ID: String,
    pub Debug: i64,
    pub NFd: i64,
    pub NGoroutines: i64,
    pub NEventsListener: i64,
    pub InitPath: String,
    pub InitSha1: String,
    pub IndexServerAddress: String,
    pub MemoryLimit: i64,
    pub SwapLimit: i64,
    pub IPv4Forwarding: i64,
    pub Labels: Option<Vec<String>>,
    pub DockerRootDir: String,
    pub OperatingSystem: String,
}

} // verus!
