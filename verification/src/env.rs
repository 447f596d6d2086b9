//! Where the Docker client configuration (`config.json`) is looked for.

use vstd::prelude::*;
use crate::context::{join_path, join_path_text, opt_chars};

pub use crate::auth::{DockerConfig, DockerCredentials};

verus! {

broadcast use vstd::string::group_string_axioms;

/// The name of the configuration file.
pub const DOCKER_CONFIG_FILENAME: &'static str = "config.json";

/// Canonical name for the Docker Hub registry.
pub const INDEX_NAME: &'static str = "docker.io";

/// The paths where `config.json` is looked for, in order: in
/// `$DOCKER_CONFIG` when it is set, then in `.docker` under the home
/// directory when there is one. The first that exists is used.
pub open spec fn config_candidates(docker_config: Option<Seq<char>>, home: Option<Seq<char>>) -> Seq<Seq<char>> {
    let first: Seq<Seq<char>> = match docker_config {
        Some(d) => seq![join_path(d, "config.json"@)],
        None => Seq::empty(),
    };
    let second: Seq<Seq<char>> = match home {
        Some(h) => seq![join_path(join_path(h, ".docker"@), "config.json"@)],
        None => Seq::empty(),
    };
    first + second
}

/// The paths where `config.json` is looked for (see `config_candidates`).
pub fn config_paths(docker_config: &Option<String>, home: &Option<String>) -> (res: Vec<String>)
    ensures
        Seq::new(res@.len(), |i: int| res@[i]@) == config_candidates(opt_chars(*docker_config), opt_chars(*home)),
{
    let mut out: Vec<String> = Vec::new();
    if let Some(d) = docker_config {
        out.push(join_path_text(d.as_str(), DOCKER_CONFIG_FILENAME));
    }
    if let Some(h) = home {
        let dir = join_path_text(h.as_str(), ".docker");
        out.push(join_path_text(dir.as_str(), DOCKER_CONFIG_FILENAME));
    }
    proof {
        reveal_strlit("config.json");
        assert(Seq::new(out@.len(), |i: int| out@[i]@) =~= config_candidates(opt_chars(*docker_config), opt_chars(*home)));
    }
    out
}

} // verus!
