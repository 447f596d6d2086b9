//! Docker CLI context resolution, with the Docker CLI's precedence:
//! `DOCKER_HOST`, then the context named by `DOCKER_CONTEXT`, then the
//! `currentContext` of `config.json`, then the platform default. The name
//! `default` (or an empty name) means the platform default; other names are
//! looked up among the stored context metadata.
//!
//! Reading the environment and the metadata files is the caller's part; the
//! functions here decide on what was read.

use vstd::prelude::*;
use crate::text::{owned, push_all, str_equal};

verus! {

broadcast use vstd::string::group_string_axioms;

/// The name of the implicit default context.
pub const DEFAULT_CONTEXT: &'static str = "default";

/// One stored context (`contexts/meta/<dir>/meta.json`): its name and the
/// host of its Docker endpoint, if it has one.
#[derive(Debug, Clone)]
pub struct ContextMeta {
    pub name: String,
    pub host: Option<String>,
}

/// A context name that names no stored context.
#[derive(Debug, Clone)]
pub struct ContextNotFound {
    pub name: String,
}

/// The value of an environment variable or setting, when it is set and not
/// empty.
pub open spec fn non_empty(v: Option<Seq<char>>) -> Option<Seq<char>> {
    match v {
        Some(s) => if s.len() > 0 { Some(s) } else { None },
        None => None,
    }
}

/// The characters of an optional string.
pub open spec fn opt_chars(o: Option<String>) -> Option<Seq<char>> {
    match o {
        Some(s) => Some(s@),
        None => None,
    }
}

/// `path` joined with the relative `name`, as `PathBuf::join` does on Unix.
pub open spec fn join_path(path: Seq<char>, name: Seq<char>) -> Seq<char> {
    if path.len() == 0 {
        name
    } else if path.last() == '/' {
        path + name
    } else {
        path + "/"@ + name
    }
}

/// `path` joined with the relative `name`.
pub fn join_path_text(path: &str, name: &str) -> (res: String)
    ensures
        res@ == join_path(path@, name@),
{
    let chars = crate::text::to_chars(path);
    let mut out = owned(path);
    if chars.len() > 0 && chars[chars.len() - 1] != '/' {
        push_all(&mut out, "/");
    }
    push_all(&mut out, name);
    out
}

/// The Docker configuration directory: `$DOCKER_CONFIG` when set and not
/// empty, else `.docker` in the home directory, if there is one.
pub open spec fn config_dir(docker_config: Option<Seq<char>>, home: Option<Seq<char>>) -> Option<Seq<char>> {
    match non_empty(docker_config) {
        Some(d) => Some(d),
        None => match non_empty(home) {
            Some(h) => Some(join_path(h, ".docker"@)),
            None => None,
        },
    }
}

fn non_empty_copy(v: &Option<String>) -> (res: Option<String>)
    ensures
        opt_chars(res) == non_empty(opt_chars(*v)),
{
    match v {
        Some(s) => if s.as_str().is_empty() { None } else { Some(owned(s.as_str())) },
        None => None,
    }
}

/// The Docker configuration directory for the given `$DOCKER_CONFIG` and
/// home directory (see `config_dir`).
pub fn docker_config_dir(docker_config: &Option<String>, home: &Option<String>) -> (res: Option<String>)
    ensures
        opt_chars(res) == config_dir(opt_chars(*docker_config), opt_chars(*home)),
{
    match non_empty_copy(docker_config) {
        Some(d) => Some(d),
        None => match non_empty_copy(home) {
            Some(h) => Some(join_path_text(h.as_str(), ".docker")),
            None => None,
        },
    }
}

/// The host stored for `name`: that of the first stored context with this
/// name (which may have none), or `None` when no stored context has it.
pub open spec fn stored_host(name: Seq<char>, metas: Seq<ContextMeta>) -> Option<Option<Seq<char>>>
    decreases metas.len(),
{
    if metas.len() == 0 {
        None
    } else if metas[0].name@ == name {
        Some(opt_chars(metas[0].host))
    } else {
        stored_host(name, metas.skip(1))
    }
}

/// Whether `name` stands for the default context.
pub open spec fn is_default_name(name: Seq<char>) -> bool {
    name.len() == 0 || name == "default"@
}

/// The host a context name resolves to, or `None` when it resolves to no
/// host (an unknown name, or a stored context without a Docker host).
pub open spec fn context_host(name: Seq<char>, default_host: Seq<char>, metas: Seq<ContextMeta>) -> Option<Seq<char>> {
    if is_default_name(name) {
        Some(default_host)
    } else {
        match stored_host(name, metas) {
            Some(h) => h,
            None => None,
        }
    }
}

/// Resolves a context name to its Docker host: `default` (or an empty name)
/// gives `default_host`, another name the host of the first stored context
/// of that name. A name that resolves to no host is an error naming it.
pub fn host_for_context(name: &str, default_host: &str, metas: &[ContextMeta]) -> (res: Result<String, ContextNotFound>)
    ensures
        match res {
            Ok(h) => context_host(name@, default_host@, metas@) == Some(h@),
            Err(e) => context_host(name@, default_host@, metas@) is None && e.name@ == name@,
        },
{
    if name.is_empty() || str_equal(name, "default") {
        return Ok(owned(default_host));
    }
    let mut i: usize = 0;
    assert(metas@.skip(0) =~= metas@);
    while i < metas.len()
        invariant
            i <= metas@.len(),
            stored_host(name@, metas@.skip(i as int)) == stored_host(name@, metas@),
            !is_default_name(name@),
        decreases metas@.len() - i,
    {
        assert(metas@.skip(i as int).skip(1) =~= metas@.skip(i + 1));
        assert(metas@.skip(i as int)[0] == metas@[i as int]);
        if str_equal(metas[i].name.as_str(), name) {
            assert(stored_host(name@, metas@) == Some(opt_chars(metas@[i as int].host)));
            match &metas[i].host {
                Some(h) => {
                    return Ok(owned(h.as_str()));
                },
                None => {
                    return Err(ContextNotFound { name: owned(name) });
                },
            }
        }
        i = i + 1;
    }
    Err(ContextNotFound { name: owned(name) })
}

/// The name of the current context: `DOCKER_CONTEXT` when set and not
/// empty, else the `currentContext` of `config.json` when present and not
/// empty.
pub open spec fn current_context(docker_context: Option<Seq<char>>, configured: Option<Seq<char>>) -> Option<Seq<char>> {
    match non_empty(docker_context) {
        Some(n) => Some(n),
        None => non_empty(configured),
    }
}

/// The name of the current context (see `current_context`); `DOCKER_HOST`
/// plays no part in it.
pub fn current_context_name(docker_context: &Option<String>, configured: &Option<String>) -> (res: Option<String>)
    ensures
        opt_chars(res) == current_context(opt_chars(*docker_context), opt_chars(*configured)),
{
    match non_empty_copy(docker_context) {
        Some(n) => Some(n),
        None => non_empty_copy(configured),
    }
}

/// The Docker host, by the Docker CLI's precedence: `DOCKER_HOST` when set
/// and not empty, else the host of the current context, else
/// `default_host`.
pub open spec fn resolved_host(
    docker_host: Option<Seq<char>>,
    docker_context: Option<Seq<char>>,
    configured: Option<Seq<char>>,
    default_host: Seq<char>,
    metas: Seq<ContextMeta>,
) -> Result<Seq<char>, Seq<char>> {
    match non_empty(docker_host) {
        Some(h) => Ok(h),
        None => match current_context(docker_context, configured) {
            None => Ok(default_host),
            Some(name) => match context_host(name, default_host, metas) {
                Some(h) => Ok(h),
                None => Err(name),
            },
        },
    }
}

/// Resolves the Docker host (see `resolved_host`); a current context that
/// resolves to no host is an error naming it.
pub fn resolve_host(
    docker_host: &Option<String>,
    docker_context: &Option<String>,
    configured: &Option<String>,
    default_host: &str,
    metas: &[ContextMeta],
) -> (res: Result<String, ContextNotFound>)
    ensures
        match res {
            Ok(h) => resolved_host(opt_chars(*docker_host), opt_chars(*docker_context), opt_chars(*configured), default_host@, metas@) == Ok::<Seq<char>, Seq<char>>(h@),
            Err(e) => resolved_host(opt_chars(*docker_host), opt_chars(*docker_context), opt_chars(*configured), default_host@, metas@) == Err::<Seq<char>, Seq<char>>(e.name@),
        },
{
    if let Some(h) = non_empty_copy(docker_host) {
        return Ok(h);
    }
    match current_context_name(docker_context, configured) {
        Some(name) => host_for_context(name.as_str(), default_host, metas),
        None => Ok(owned(default_host)),
    }
}

/// `DOCKER_HOST` always wins when it is set and not empty.
pub proof fn law_docker_host_wins(
    docker_host: Seq<char>,
    docker_context: Option<Seq<char>>,
    configured: Option<Seq<char>>,
    default_host: Seq<char>,
    metas: Seq<ContextMeta>,
)
    requires
        docker_host.len() > 0,
    ensures
        resolved_host(Some(docker_host), docker_context, configured, default_host, metas) == Ok::<Seq<char>, Seq<char>>(docker_host),
{
}

/// With no host and no context named, the default host is used; the
/// `default` context also gives the default host.
pub proof fn law_default_context_gives_default_host(
    docker_context: Option<Seq<char>>,
    default_host: Seq<char>,
    metas: Seq<ContextMeta>,
)
    requires
        docker_context is None || docker_context == Some("default"@),
    ensures
        resolved_host(None, docker_context, None, default_host, metas) == Ok::<Seq<char>, Seq<char>>(default_host),
{
}

} // verus!
