//! A BuildKit daemon run in a Docker container: its configuration, the
//! container it is created as, and how its start-up is awaited.

use vstd::prelude::*;
use crate::strmap::StrMap;
use crate::text::{decimal_text, owned, push_all, push_decimal, str_equal, to_chars};

verus! {

broadcast use vstd::string::group_string_axioms;

/// The BuildKit image used unless another is chosen.
pub const DEFAULT_IMAGE: &'static str = "moby/buildkit:master";
/// Where BuildKit keeps its state inside the container.
pub const DEFAULT_STATE_DIR: &'static str = "/var/lib/buildkit";
/// Label marking containers managed by this library.
pub const LABEL_MANAGED: &'static str = "com.github.fussybeaver.bollard.buildkit.managed";
/// Label naming the driver.
pub const LABEL_DRIVER: &'static str = "com.github.fussybeaver.bollard.buildkit.driver";
/// Label carrying the lifecycle schema version.
pub const LABEL_LIFECYCLE_SCHEMA: &'static str = "com.github.fussybeaver.bollard.buildkit.lifecycle-schema";
/// Label naming the builder.
pub const LABEL_BUILDER_NAME: &'static str = "com.github.fussybeaver.bollard.buildkit.builder-name";
/// Label naming the state volume.
pub const LABEL_STATE_VOLUME: &'static str = "com.github.fussybeaver.bollard.buildkit.state-volume";
/// The lifecycle schema version.
pub const LIFECYCLE_SCHEMA_VERSION: &'static str = "1";

/// What happens to the BuildKit container around a solve.
#[derive(Debug, Clone, Copy, PartialEq, Eq, Structural)]
pub enum DockerContainerLifecycle {
    /// The container keeps running and restarts unless stopped (the
    /// default).
    Persistent,
    /// The container is stopped after the solve.
    StopAfterSolve,
    /// The container is removed after the solve, with its state volume
    /// unless `keep_state`.
    RemoveAfterSolve { keep_state: bool },
}

impl Default for DockerContainerLifecycle {
    fn default() -> (res: Self)
        ensures
            res == DockerContainerLifecycle::Persistent,
    {
        DockerContainerLifecycle::Persistent
    }
}

/// Whether `c` is an ASCII letter or digit.
pub open spec fn ascii_alnum(c: char) -> bool {
    ('a' <= c <= 'z') || ('A' <= c <= 'Z') || ('0' <= c <= '9')
}

/// Whether `name` is a valid builder name: `[a-zA-Z0-9][a-zA-Z0-9_.-]+`.
pub open spec fn valid_container_name(name: Seq<char>) -> bool {
    &&& name.len() >= 2
    &&& ascii_alnum(name[0])
    &&& forall|i: int| 1 <= i < name.len() ==> ascii_alnum(#[trigger] name[i]) || name[i] == '_' || name[i] == '.' || name[i] == '-'
}

/// The message for an invalid builder name.
pub open spec fn invalid_name_text(name: Seq<char>) -> Seq<char> {
    "invalid Docker-container builder name `"@ + name + "`: expected [a-zA-Z0-9][a-zA-Z0-9_.-]+"@
}

fn is_ascii_alnum(c: char) -> (res: bool)
    ensures
        res == ascii_alnum(c),
{
    ('a' <= c && c <= 'z') || ('A' <= c && c <= 'Z') || ('0' <= c && c <= '9')
}

/// Checks a builder name (see `valid_container_name`); an invalid one is
/// refused with a message naming it.
pub fn validate_container_name(name: &str) -> (res: Result<(), String>)
    ensures
        match res {
            Ok(()) => valid_container_name(name@),
            Err(m) => !valid_container_name(name@) && m@ == invalid_name_text(name@),
        },
{
    let chars = to_chars(name);
    if chars.len() < 2 || !is_ascii_alnum(chars[0]) {
        let mut message = owned("invalid Docker-container builder name `");
        push_all(&mut message, name);
        push_all(&mut message, "`: expected [a-zA-Z0-9][a-zA-Z0-9_.-]+");
        return Err(message);
    }
    let mut ok = true;
    let mut i: usize = 1;
    while i < chars.len() && ok
        invariant
            1 <= i <= chars@.len(),
            chars@ == name@,
            forall|j: int| 1 <= j < i ==> ascii_alnum(#[trigger] chars@[j]) || chars@[j] == '_' || chars@[j] == '.' || chars@[j] == '-',
            !ok ==> i < chars@.len() && !(ascii_alnum(chars@[i as int]) || chars@[i as int] == '_' || chars@[i as int] == '.' || chars@[i as int] == '-'),
        decreases chars@.len() - i + (if ok { 1int } else { 0int }),
    {
        let c = chars[i];
        if !(is_ascii_alnum(c) || c == '_' || c == '.' || c == '-') {
            ok = false;
        } else {
            i = i + 1;
        }
    }
    if ok {
        Ok(())
    } else {
        let mut message = owned("invalid Docker-container builder name `");
        push_all(&mut message, name);
        push_all(&mut message, "`: expected [a-zA-Z0-9][a-zA-Z0-9_.-]+");
        Err(message)
    }
}

/// The characters of each string.
pub open spec fn texts(v: Seq<String>) -> Seq<Seq<char>> {
    Seq::new(v.len(), |i: int| v[i]@)
}

/// The characters of an optional string.
pub open spec fn opt_text(o: Option<String>) -> Option<Seq<char>> {
    match o {
        Some(s) => Some(s@),
        None => None,
    }
}

/// The configuration of a BuildKit container, as the contracts see it.
pub struct ContainerView {
    pub name: Seq<char>,
    pub session_id: Seq<char>,
    pub net_mode: Option<Seq<char>>,
    pub image: Option<Seq<char>>,
    pub cgroup_parent: Option<Seq<char>>,
    pub env: Seq<Seq<char>>,
    pub args: Seq<Seq<char>>,
    pub lifecycle: DockerContainerLifecycle,
}

/// A BuildKit daemon's container: its name, session, network, image,
/// cgroup parent, environment, daemon arguments and lifecycle.
pub struct DockerContainer {
    name: String,
    session_id: String,
    net_mode: Option<String>,
    image: Option<String>,
    cgroup_parent: Option<String>,
    env: Vec<String>,
    args: Vec<String>,
    lifecycle: DockerContainerLifecycle,
}

/// The restart policy of a container.
#[derive(Debug, Clone, Copy, PartialEq, Eq, Structural)]
pub enum RestartPolicyName {
    /// Restart unless stopped by hand.
    UnlessStopped,
}

/// The name of the volume that holds a builder's state.
pub open spec fn state_volume_text(name: Seq<char>) -> Seq<char> {
    name + "_state"@
}

/// The labels that mark a builder's container as managed by this library.
pub open spec fn ownership_label_map(name: Seq<char>) -> Map<Seq<char>, Seq<char>> {
    map![
        "com.github.fussybeaver.bollard.buildkit.managed"@ => "true"@,
        "com.github.fussybeaver.bollard.buildkit.driver"@ => "docker-container"@,
        "com.github.fussybeaver.bollard.buildkit.lifecycle-schema"@ => "1"@,
        "com.github.fussybeaver.bollard.buildkit.builder-name"@ => name,
        "com.github.fussybeaver.bollard.buildkit.state-volume"@ => state_volume_text(name),
    ]
}

/// The restart policy for a lifecycle: only a persistent builder restarts.
pub open spec fn restart_policy_of(l: DockerContainerLifecycle) -> Option<RestartPolicyName> {
    match l {
        DockerContainerLifecycle::Persistent => Some(RestartPolicyName::UnlessStopped),
        _ => None,
    }
}

/// The string values of a label map.
pub open spec fn label_texts(m: Map<Seq<char>, String>) -> Map<Seq<char>, Seq<char>> {
    m.map_values(|s: String| s@)
}

pub(crate) fn copy_texts(v: &Vec<String>) -> (res: Vec<String>)
    ensures
        texts(res@) == texts(v@),
{
    let mut out: Vec<String> = Vec::new();
    let mut i: usize = 0;
    while i < v.len()
        invariant
            i <= v@.len(),
            texts(out@) == texts(v@).take(i as int),
        decreases v@.len() - i,
    {
        let ghost before = texts(out@);
        let item = owned(v[i].as_str());
        out.push(item);
        assert(texts(out@) =~= before.push(v@[i as int]@));
        assert(texts(v@).take(i + 1) =~= texts(v@).take(i as int).push(v@[i as int]@));
        i = i + 1;
    }
    assert(texts(v@).take(v@.len() as int) =~= texts(v@));
    out
}

pub(crate) fn copy_opt(o: &Option<String>) -> (res: Option<String>)
    ensures
        opt_text(res) == opt_text(*o),
{
    match o {
        Some(s) => Some(owned(s.as_str())),
        None => None,
    }
}

/// What the container is created with.
pub struct ContainerCreatePlan {
    /// The image to pull and run.
    pub image: String,
    /// The environment.
    pub env: Vec<String>,
    /// The daemon's command-line arguments.
    pub cmd: Vec<String>,
    /// The ownership labels.
    pub labels: StrMap<String>,
    /// The volume mounted for the daemon's state, and where.
    pub volume_source: String,
    pub volume_target: String,
    /// The network mode, if one was chosen.
    pub network_mode: Option<String>,
    /// The cgroup parent, set on a cgroupfs host.
    pub cgroup_parent: Option<String>,
    /// The user namespace mode, `host` when the host uses user namespaces.
    pub userns_mode: Option<String>,
    /// The restart policy.
    pub restart_policy: Option<RestartPolicyName>,
}

/// Whether a security option list names `userns`.
pub open spec fn has_userns(options: Seq<String>) -> bool {
    exists|i: int| 0 <= i < options.len() && options[i]@ == "userns"@
}

/// The image a daemon runs: the chosen one, or `moby/buildkit:master`.
pub open spec fn image_choice(image: Option<Seq<char>>) -> Seq<char> {
    match image {
        Some(i) => i,
        None => "moby/buildkit:master"@,
    }
}

/// The cgroup parent of a daemon: on a cgroupfs host the chosen one, or
/// `/docker/buildx`; none elsewhere.
pub open spec fn cgroup_parent_choice(cgroupfs_driver: bool, chosen: Option<Seq<char>>) -> Option<Seq<char>> {
    if cgroupfs_driver {
        Some(match chosen {
            Some(c) => c,
            None => "/docker/buildx"@,
        })
    } else {
        None
    }
}

/// The user namespace mode of a daemon: `host` when the host's security
/// options name `userns`.
pub open spec fn userns_choice(security_options: Option<Seq<String>>) -> Option<Seq<char>> {
    match security_options {
        Some(o) => if has_userns(o) { Some("host"@) } else { None },
        None => None,
    }
}

pub(crate) fn chosen_image(image: &Option<String>) -> (res: String)
    ensures
        res@ == image_choice(opt_text(*image)),
{
    match image {
        Some(i) => owned(i.as_str()),
        None => owned(DEFAULT_IMAGE),
    }
}

pub(crate) fn cgroup_parent_for(cgroupfs_driver: bool, chosen: &Option<String>) -> (res: Option<String>)
    ensures
        opt_text(res) == cgroup_parent_choice(cgroupfs_driver, opt_text(*chosen)),
{
    if cgroupfs_driver {
        Some(match chosen {
            Some(c) => owned(c.as_str()),
            None => owned("/docker/buildx"),
        })
    } else {
        None
    }
}

pub(crate) fn userns_mode_for(security_options: Option<&[String]>) -> (res: Option<String>)
    ensures
        opt_text(res) == userns_choice(match security_options { Some(o) => Some(o@), None => None }),
{
    match security_options {
        Some(options) => {
            let mut found = false;
            let mut i: usize = 0;
            while i < options.len()
                invariant
                    i <= options@.len(),
                    found <==> exists|j: int| 0 <= j < i && options@[j]@ == "userns"@,
                decreases options@.len() - i,
            {
                if str_equal(options[i].as_str(), "userns") {
                    found = true;
                }
                i = i + 1;
            }
            if found { Some(owned("host")) } else { None }
        },
        None => None,
    }
}

impl DockerContainer {
    /// The configuration.
    pub closed spec fn view(&self) -> ContainerView {
        ContainerView {
            name: self.name@,
            session_id: self.session_id@,
            net_mode: opt_text(self.net_mode),
            image: opt_text(self.image),
            cgroup_parent: opt_text(self.cgroup_parent),
            env: texts(self.env@),
            args: texts(self.args@),
            lifecycle: self.lifecycle,
        }
    }

    /// The container's name.
    pub fn name(&self) -> (res: &str)
        ensures
            res@ == self@.name,
    {
        self.name.as_str()
    }

    /// The session id the daemon is reached under.
    pub fn session_id(&self) -> (res: &str)
        ensures
            res@ == self@.session_id,
    {
        self.session_id.as_str()
    }

    /// The lifecycle.
    pub fn lifecycle(&self) -> (res: DockerContainerLifecycle)
        ensures
            res == self@.lifecycle,
    {
        self.lifecycle
    }

    /// The name of the volume holding the daemon's state: the container's
    /// name followed by `_state`.
    pub fn state_volume_name(&self) -> (res: String)
        ensures
            res@ == state_volume_text(self@.name),
    {
        let mut out = owned(self.name.as_str());
        push_all(&mut out, "_state");
        out
    }

    /// The labels that mark the container as this library's builder (see
    /// `ownership_label_map`).
    pub fn ownership_labels(&self) -> (res: StrMap<String>)
        ensures
            label_texts(res@) == ownership_label_map(self@.name),
    {
        let mut labels: StrMap<String> = StrMap::new();
        let ghost m0 = labels@;
        labels.insert(owned(LABEL_MANAGED), owned("true"));
        labels.insert(owned(LABEL_DRIVER), owned("docker-container"));
        labels.insert(owned(LABEL_LIFECYCLE_SCHEMA), owned(LIFECYCLE_SCHEMA_VERSION));
        labels.insert(owned(LABEL_BUILDER_NAME), owned(self.name.as_str()));
        labels.insert(owned(LABEL_STATE_VOLUME), self.state_volume_name());
        proof {
            reveal_strlit("com.github.fussybeaver.bollard.buildkit.managed");
            reveal_strlit("com.github.fussybeaver.bollard.buildkit.driver");
            reveal_strlit("com.github.fussybeaver.bollard.buildkit.lifecycle-schema");
            reveal_strlit("com.github.fussybeaver.bollard.buildkit.builder-name");
            reveal_strlit("com.github.fussybeaver.bollard.buildkit.state-volume");
            assert("com.github.fussybeaver.bollard.buildkit.managed"@[41] != "com.github.fussybeaver.bollard.buildkit.driver"@[41]);
            assert("com.github.fussybeaver.bollard.buildkit.managed"@[41] != "com.github.fussybeaver.bollard.buildkit.lifecycle-schema"@[41]);
            assert("com.github.fussybeaver.bollard.buildkit.managed"@[41] != "com.github.fussybeaver.bollard.buildkit.builder-name"@[41]);
            assert("com.github.fussybeaver.bollard.buildkit.managed"@[41] != "com.github.fussybeaver.bollard.buildkit.state-volume"@[41]);
            assert("com.github.fussybeaver.bollard.buildkit.driver"@[40] != "com.github.fussybeaver.bollard.buildkit.lifecycle-schema"@[40]);
            assert("com.github.fussybeaver.bollard.buildkit.driver"@[40] != "com.github.fussybeaver.bollard.buildkit.builder-name"@[40]);
            assert("com.github.fussybeaver.bollard.buildkit.driver"@[40] != "com.github.fussybeaver.bollard.buildkit.state-volume"@[40]);
            assert("com.github.fussybeaver.bollard.buildkit.lifecycle-schema"@[40] != "com.github.fussybeaver.bollard.buildkit.builder-name"@[40]);
            assert("com.github.fussybeaver.bollard.buildkit.lifecycle-schema"@[40] != "com.github.fussybeaver.bollard.buildkit.state-volume"@[40]);
            assert("com.github.fussybeaver.bollard.buildkit.builder-name"@[40] != "com.github.fussybeaver.bollard.buildkit.state-volume"@[40]);
            assert(label_texts(labels@) =~= ownership_label_map(self@.name));
        }
        labels
    }

    /// The restart policy: unless-stopped for a persistent builder, none
    /// otherwise.
    pub fn restart_policy(&self) -> (res: Option<RestartPolicyName>)
        ensures
            res == restart_policy_of(self@.lifecycle),
    {
        match self.lifecycle {
            DockerContainerLifecycle::Persistent => Some(RestartPolicyName::UnlessStopped),
            _ => None,
        }
    }

    /// What the container is created with, given whether the host's cgroup
    /// driver is cgroupfs and its security options: the chosen image (or the
    /// default one), the environment, the daemon arguments, the ownership
    /// labels, the state volume at `/var/lib/buildkit`, the network mode, a
    /// cgroup parent on cgroupfs hosts (the chosen one or `/docker/buildx`),
    /// the `host` user namespace when the host uses user namespaces, and the
    /// restart policy.
    pub fn create_plan(&self, cgroupfs_driver: bool, security_options: Option<&[String]>) -> (res: ContainerCreatePlan)
        ensures
            res.image@ == image_choice(self@.image),
            texts(res.env@) == self@.env,
            texts(res.cmd@) == self@.args,
            label_texts(res.labels@) == ownership_label_map(self@.name),
            res.volume_source@ == state_volume_text(self@.name),
            res.volume_target@ == "/var/lib/buildkit"@,
            opt_text(res.network_mode) == self@.net_mode,
            opt_text(res.cgroup_parent) == cgroup_parent_choice(cgroupfs_driver, self@.cgroup_parent),
            opt_text(res.userns_mode) == userns_choice(match security_options { Some(o) => Some(o@), None => None }),
            res.restart_policy == restart_policy_of(self@.lifecycle),
    {
        let image = chosen_image(&self.image);
        let cgroup_parent = cgroup_parent_for(cgroupfs_driver, &self.cgroup_parent);
        let userns_mode = userns_mode_for(security_options);
        ContainerCreatePlan {
            image,
            env: copy_texts(&self.env),
            cmd: copy_texts(&self.args),
            labels: self.ownership_labels(),
            volume_source: self.state_volume_name(),
            volume_target: owned(DEFAULT_STATE_DIR),
            network_mode: copy_opt(&self.net_mode),
            cgroup_parent,
            userns_mode,
            restart_policy: self.restart_policy(),
        }
    }
}

/// What to do after a start-up probe (`buildctl debug workers`) finished.
#[derive(Debug, Clone, Copy, PartialEq, Eq, Structural)]
pub enum WaitDecision {
    /// The daemon is up.
    Ready,
    /// The daemon did not come up: fail with the probe's exit code.
    Failed { code: i64 },
    /// Probe again after this many milliseconds.
    Retry { delay_ms: u64 },
}

/// How many probes may fail before the start-up is given up.
pub const MAX_WAIT_ATTEMPTS: u64 = 15;

/// The decision after probe number `attempts` (from 1) ended with
/// `exit_code` (`None` when it reported none): success on exit code 0,
/// failure once more than 15 probes failed, otherwise another probe after
/// `attempts * 120` milliseconds.
pub open spec fn wait_step(attempts: u64, exit_code: Option<i64>) -> WaitDecision {
    match exit_code {
        Some(0) => WaitDecision::Ready,
        Some(c) => if attempts > MAX_WAIT_ATTEMPTS {
            WaitDecision::Failed { code: c }
        } else {
            WaitDecision::Retry { delay_ms: (attempts * 120) as u64 }
        },
        None => WaitDecision::Retry { delay_ms: (attempts * 120) as u64 },
    }
}

/// Decides what follows probe number `attempts` (see `wait_step`).
pub fn wait_decision(attempts: u64, exit_code: Option<i64>) -> (res: WaitDecision)
    requires
        attempts * 120 <= u64::MAX,
    ensures
        res == wait_step(attempts, exit_code),
{
    match exit_code {
        Some(0) => WaitDecision::Ready,
        Some(c) => if attempts > MAX_WAIT_ATTEMPTS {
            WaitDecision::Failed { code: c }
        } else {
            WaitDecision::Retry { delay_ms: attempts * 120 }
        },
        None => WaitDecision::Retry { delay_ms: attempts * 120 },
    }
}

/// Builds the configuration of a BuildKit container.
pub struct DockerContainerBuilder {
    inner: DockerContainer,
}

/// The argument that lets BuildKit use the host network.
pub open spec fn host_network_arg() -> Seq<char> {
    "--allow-insecure-entitlement=network.host"@
}

impl DockerContainerBuilder {
    /// The configuration built so far.
    pub closed spec fn view(&self) -> ContainerView {
        self.inner@
    }

    /// A builder for a container named `bollard_buildkit_<id>` with a fresh
    /// session id, no network, image or cgroup parent chosen, no environment
    /// or arguments, and the persistent lifecycle.
    pub fn new() -> (res: Self)
        ensures
            res@.name.len() == 17 + 25,
            res@.name.take(17) == "bollard_buildkit_"@,
            res@.session_id.len() == 25,
            res@.net_mode is None && res@.image is None && res@.cgroup_parent is None,
            res@.env.len() == 0 && res@.args.len() == 0,
            res@.lifecycle == DockerContainerLifecycle::Persistent,
    {
        let mut name = owned("bollard_buildkit_");
        let id = crate::grpc::new_id();
        push_all(&mut name, id.as_str());
        proof {
            reveal_strlit("bollard_buildkit_");
            assert(name@.take(17) =~= "bollard_buildkit_"@);
        }
        let res = DockerContainerBuilder {
            inner: DockerContainer {
                name,
                session_id: crate::grpc::new_id(),
                net_mode: None,
                image: None,
                cgroup_parent: None,
                env: Vec::new(),
                args: Vec::new(),
                lifecycle: DockerContainerLifecycle::Persistent,
            },
        };
        assert(res@.env =~= Seq::<Seq<char>>::empty());
        res
    }

    /// Chooses the network; the host network also allows BuildKit's
    /// `network.host` entitlement.
    pub fn network(&mut self, net: &str)
        ensures
            final(self)@ == (ContainerView {
                net_mode: Some(net@),
                args: if net@ == "host"@ { old(self)@.args.push(host_network_arg()) } else { old(self)@.args },
                ..old(self)@
            }),
    {
        let ghost before = self@;
        if str_equal(net, "host") {
            self.inner.args.push(owned("--allow-insecure-entitlement=network.host"));
            assert(texts(self.inner.args@) =~= before.args.push(host_network_arg()));
        }
        self.inner.net_mode = Some(owned(net));
    }

    /// Chooses the image.
    pub fn image(&mut self, image: &str)
        ensures
            final(self)@ == (ContainerView { image: Some(image@), ..old(self)@ }),
    {
        self.inner.image = Some(owned(image));
    }

    /// Chooses the cgroup parent.
    pub fn cgroup_parent(&mut self, cgroup_parent: &str)
        ensures
            final(self)@ == (ContainerView { cgroup_parent: Some(cgroup_parent@), ..old(self)@ }),
    {
        self.inner.cgroup_parent = Some(owned(cgroup_parent));
    }

    /// Adds an environment entry.
    pub fn env(&mut self, env: &str)
        ensures
            final(self)@ == (ContainerView { env: old(self)@.env.push(env@), ..old(self)@ }),
    {
        let ghost before = self@;
        self.inner.env.push(owned(env));
        assert(texts(self.inner.env@) =~= before.env.push(env@));
    }

    /// Adds a daemon argument.
    pub fn arg(&mut self, arg: &str)
        ensures
            final(self)@ == (ContainerView { args: old(self)@.args.push(arg@), ..old(self)@ }),
    {
        let ghost before = self@;
        self.inner.args.push(owned(arg));
        assert(texts(self.inner.args@) =~= before.args.push(arg@));
    }

    /// Names the container.
    pub fn name(&mut self, name: &str)
        ensures
            final(self)@ == (ContainerView { name: name@, ..old(self)@ }),
    {
        self.inner.name = owned(name);
    }

    /// Chooses the lifecycle.
    pub fn lifecycle(&mut self, lifecycle: DockerContainerLifecycle)
        ensures
            final(self)@ == (ContainerView { lifecycle, ..old(self)@ }),
    {
        self.inner.lifecycle = lifecycle;
    }

    /// The configuration built so far.
    pub fn config(&self) -> (res: &DockerContainer)
        ensures
            res@ == self@,
    {
        &self.inner
    }

    /// The configuration a bootstrap starts from: the name must be valid,
    /// and without a chosen network the host network is used.
    pub fn into_bootstrap_config(self) -> (res: Result<DockerContainer, String>)
        ensures
            match res {
                Ok(c) => valid_container_name(self@.name) && c@ == (if self@.net_mode is None {
                    ContainerView { net_mode: Some("host"@), args: self@.args.push(host_network_arg()), ..self@ }
                } else {
                    self@
                }),
                Err(m) => !valid_container_name(self@.name) && m@ == invalid_name_text(self@.name),
            },
    {
        validate_container_name(self.inner.name.as_str())?;
        let mut b = self;
        if b.inner.net_mode.is_none() {
            b.network("host");
            proof {
                reveal_strlit("host");
            }
        }
        Ok(b.inner)
    }
}

} // verus!
