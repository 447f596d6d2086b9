//! Drivers that run BuildKit and hand builds to it.

pub mod docker_container;

use vstd::prelude::*;
use crate::grpc::export::ImageExporterRequest;
use crate::grpc::driver::docker_container::{
    cgroup_parent_choice, cgroup_parent_for, chosen_image, copy_opt, copy_texts, host_network_arg, image_choice,
    opt_text, state_volume_text, texts, userns_choice, userns_mode_for, DEFAULT_STATE_DIR,
};
use crate::text::{owned, push_all, str_equal};
use crate::auth::{creds_view, DockerCredentials};
use crate::grpc::{
    new_id, source_view, upload_url_prefix, AuthProvider, BuildRef, FileSendImpl, FileSendPacketImpl, SecretProvider,
    SecretSource, SshAgentSource, SshProvider, UploadProvider, DEFAULT_SSH_AGENT_ID,
};
use crate::grpc::export::{lemma_text_values_insert, text_values};
use crate::grpc::image_build::{
    cache_view, cache_views, copy_text_map, frontend_attrs, source_views, CacheOptionsEntry, FrontendOptionsView,
    ImageBuildFrontendOptions,
};
use crate::grpc::transfer::FileTransferLimits;
use crate::strmap::{entries_map, StrMap};
use std::time::Duration;

verus! {

broadcast use vstd::string::group_string_axioms;

/// The image exporters a build can end with.
pub enum ImageExporterEnum {
    /// An OCI image tarball.
    OCI(ImageExporterRequest),
    /// A Docker image tarball.
    Docker(ImageExporterRequest),
}

/// Where the definition of a solved build is exported.
pub enum DefinitionExporter {
    /// A local directory, by path.
    Local(String),
}

/// The configuration of a BuildKit daemon container, as the contracts see
/// it.
pub struct DriverView {
    pub name: Seq<char>,
    pub session_id: Seq<char>,
    pub net_mode: Option<Seq<char>>,
    pub image: Option<Seq<char>>,
    pub cgroup_parent: Option<Seq<char>>,
    pub env: Seq<Seq<char>>,
    pub args: Seq<Seq<char>>,
}

/// A BuildKit daemon run in a privileged container: its name, session,
/// network, image, cgroup parent, environment and daemon arguments.
pub struct Driver {
    name: String,
    session_id: String,
    net_mode: Option<String>,
    image: Option<String>,
    cgroup_parent: Option<String>,
    env: Vec<String>,
    args: Vec<String>,
}

/// What a daemon's container is created with.
pub struct DriverCreatePlan {
    /// The image to pull and run.
    pub image: String,
    /// The environment.
    pub env: Vec<String>,
    /// The daemon's command-line arguments.
    pub cmd: Vec<String>,
    /// The volume mounted for the daemon's state, and where.
    pub volume_source: String,
    pub volume_target: String,
    /// The network mode, if one was chosen.
    pub network_mode: Option<String>,
    /// The cgroup parent, set on a cgroupfs host.
    pub cgroup_parent: Option<String>,
    /// The user namespace mode, `host` when the host uses user namespaces.
    pub userns_mode: Option<String>,
}

impl Driver {
    /// The configuration.
    pub closed spec fn view(&self) -> DriverView {
        DriverView {
            name: self.name@,
            session_id: self.session_id@,
            net_mode: opt_text(self.net_mode),
            image: opt_text(self.image),
            cgroup_parent: opt_text(self.cgroup_parent),
            env: texts(self.env@),
            args: texts(self.args@),
        }
    }

    /// The container's name.
    pub fn name(&self) -> (res: &str)
        ensures
            res@ == self@.name,
    {
        self.name.as_str()
    }

    /// The session id the daemon is reached under.
    pub fn session_id(&self) -> (res: &str)
        ensures
            res@ == self@.session_id,
    {
        self.session_id.as_str()
    }

    /// What the container is created with, given whether the host's cgroup
    /// driver is cgroupfs and its security options: the chosen image (or the
    /// default one), the environment, the daemon arguments, the volume
    /// `<name>_state` at `/var/lib/buildkit`, the network mode, a cgroup
    /// parent on cgroupfs hosts (the chosen one or `/docker/buildx`), and the
    /// `host` user namespace when the host uses user namespaces.
    pub fn create_plan(&self, cgroupfs_driver: bool, security_options: Option<&[String]>) -> (res: DriverCreatePlan)
        ensures
            res.image@ == image_choice(self@.image),
            texts(res.env@) == self@.env,
            texts(res.cmd@) == self@.args,
            res.volume_source@ == state_volume_text(self@.name),
            res.volume_target@ == "/var/lib/buildkit"@,
            opt_text(res.network_mode) == self@.net_mode,
            opt_text(res.cgroup_parent) == cgroup_parent_choice(cgroupfs_driver, self@.cgroup_parent),
            opt_text(res.userns_mode) == userns_choice(match security_options { Some(o) => Some(o@), None => None }),
    {
        let mut volume_source = owned(self.name.as_str());
        push_all(&mut volume_source, "_state");
        DriverCreatePlan {
            image: chosen_image(&self.image),
            env: copy_texts(&self.env),
            cmd: copy_texts(&self.args),
            volume_source,
            volume_target: owned(DEFAULT_STATE_DIR),
            network_mode: copy_opt(&self.net_mode),
            cgroup_parent: cgroup_parent_for(cgroupfs_driver, &self.cgroup_parent),
            userns_mode: userns_mode_for(security_options),
        }
    }
}

/// Builds the configuration of a BuildKit daemon container.
pub struct DriverBuilder {
    inner: Driver,
}

impl DriverBuilder {
    /// The configuration built so far.
    pub closed spec fn view(&self) -> DriverView {
        self.inner@
    }

    /// A builder for the container `name` reached under `session_id`, with
    /// no network, image or cgroup parent chosen and no environment or
    /// arguments.
    pub fn new(name: &str, session_id: &str) -> (res: Self)
        ensures
            res@ == (DriverView {
                name: name@,
                session_id: session_id@,
                net_mode: None,
                image: None,
                cgroup_parent: None,
                env: Seq::empty(),
                args: Seq::empty(),
            }),
    {
        let res = DriverBuilder {
            inner: Driver {
                name: owned(name),
                session_id: owned(session_id),
                net_mode: None,
                image: None,
                cgroup_parent: None,
                env: Vec::new(),
                args: Vec::new(),
            },
        };
        assert(res@.env =~= Seq::<Seq<char>>::empty());
        assert(res@.args =~= Seq::<Seq<char>>::empty());
        res
    }

    /// Chooses the network; the host network also allows BuildKit's
    /// `network.host` entitlement.
    pub fn network(&mut self, net: &str)
        ensures
            final(self)@ == (DriverView {
                net_mode: Some(net@),
                args: if net@ == "host"@ { old(self)@.args.push(host_network_arg()) } else { old(self)@.args },
                ..old(self)@
            }),
    {
        let ghost before = self@;
        if str_equal(net, "host") {
            self.inner.args.push(owned("--allow-insecure-entitlement=network.host"));
            assert(texts(self.inner.args@) =~= before.args.push(host_network_arg()));
        }
        self.inner.net_mode = Some(owned(net));
    }

    /// The configuration a bootstrap starts from: without a chosen network
    /// the host network is used.
    pub fn into_bootstrap_config(self) -> (res: Driver)
        ensures
            res@ == (if self@.net_mode is None {
                DriverView { net_mode: Some("host"@), args: self@.args.push(host_network_arg()), ..self@ }
            } else {
                self@
            }),
    {
        let mut b = self;
        if b.inner.net_mode.is_none() {
            b.network("host");
            proof {
                reveal_strlit("host");
            }
        }
        b.inner
    }
}


/// `Duration::from_secs`: a span of `secs` whole seconds. Nothing is stated
/// of the span: `Duration` is opaque to the contracts.
#[verifier::external_body]
fn seconds(secs: u64) -> Duration {
    Duration::from_secs(secs)
}

/// How long a definition solve may take unless another limit is set, in
/// seconds (ten minutes).
pub const DEFAULT_DEFINITION_SOLVE_TIMEOUT_SECS: u64 = 600;

/// The options of a definition solve, as the contracts see them.
pub struct SolveOptionsView {
    pub cache_to: Seq<(Seq<char>, Map<Seq<char>, Seq<char>>)>,
    pub cache_from: Seq<(Seq<char>, Map<Seq<char>, Seq<char>>)>,
    pub credentials: Map<Seq<char>, Seq<Option<Seq<char>>>>,
    pub secrets: Map<Seq<char>, (bool, Seq<char>)>,
    pub ssh: bool,
    pub timeout: Option<Duration>,
    pub file_transfer_limits: FileTransferLimits,
}

/// The credentials of a map, each by its fields.
pub open spec fn creds_views(m: Map<Seq<char>, DockerCredentials>) -> Map<Seq<char>, Seq<Option<Seq<char>>>> {
    m.map_values(|c: DockerCredentials| creds_view(c))
}

/// Options of a solve of a prepared build definition: caches, registry
/// credentials, secrets, ssh forwarding, a time limit and the limits of the
/// export.
pub struct DefinitionSolveOptions {
    cache_to: Vec<CacheOptionsEntry>,
    cache_from: Vec<CacheOptionsEntry>,
    credentials: StrMap<DockerCredentials>,
    secrets: StrMap<SecretSource>,
    ssh: bool,
    timeout: Option<Duration>,
    file_transfer_limits: FileTransferLimits,
}

impl Default for DefinitionSolveOptions {
    fn default() -> (res: Self)
        ensures
            res@.cache_to.len() == 0 && res@.cache_from.len() == 0,
            res@.credentials == Map::<Seq<char>, Seq<Option<Seq<char>>>>::empty(),
            res@.secrets == Map::<Seq<char>, (bool, Seq<char>)>::empty(),
            !res@.ssh,
            res@.timeout is Some,
            res@.file_transfer_limits.max_files is None && res@.file_transfer_limits.max_bytes is None,
    {
        let res = DefinitionSolveOptions {
            cache_to: Vec::new(),
            cache_from: Vec::new(),
            credentials: StrMap::new(),
            secrets: StrMap::new(),
            ssh: false,
            timeout: Some(seconds(DEFAULT_DEFINITION_SOLVE_TIMEOUT_SECS)),
            file_transfer_limits: FileTransferLimits::default(),
        };
        assert(res@.credentials =~= Map::<Seq<char>, Seq<Option<Seq<char>>>>::empty());
        assert(res@.secrets =~= Map::<Seq<char>, (bool, Seq<char>)>::empty());
        res
    }
}

impl DefinitionSolveOptions {
    /// The options.
    pub closed spec fn view(&self) -> SolveOptionsView {
        SolveOptionsView {
            cache_to: cache_views(self.cache_to@),
            cache_from: cache_views(self.cache_from@),
            credentials: creds_views(self.credentials@),
            secrets: source_views(self.secrets@),
            ssh: self.ssh,
            timeout: self.timeout,
            file_transfer_limits: self.file_transfer_limits,
        }
    }

    /// The cache exports.
    pub fn cache_to(&self) -> (res: &Vec<CacheOptionsEntry>)
        ensures
            cache_views(res@) == self@.cache_to,
    {
        &self.cache_to
    }

    /// The cache imports.
    pub fn cache_from(&self) -> (res: &Vec<CacheOptionsEntry>)
        ensures
            cache_views(res@) == self@.cache_from,
    {
        &self.cache_from
    }

    /// The registry credentials by host.
    pub fn credentials(&self) -> (res: &StrMap<DockerCredentials>)
        ensures
            creds_views(res@) == self@.credentials,
    {
        &self.credentials
    }

    /// The secrets by id.
    pub fn secrets(&self) -> (res: &StrMap<SecretSource>)
        ensures
            source_views(res@) == self@.secrets,
    {
        &self.secrets
    }

    /// Whether the default ssh agent is forwarded.
    pub fn ssh(&self) -> (res: bool)
        ensures
            res == self@.ssh,
    {
        self.ssh
    }

    /// The time limit of setup and solve together.
    pub fn timeout(&self) -> (res: Option<Duration>)
        ensures
            res == self@.timeout,
    {
        self.timeout
    }

    /// The limits of the export.
    pub fn file_transfer_limits(&self) -> (res: FileTransferLimits)
        ensures
            res == self@.file_transfer_limits,
    {
        self.file_transfer_limits
    }
}

/// Builds the options of a definition solve.
pub struct DefinitionSolveOptionsBuilder {
    options: DefinitionSolveOptions,
}

impl DefinitionSolveOptionsBuilder {
    /// The options built so far.
    pub closed spec fn view(&self) -> SolveOptionsView {
        self.options@
    }

    /// A builder starting from the default options.
    pub fn new() -> (res: Self)
        ensures
            res@.cache_to.len() == 0 && res@.cache_from.len() == 0,
            res@.credentials == Map::<Seq<char>, Seq<Option<Seq<char>>>>::empty(),
            res@.secrets == Map::<Seq<char>, (bool, Seq<char>)>::empty(),
            !res@.ssh,
            res@.timeout is Some,
            res@.file_transfer_limits.max_files is None && res@.file_transfer_limits.max_bytes is None,
    {
        DefinitionSolveOptionsBuilder { options: DefinitionSolveOptions::default() }
    }

    /// Adds a cache export.
    pub fn cache_to(self, cache: &CacheOptionsEntry) -> (res: Self)
        ensures
            res@ == (SolveOptionsView { cache_to: self@.cache_to.push(cache_view(*cache)), ..self@ }),
    {
        let mut b = self;
        let ghost before = cache_views(b.options.cache_to@);
        b.options.cache_to.push(cache.copy());
        assert(cache_views(b.options.cache_to@) =~= before.push(cache_view(*cache)));
        b
    }

    /// Adds a cache import.
    pub fn cache_from(self, cache: &CacheOptionsEntry) -> (res: Self)
        ensures
            res@ == (SolveOptionsView { cache_from: self@.cache_from.push(cache_view(*cache)), ..self@ }),
    {
        let mut b = self;
        let ghost before = cache_views(b.options.cache_from@);
        b.options.cache_from.push(cache.copy());
        assert(cache_views(b.options.cache_from@) =~= before.push(cache_view(*cache)));
        b
    }

    /// Sets the credentials for a registry host.
    pub fn credential(self, host: &str, credentials: DockerCredentials) -> (res: Self)
        ensures
            res@ == (SolveOptionsView { credentials: self@.credentials.insert(host@, creds_view(credentials)), ..self@ }),
    {
        let mut b = self;
        let ghost before = b.options.credentials@;
        let ghost c = credentials;
        b.options.credentials.insert(owned(host), credentials);
        assert(creds_views(b.options.credentials@) =~= creds_views(before).insert(host@, creds_view(c)));
        b
    }

    /// Offers a secret under `id`.
    pub fn secret(self, id: &str, source: SecretSource) -> (res: Self)
        ensures
            res@ == (SolveOptionsView { secrets: self@.secrets.insert(id@, source_view(source)), ..self@ }),
    {
        let mut b = self;
        let ghost before = b.options.secrets@;
        let ghost s = source;
        b.options.secrets.insert(owned(id), source);
        assert(source_views(b.options.secrets@) =~= source_views(before).insert(id@, source_view(s)));
        b
    }

    /// Whether the default ssh agent is forwarded.
    pub fn enable_ssh(self, enable: bool) -> (res: Self)
        ensures
            res@ == (SolveOptionsView { ssh: enable, ..self@ }),
    {
        let mut b = self;
        b.options.ssh = enable;
        b
    }

    /// The time limit of setup and solve together.
    pub fn timeout(self, timeout: Duration) -> (res: Self)
        ensures
            res@ == (SolveOptionsView { timeout: Some(timeout), ..self@ }),
    {
        let mut b = self;
        b.options.timeout = Some(timeout);
        b
    }

    /// The limits of the export.
    pub fn file_transfer_limits(self, limits: FileTransferLimits) -> (res: Self)
        ensures
            res@ == (SolveOptionsView { file_transfer_limits: limits, ..self@ }),
    {
        let mut b = self;
        b.options.file_transfer_limits = limits;
        b
    }

    /// The options built.
    pub fn build(self) -> (res: DefinitionSolveOptions)
        ensures
            res@ == self@,
    {
        self.options
    }
}

/// A solve of a prepared build definition `D`, which the library carries
/// to the daemon without reading it.
pub struct DefinitionSolveRequest<D> {
    /// The definition to solve.
    pub definition: D,
    /// Where the result is exported.
    pub exporter: DefinitionExporter,
    options: DefinitionSolveOptions,
    build_ref: Option<BuildRef>,
}

impl<D> DefinitionSolveRequest<D> {
    /// The definition.
    pub closed spec fn definition_of(&self) -> D {
        self.definition
    }

    /// Where the result is exported.
    pub closed spec fn exporter_of(&self) -> DefinitionExporter {
        self.exporter
    }

    /// The options.
    pub closed spec fn options_view(&self) -> SolveOptionsView {
        self.options@
    }

    /// The build reference, if one was chosen.
    pub closed spec fn build_ref_view(&self) -> Option<Seq<char>> {
        match self.build_ref {
            Some(r) => Some(r@),
            None => None,
        }
    }

    /// A request for `definition`, exported by `exporter`, with the default
    /// options and no build reference chosen.
    pub fn new(definition: D, exporter: DefinitionExporter) -> (res: Self)
        ensures
            res.definition_of() == definition,
            res.exporter_of() == exporter,
            res.options_view().cache_to.len() == 0 && res.options_view().cache_from.len() == 0,
            res.options_view().credentials == Map::<Seq<char>, Seq<Option<Seq<char>>>>::empty(),
            res.options_view().secrets == Map::<Seq<char>, (bool, Seq<char>)>::empty(),
            !res.options_view().ssh,
            res.options_view().timeout is Some,
            res.build_ref_view() is None,
    {
        DefinitionSolveRequest { definition, exporter, options: DefinitionSolveOptions::default(), build_ref: None }
    }

    /// The request with other options.
    pub fn with_options(self, options: DefinitionSolveOptions) -> (res: Self)
        ensures
            res.definition_of() == self.definition_of(),
            res.exporter_of() == self.exporter_of(),
            res.options_view() == options@,
            res.build_ref_view() == self.build_ref_view(),
    {
        DefinitionSolveRequest { definition: self.definition, exporter: self.exporter, options, build_ref: self.build_ref }
    }

    /// The request under the build reference `build_ref`.
    pub fn with_build_ref(self, build_ref: BuildRef) -> (res: Self)
        ensures
            res.definition_of() == self.definition_of(),
            res.exporter_of() == self.exporter_of(),
            res.options_view() == self.options_view(),
            res.build_ref_view() == Some(build_ref@),
    {
        DefinitionSolveRequest { definition: self.definition, exporter: self.exporter, options: self.options, build_ref: Some(build_ref) }
    }
}

/// A service the client offers BuildKit during a solve.
pub enum SessionService {
    /// Registry credentials.
    Auth(AuthProvider),
    /// The build context.
    Upload(UploadProvider),
    /// Build secrets.
    Secrets(SecretProvider),
    /// Ssh agent forwarding.
    Ssh(SshProvider),
    /// The receiver of a single exported file.
    FileSend(FileSendImpl),
    /// The receiver of an exported directory.
    FileSendPacket(FileSendPacketImpl),
}

/// A service as the contracts see it.
pub enum ServiceView {
    Auth(Map<Seq<char>, Seq<Option<Seq<char>>>>),
    Upload(Map<Seq<char>, Seq<u8>>),
    Secrets(Map<Seq<char>, (bool, Seq<char>)>),
    Ssh(Map<Seq<char>, SshAgentSource>),
    FileSend(Seq<char>),
    FileSendPacket(Seq<char>, FileTransferLimits),
}

/// The model of a service.
pub open spec fn service_view(s: SessionService) -> ServiceView {
    match s {
        SessionService::Auth(p) => ServiceView::Auth(p@),
        SessionService::Upload(p) => ServiceView::Upload(p@),
        SessionService::Secrets(p) => ServiceView::Secrets(source_views(p@)),
        SessionService::Ssh(p) => ServiceView::Ssh(p@),
        SessionService::FileSend(p) => ServiceView::FileSend(p.dest_view()),
        SessionService::FileSendPacket(p) => ServiceView::FileSendPacket(p.dest_view(), p.limits_view()),
    }
}

/// The models of services.
pub open spec fn service_views(v: Seq<SessionService>) -> Seq<ServiceView> {
    Seq::new(v.len(), |i: int| service_view(v[i]))
}

/// The agents forwarded when ssh is enabled: the default agent only.
pub open spec fn default_agents() -> Map<Seq<char>, SshAgentSource> {
    map!["default"@ => SshAgentSource::DefaultAgentSocket]
}

/// The solve request sent to BuildKit, but for the definition that a
/// definition solve carries beside it.
pub struct SolvePlan {
    /// The build reference.
    pub reference: String,
    /// The session the services are offered in.
    pub session: String,
    /// The cache exports and imports.
    pub cache_exports: Vec<CacheOptionsEntry>,
    pub cache_imports: Vec<CacheOptionsEntry>,
    /// The exporter and its attributes.
    pub exporter: String,
    pub exporter_attrs: StrMap<String>,
    /// The frontend and its attributes; empty for a definition solve.
    pub frontend: String,
    pub frontend_attrs: StrMap<String>,
    /// The types of the exporters listed with the request, each without
    /// attributes.
    pub exporters: Vec<String>,
}

/// The texts of strings.
pub open spec fn string_texts(v: Seq<String>) -> Seq<Seq<char>> {
    Seq::new(v.len(), |i: int| v[i]@)
}

fn copy_caches(v: &Vec<CacheOptionsEntry>) -> (res: Vec<CacheOptionsEntry>)
    ensures
        cache_views(res@) == cache_views(v@),
{
    let mut out: Vec<CacheOptionsEntry> = Vec::new();
    let mut i: usize = 0;
    while i < v.len()
        invariant
            i <= v@.len(),
            cache_views(out@) == cache_views(v@).take(i as int),
        decreases v@.len() - i,
    {
        let ghost before = cache_views(out@);
        out.push(v[i].copy());
        assert(cache_views(out@) =~= before.push(cache_view(v@[i as int])));
        assert(cache_views(v@).take(i + 1) =~= cache_views(v@).take(i as int).push(cache_view(v@[i as int])));
        i = i + 1;
    }
    assert(cache_views(v@).take(v@.len() as int) =~= cache_views(v@));
    out
}

fn copy_secrets(m: &StrMap<SecretSource>) -> (res: StrMap<SecretSource>)
    ensures
        source_views(res@) == source_views(m@),
{
    let entries = m.entries();
    let mut out: StrMap<SecretSource> = StrMap::new();
    let mut i: usize = 0;
    assert(entries@.take(0) =~= Seq::<(String, SecretSource)>::empty());
    assert(source_views(out@) =~= source_views(entries_map(entries@.take(0))));
    while i < entries.len()
        invariant
            i <= entries@.len(),
            m@ == entries_map(entries@),
            source_views(out@) == source_views(entries_map(entries@.take(i as int))),
        decreases entries@.len() - i,
    {
        let ghost before = out@;
        let source = match &entries[i].1 {
            SecretSource::File(p) => SecretSource::File(owned(p.as_str())),
            SecretSource::Env(v) => SecretSource::Env(owned(v.as_str())),
        };
        out.insert(owned(entries[i].0.as_str()), source);
        proof {
            assert(entries@.take(i + 1).drop_last() =~= entries@.take(i as int));
            assert(source_views(out@) =~= source_views(before).insert(entries@[i as int].0@, source_view(entries@[i as int].1)));
            assert(source_views(entries_map(entries@.take(i + 1))) =~= source_views(entries_map(entries@.take(i as int))).insert(
                entries@[i as int].0@,
                source_view(entries@[i as int].1),
            ));
        }
        i = i + 1;
    }
    assert(entries@.take(entries@.len() as int) =~= entries@);
    out
}

fn auth_for(credentials: &StrMap<DockerCredentials>) -> (res: AuthProvider)
    ensures
        res@ == creds_views(credentials@),
{
    let entries = credentials.entries();
    let mut provider = AuthProvider::new();
    let mut i: usize = 0;
    assert(entries@.take(0) =~= Seq::<(String, DockerCredentials)>::empty());
    assert(provider@ =~= creds_views(entries_map(entries@.take(0))));
    while i < entries.len()
        invariant
            i <= entries@.len(),
            credentials@ == entries_map(entries@),
            provider@ == creds_views(entries_map(entries@.take(i as int))),
        decreases entries@.len() - i,
    {
        let ghost before = provider@;
        provider.set_docker_credentials(entries[i].0.as_str(), entries[i].1.copy());
        proof {
            assert(entries@.take(i + 1).drop_last() =~= entries@.take(i as int));
            assert(creds_views(entries_map(entries@.take(i + 1))) =~= creds_views(entries_map(entries@.take(i as int))).insert(
                entries@[i as int].0@,
                creds_view(entries@[i as int].1),
            ));
        }
        i = i + 1;
    }
    assert(entries@.take(entries@.len() as int) =~= entries@);
    provider
}

fn default_agent_provider() -> (res: SshProvider)
    ensures
        res@ == default_agents(),
{
    let mut sources: StrMap<SshAgentSource> = StrMap::new();
    sources.insert(owned(DEFAULT_SSH_AGENT_ID), SshAgentSource::DefaultAgentSocket);
    proof {
        reveal_strlit("default");
        assert(sources@ =~= default_agents());
    }
    SshProvider::new(sources)
}

fn reference_or_random(build_ref: Option<BuildRef>) -> (res: String)
    ensures
        match build_ref {
            Some(r) => res@ == r@,
            None => res@.len() == 25,
        },
{
    match build_ref {
        Some(r) => r.into_string(),
        None => BuildRef::random().into_string(),
    }
}

/// The request of a definition solve in session `session_id`: the build
/// reference (a fresh random one unless chosen), the caches of the options,
/// the `local` exporter without attributes, listed once among the
/// exporters, and no frontend.
pub fn build_definition_solve_request(
    exporter: &DefinitionExporter,
    options: &DefinitionSolveOptions,
    session_id: &str,
    build_ref: Option<BuildRef>,
) -> (res: SolvePlan)
    ensures
        match build_ref {
            Some(r) => res.reference@ == r@,
            None => res.reference@.len() == 25,
        },
        res.session@ == session_id@,
        cache_views(res.cache_exports@) == options@.cache_to,
        cache_views(res.cache_imports@) == options@.cache_from,
        res.exporter@ == "local"@,
        res.exporter_attrs@ == Map::<Seq<char>, String>::empty(),
        res.frontend@.len() == 0,
        res.frontend_attrs@ == Map::<Seq<char>, String>::empty(),
        string_texts(res.exporters@) == seq!["local"@],
{
    let exporter_type = match exporter {
        DefinitionExporter::Local(_) => owned("local"),
    };
    let mut exporters: Vec<String> = Vec::new();
    exporters.push(owned("local"));
    assert(string_texts(exporters@) =~= seq!["local"@]);
    SolvePlan {
        reference: reference_or_random(build_ref),
        session: owned(session_id),
        cache_exports: copy_caches(&options.cache_to),
        cache_imports: copy_caches(&options.cache_from),
        exporter: exporter_type,
        exporter_attrs: StrMap::new(),
        frontend: String::new(),
        frontend_attrs: StrMap::new(),
        exporters,
    }
}

/// What a definition solve sends and offers.
pub struct DefinitionSolvePlan<D> {
    /// The definition, as the request carried it.
    pub definition: D,
    /// The request, but for the definition.
    pub request: SolvePlan,
    /// The services offered, in order.
    pub services: Vec<SessionService>,
    /// The time limit of setup and solve together.
    pub timeout: Option<Duration>,
}

/// Plans a definition solve in a fresh session: the request of
/// `build_definition_solve_request`, and the services: the credentials and
/// the secrets of the options, the default ssh agent when ssh is enabled,
/// and the receiver of the exported directory with the options' limits.
pub fn plan_definition_solve<D>(request: DefinitionSolveRequest<D>) -> (res: DefinitionSolvePlan<D>)
    ensures
        res.definition == request.definition_of(),
        res.request.session@.len() == 25,
        match request.build_ref_view() {
            Some(r) => res.request.reference@ == r,
            None => res.request.reference@.len() == 25,
        },
        cache_views(res.request.cache_exports@) == request.options_view().cache_to,
        cache_views(res.request.cache_imports@) == request.options_view().cache_from,
        res.request.exporter@ == "local"@,
        res.request.exporter_attrs@ == Map::<Seq<char>, String>::empty(),
        res.request.frontend@.len() == 0,
        res.request.frontend_attrs@ == Map::<Seq<char>, String>::empty(),
        string_texts(res.request.exporters@) == seq!["local"@],
        res.timeout == request.options_view().timeout,
        service_views(res.services@) == ({
            let o = request.options_view();
            let shared = seq![ServiceView::Auth(o.credentials), ServiceView::Secrets(o.secrets)];
            let with_ssh = if o.ssh { shared.push(ServiceView::Ssh(default_agents())) } else { shared };
            match request.exporter_of() {
                DefinitionExporter::Local(path) => with_ssh.push(ServiceView::FileSendPacket(path@, o.file_transfer_limits)),
            }
        }),
{
    let session_id = new_id();
    let ghost o = request.options_view();
    let mut services: Vec<SessionService> = Vec::new();
    services.push(SessionService::Auth(auth_for(&request.options.credentials)));
    services.push(SessionService::Secrets(SecretProvider::new(copy_secrets(&request.options.secrets))));
    let ghost shared = seq![ServiceView::Auth(o.credentials), ServiceView::Secrets(o.secrets)];
    assert(service_views(services@) =~= shared);
    if request.options.ssh {
        services.push(SessionService::Ssh(default_agent_provider()));
    }
    let ghost with_ssh = if o.ssh { shared.push(ServiceView::Ssh(default_agents())) } else { shared };
    assert(service_views(services@) =~= with_ssh);
    match &request.exporter {
        DefinitionExporter::Local(path) => {
            services.push(SessionService::FileSendPacket(FileSendPacketImpl::with_limits(
                path.as_str(),
                request.options.file_transfer_limits,
            )));
            assert(service_views(services@) =~= with_ssh.push(ServiceView::FileSendPacket(path@, o.file_transfer_limits)));
        },
    }
    let plan = build_definition_solve_request(&request.exporter, &request.options, session_id.as_str(), request.build_ref);
    DefinitionSolvePlan { definition: request.definition, request: plan, services, timeout: request.options.timeout }
}

/// The attributes of the Dockerfile frontend for a solve whose build context
/// is offered at `context`.
pub open spec fn solve_frontend_attrs(o: FrontendOptionsView, context: Seq<char>) -> Map<Seq<char>, Seq<char>> {
    frontend_attrs(o).insert("context"@, context)
}

/// What a Dockerfile solve sends and offers.
pub struct SolvePlanWithServices {
    /// The request.
    pub request: SolvePlan,
    /// The services offered, in order.
    pub services: Vec<SessionService>,
}

/// Plans a Dockerfile solve in a fresh session, exporting with `exporter`
/// and `exporter_attrs`: the build context `payload` is offered for upload
/// under a fresh id and named in the frontend attribute `context`; the
/// services are the credentials, the upload, the secrets of the options,
/// the default ssh agent when the options enable ssh, and the receiver of a
/// single file at `path` when one is given.
pub fn plan_solve(
    exporter: &str,
    exporter_attrs: StrMap<String>,
    path: Option<String>,
    frontend_opts: ImageBuildFrontendOptions,
    payload: Vec<u8>,
    credentials: Option<StrMap<DockerCredentials>>,
    build_ref: Option<BuildRef>,
) -> (res: SolvePlanWithServices)
    ensures
        res.request.session@.len() == 25,
        match build_ref {
            Some(r) => res.request.reference@ == r@,
            None => res.request.reference@.len() == 25,
        },
        cache_views(res.request.cache_exports@) == frontend_opts@.cacheto,
        cache_views(res.request.cache_imports@) == frontend_opts@.cachefrom,
        res.request.exporter@ == exporter@,
        text_values(res.request.exporter_attrs@) == text_values(exporter_attrs@),
        res.request.frontend@ == "dockerfile.v0"@,
        res.request.exporters@.len() == 0,
        exists|id: Seq<char>| #![trigger upload_url_prefix() + id]
            id.len() == 25
            && text_values(res.request.frontend_attrs@) == solve_frontend_attrs(frontend_opts@, upload_url_prefix() + id)
            && service_views(res.services@) == ({
                let o = frontend_opts@;
                let auth = match credentials {
                    Some(c) => creds_views(c@),
                    None => Map::<Seq<char>, Seq<Option<Seq<char>>>>::empty(),
                };
                let shared = seq![
                    ServiceView::Auth(auth),
                    ServiceView::Upload(map!["/"@ + id => payload@]),
                    ServiceView::Secrets(o.secrets),
                ];
                let with_ssh = if o.ssh { shared.push(ServiceView::Ssh(default_agents())) } else { shared };
                match path {
                    Some(p) => with_ssh.push(ServiceView::FileSend(p@)),
                    None => with_ssh,
                }
            }),
{
    let session_id = new_id();
    let ghost o = frontend_opts@;
    let ghost data = payload@;
    let mut upload = UploadProvider::new();
    let context = upload.add(payload);
    let ghost id = choose|id: Seq<char>| #![trigger upload_url_prefix() + id]
        id.len() == 25 && context@ == upload_url_prefix() + id && upload@ == Map::<Seq<char>, Seq<u8>>::empty().insert("/"@ + id, data);
    assert(upload@ =~= map!["/"@ + id => data]);
    let ingest = frontend_opts.consume();
    let mut attrs = ingest.frontend_attrs;
    let ghost before = attrs@;
    attrs.insert(owned("context"), context);
    proof {
        lemma_text_values_insert(before, "context"@, attrs@["context"@]);
    }
    let auth = match &credentials {
        Some(c) => auth_for(c),
        None => AuthProvider::new(),
    };
    let ghost auth_view = auth@;
    let mut services: Vec<SessionService> = Vec::new();
    services.push(SessionService::Auth(auth));
    services.push(SessionService::Upload(upload));
    services.push(SessionService::Secrets(SecretProvider::new(ingest.secret_sources)));
    let ghost shared = seq![
        ServiceView::Auth(auth_view),
        ServiceView::Upload(map!["/"@ + id => data]),
        ServiceView::Secrets(o.secrets),
    ];
    assert(service_views(services@) =~= shared);
    if ingest.ssh {
        services.push(SessionService::Ssh(default_agent_provider()));
    }
    let ghost with_ssh = if o.ssh { shared.push(ServiceView::Ssh(default_agents())) } else { shared };
    assert(service_views(services@) =~= with_ssh);
    match &path {
        Some(p) => {
            services.push(SessionService::FileSend(FileSendImpl::new(p.as_str())));
            assert(service_views(services@) =~= with_ssh.push(ServiceView::FileSend(p@)));
        },
        None => {},
    }
    let request = SolvePlan {
        reference: reference_or_random(build_ref),
        session: session_id,
        cache_exports: ingest.cache_to,
        cache_imports: ingest.cache_from,
        exporter: owned(exporter),
        exporter_attrs,
        frontend: owned("dockerfile.v0"),
        frontend_attrs: attrs,
        exporters: Vec::new(),
    };
    SolvePlanWithServices { request, services }
}

/// The result of a solve, given the solve's own result and the teardown's:
/// a failed solve keeps its error whatever the teardown gave; after a
/// successful solve the teardown's result stands.
pub fn solve_outcome<E>(solve: Result<(), E>, tear_down: Result<(), E>) -> (res: Result<(), E>)
    ensures
        res == (match solve {
            Err(e) => Err(e),
            Ok(()) => tear_down,
        }),
{
    match solve {
        Err(e) => Err(e),
        Ok(()) => tear_down,
    }
}

/// Where a solve stands: its session is being set up, the solve runs, the
/// driver is being torn down (holding what the setup or solve gave), or it
/// is over.
pub enum SolvePhase<E> {
    SettingUp,
    Solving,
    TearingDown(Result<(), E>),
    Done,
}

/// What happens to a solve: the session setup or the solve finishes, the
/// teardown finishes, or the caller abandons the solve (cancellation or a
/// panic).
pub enum SolveEvent<E> {
    SetupFinished(Result<(), E>),
    SolveFinished(Result<(), E>),
    TearDownFinished(Result<(), E>),
    Cancelled,
}

/// What the caller does next.
pub enum SolveStep<E> {
    /// Send the solve request.
    StartSolve,
    /// Tear the driver down (in the background when the solve was
    /// abandoned).
    TearDown,
    /// The solve is over with this result.
    Finish(Result<(), E>),
    /// Nothing.
    Nothing,
}

/// The decision after `event` in `phase`: a failed setup or a finished
/// solve tears the driver down and keeps its own result; once the teardown
/// finishes, the solve ends with `solve_outcome` of the two (a setup or
/// solve error wins over a teardown error); an abandoned solve is torn down
/// unless that has already begun; any other event changes nothing.
pub open spec fn solve_step<E>(phase: SolvePhase<E>, event: SolveEvent<E>) -> (SolvePhase<E>, SolveStep<E>) {
    match phase {
        SolvePhase::SettingUp => match event {
            SolveEvent::SetupFinished(Ok(())) => (SolvePhase::Solving, SolveStep::StartSolve),
            SolveEvent::SetupFinished(Err(e)) => (SolvePhase::TearingDown(Err(e)), SolveStep::TearDown),
            SolveEvent::Cancelled => (SolvePhase::Done, SolveStep::TearDown),
            _ => (SolvePhase::SettingUp, SolveStep::Nothing),
        },
        SolvePhase::Solving => match event {
            SolveEvent::SolveFinished(r) => (SolvePhase::TearingDown(r), SolveStep::TearDown),
            SolveEvent::Cancelled => (SolvePhase::Done, SolveStep::TearDown),
            _ => (SolvePhase::Solving, SolveStep::Nothing),
        },
        SolvePhase::TearingDown(r) => match event {
            SolveEvent::TearDownFinished(t) => (SolvePhase::Done, SolveStep::Finish(match r {
                Err(e) => Err(e),
                Ok(()) => t,
            })),
            SolveEvent::Cancelled => (SolvePhase::Done, SolveStep::Nothing),
            _ => (SolvePhase::TearingDown(r), SolveStep::Nothing),
        },
        SolvePhase::Done => (SolvePhase::Done, SolveStep::Nothing),
    }
}

/// Decides what follows `event` in `phase` (see `solve_step`).
pub fn solve_transition<E>(phase: SolvePhase<E>, event: SolveEvent<E>) -> (res: (SolvePhase<E>, SolveStep<E>))
    ensures
        res == solve_step(phase, event),
{
    match phase {
        SolvePhase::SettingUp => match event {
            SolveEvent::SetupFinished(Ok(())) => (SolvePhase::Solving, SolveStep::StartSolve),
            SolveEvent::SetupFinished(Err(e)) => (SolvePhase::TearingDown(Err(e)), SolveStep::TearDown),
            SolveEvent::Cancelled => (SolvePhase::Done, SolveStep::TearDown),
            _ => (SolvePhase::SettingUp, SolveStep::Nothing),
        },
        SolvePhase::Solving => match event {
            SolveEvent::SolveFinished(r) => (SolvePhase::TearingDown(r), SolveStep::TearDown),
            SolveEvent::Cancelled => (SolvePhase::Done, SolveStep::TearDown),
            _ => (SolvePhase::Solving, SolveStep::Nothing),
        },
        SolvePhase::TearingDown(r) => match event {
            SolveEvent::TearDownFinished(t) => (SolvePhase::Done, SolveStep::Finish(solve_outcome(r, t))),
            SolveEvent::Cancelled => (SolvePhase::Done, SolveStep::Nothing),
            _ => (SolvePhase::TearingDown(r), SolveStep::Nothing),
        },
        SolvePhase::Done => (SolvePhase::Done, SolveStep::Nothing),
    }
}

/// The phase after `events`, from `phase`, and the steps taken.
pub open spec fn solve_run<E>(phase: SolvePhase<E>, events: Seq<SolveEvent<E>>) -> (SolvePhase<E>, Seq<SolveStep<E>>)
    decreases events.len(),
{
    if events.len() == 0 {
        (phase, Seq::empty())
    } else {
        let (p, steps) = solve_run(phase, events.drop_last());
        let (q, step) = solve_step(p, events.last());
        (q, steps.push(step))
    }
}

/// How many of `steps` tear the driver down.
pub open spec fn teardowns<E>(steps: Seq<SolveStep<E>>) -> nat
    decreases steps.len(),
{
    if steps.len() == 0 {
        0
    } else {
        teardowns(steps.drop_last()) + if steps.last() is TearDown { 1nat } else { 0nat }
    }
}

/// Whether the teardown has begun in `phase`.
pub open spec fn teardown_begun<E>(phase: SolvePhase<E>) -> bool {
    phase is TearingDown || phase is Done
}

/// Whatever happens to a solve, the driver is torn down exactly once: not
/// before the setup fails, the solve finishes or the solve is abandoned,
/// and once in every run that has got that far, a failed setup included.
/// A solve only ends after its teardown has begun.
pub proof fn law_teardown_exactly_once<E>(events: Seq<SolveEvent<E>>)
    ensures
        ({
            let (p, steps) = solve_run(SolvePhase::<E>::SettingUp, events);
            &&& teardowns(steps) == if teardown_begun(p) { 1nat } else { 0nat }
            &&& forall|i: int| 0 <= i < steps.len() && #[trigger] steps[i] is Finish ==> teardowns(steps.take(i)) == 1
        }),
    decreases events.len(),
{
    if events.len() > 0 {
        let evs = events.drop_last();
        law_teardown_exactly_once(evs);
        let (p, steps) = solve_run(SolvePhase::<E>::SettingUp, evs);
        let (q, step) = solve_step(p, events.last());
        let all = steps.push(step);
        assert(all.drop_last() =~= steps);
        assert forall|i: int| 0 <= i < all.len() && #[trigger] all[i] is Finish implies teardowns(all.take(i)) == 1 by {
            if i < steps.len() {
                assert(all[i] == steps[i]);
                assert(all.take(i) =~= steps.take(i));
            } else {
                assert(all.take(i) =~= steps);
            }
        }
    }
}

} // verus!
