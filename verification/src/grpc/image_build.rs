//! Options of an image build through BuildKit.

use vstd::prelude::*;
use crate::context::join_path;
use crate::grpc::export::{lemma_text_values_insert, text_values};
use crate::grpc::{source_view, SecretSource};
use crate::strmap::{entries_map, StrMap};
use crate::text::{decimal_text, owned, push_all, push_decimal, str_equal, to_chars};

verus! {

broadcast use vstd::string::group_string_axioms;

/// How an exported image tarball is compressed.
#[derive(Debug, Copy, Clone, PartialEq, Eq, Structural)]
pub enum ImageBuildOutputCompression {
    /// Uncompressed.
    Uncompressed,
    /// GZIP (the default).
    Gzip,
    /// A stargz snapshot.
    Estargz,
    /// Zstandard.
    Zstd,
}

impl Default for ImageBuildOutputCompression {
    fn default() -> (res: Self)
        ensures
            res == ImageBuildOutputCompression::Gzip,
    {
        ImageBuildOutputCompression::Gzip
    }
}

/// The name BuildKit uses for a compression.
pub open spec fn compression_text(c: ImageBuildOutputCompression) -> Seq<char> {
    match c {
        ImageBuildOutputCompression::Uncompressed => "uncompressed"@,
        ImageBuildOutputCompression::Gzip => "gzip"@,
        ImageBuildOutputCompression::Estargz => "estargz"@,
        ImageBuildOutputCompression::Zstd => "zstd"@,
    }
}

impl ImageBuildOutputCompression {
    /// The name BuildKit uses for this compression.
    pub fn to_string(&self) -> (res: String)
        ensures
            res@ == compression_text(*self),
    {
        match self {
            ImageBuildOutputCompression::Uncompressed => owned("uncompressed"),
            ImageBuildOutputCompression::Gzip => owned("gzip"),
            ImageBuildOutputCompression::Estargz => owned("estargz"),
            ImageBuildOutputCompression::Zstd => owned("zstd"),
        }
    }
}


/// A cache import or export of a build: its type (such as `registry` or
/// `local`) and its attributes.
pub struct CacheOptionsEntry {
    /// The cache backend.
    pub backend: String,
    /// The backend's attributes.
    pub attrs: StrMap<String>,
}

/// A cache entry as the contracts see it.
pub open spec fn cache_view(c: CacheOptionsEntry) -> (Seq<char>, Map<Seq<char>, Seq<char>>) {
    (c.backend@, text_values(c.attrs@))
}

/// The models of cache entries.
pub open spec fn cache_views(v: Seq<CacheOptionsEntry>) -> Seq<(Seq<char>, Map<Seq<char>, Seq<char>>)> {
    Seq::new(v.len(), |i: int| cache_view(v[i]))
}

/// A copy of a string map.
pub(crate) fn copy_text_map(m: &StrMap<String>) -> (res: StrMap<String>)
    ensures
        text_values(res@) == text_values(m@),
{
    let entries = m.entries();
    let mut out: StrMap<String> = StrMap::new();
    let mut i: usize = 0;
    assert(entries@.take(0) =~= Seq::<(String, String)>::empty());
    assert(text_values(out@) =~= text_values(entries_map(entries@.take(0))));
    while i < entries.len()
        invariant
            i <= entries@.len(),
            m@ == entries_map(entries@),
            text_values(out@) == text_values(entries_map(entries@.take(i as int))),
        decreases entries@.len() - i,
    {
        let ghost before = out@;
        let value = owned(entries[i].1.as_str());
        out.insert(owned(entries[i].0.as_str()), value);
        proof {
            assert(entries@.take(i + 1).drop_last() =~= entries@.take(i as int));
            lemma_text_values_insert(before, entries@[i as int].0@, value);
            lemma_text_values_insert(entries_map(entries@.take(i as int)), entries@[i as int].0@, entries@[i as int].1);
        }
        i = i + 1;
    }
    assert(entries@.take(entries@.len() as int) =~= entries@);
    out
}

impl CacheOptionsEntry {
    /// A copy of the entry.
    pub fn copy(&self) -> (res: Self)
        ensures
            cache_view(res) == cache_view(*self),
    {
        CacheOptionsEntry { backend: owned(self.backend.as_str()), attrs: copy_text_map(&self.attrs) }
    }
}

/// The network the build's `RUN` steps use.
#[derive(Debug, Clone, PartialEq, Eq)]
pub enum ImageBuildNetworkMode {
    /// Bridge networking (the default).
    Bridge,
    /// The host's network.
    Host,
    /// No network.
    NoNetwork,
    /// The network of the named container.
    Container(String),
}

impl Default for ImageBuildNetworkMode {
    fn default() -> (res: Self)
        ensures
            res == ImageBuildNetworkMode::Bridge,
    {
        ImageBuildNetworkMode::Bridge
    }
}

/// The name of a network mode: `default`, `host`, `none` or
/// `container:<name>`.
pub open spec fn network_text(m: ImageBuildNetworkMode) -> Seq<char> {
    match m {
        ImageBuildNetworkMode::Bridge => "default"@,
        ImageBuildNetworkMode::Host => "host"@,
        ImageBuildNetworkMode::NoNetwork => "none"@,
        ImageBuildNetworkMode::Container(name) => "container:"@ + name@,
    }
}

impl ImageBuildNetworkMode {
    /// The name of the mode (see `network_text`).
    pub fn to_string(&self) -> (res: String)
        ensures
            res@ == network_text(*self),
    {
        match self {
            ImageBuildNetworkMode::Bridge => owned("default"),
            ImageBuildNetworkMode::Host => owned("host"),
            ImageBuildNetworkMode::NoNetwork => owned("none"),
            ImageBuildNetworkMode::Container(name) => {
                let mut out = owned("container:");
                push_all(&mut out, name.as_str());
                out
            },
        }
    }

    /// A copy of the mode.
    pub fn copy(&self) -> (res: Self)
        ensures
            network_text(res) == network_text(*self),
    {
        match self {
            ImageBuildNetworkMode::Bridge => ImageBuildNetworkMode::Bridge,
            ImageBuildNetworkMode::Host => ImageBuildNetworkMode::Host,
            ImageBuildNetworkMode::NoNetwork => ImageBuildNetworkMode::NoNetwork,
            ImageBuildNetworkMode::Container(name) => ImageBuildNetworkMode::Container(owned(name.as_str())),
        }
    }
}

/// `b` joined to the path `a` the way a path joins: an absolute `b`
/// replaces `a`.
pub open spec fn path_join(a: Seq<char>, b: Seq<char>) -> Seq<char> {
    if b.len() > 0 && b[0] == '/' { b } else { join_path(a, b) }
}

fn path_join_text(a: &str, b: &str) -> (res: String)
    ensures
        res@ == path_join(a@, b@),
{
    let bc = to_chars(b);
    if bc.len() > 0 && bc[0] == '/' {
        owned(b)
    } else {
        crate::context::join_path_text(a, b)
    }
}

/// The platform an image runs on.
#[derive(Debug, Clone, PartialEq, Eq)]
pub struct ImageBuildPlatform {
    /// The CPU architecture, such as `amd64`.
    pub architecture: String,
    /// The operating system, such as `linux`.
    pub os: String,
    /// The CPU variant, such as `v7`.
    pub variant: Option<String>,
}

/// The name of a platform: its architecture, operating system and variant
/// joined as a path.
pub open spec fn platform_text(p: ImageBuildPlatform) -> Seq<char> {
    let prefix = path_join(p.architecture@, p.os@);
    match p.variant {
        Some(v) => path_join(prefix, v@),
        None => prefix,
    }
}

impl ImageBuildPlatform {
    /// The name of the platform (see `platform_text`).
    pub fn to_string(&self) -> (res: String)
        ensures
            res@ == platform_text(*self),
    {
        let prefix = path_join_text(self.architecture.as_str(), self.os.as_str());
        match &self.variant {
            Some(v) => path_join_text(prefix.as_str(), v.as_str()),
            None => prefix,
        }
    }

    /// A copy of the platform.
    pub fn copy(&self) -> (res: Self)
        ensures
            platform_text(res) == platform_text(*self),
    {
        ImageBuildPlatform {
            architecture: owned(self.architecture.as_str()),
            os: owned(self.os.as_str()),
            variant: match &self.variant {
                Some(v) => Some(owned(v.as_str())),
                None => None,
            },
        }
    }
}

/// A host name and address to add to `/etc/hosts`; the address is kept as
/// its text.
#[derive(Debug, Clone, PartialEq, Eq)]
pub struct ImageBuildHostIp {
    /// The host name.
    pub host: String,
    /// The address.
    pub ip: String,
}

/// The entry as `<host>=<ip>`.
pub open spec fn host_ip_text(h: ImageBuildHostIp) -> Seq<char> {
    h.host@ + "="@ + h.ip@
}

impl ImageBuildHostIp {
    /// The entry as `<host>=<ip>`.
    pub fn to_string(&self) -> (res: String)
        ensures
            res@ == host_ip_text(*self),
    {
        let mut out = owned(self.host.as_str());
        push_all(&mut out, "=");
        push_all(&mut out, self.ip.as_str());
        out
    }

    /// A copy of the entry.
    pub fn copy(&self) -> (res: Self)
        ensures
            host_ip_text(res) == host_ip_text(*self),
    {
        ImageBuildHostIp { host: owned(self.host.as_str()), ip: owned(self.ip.as_str()) }
    }
}

/// `parts` joined with commas.
pub open spec fn comma_joined(parts: Seq<Seq<char>>) -> Seq<char>
    decreases parts.len(),
{
    if parts.len() == 0 {
        Seq::empty()
    } else if parts.len() == 1 {
        parts[0]
    } else {
        comma_joined(parts.drop_last()) + ","@ + parts.last()
    }
}

/// The frontend options of a build, as the contracts see them.
pub struct FrontendOptionsView {
    pub cacheto: Seq<(Seq<char>, Map<Seq<char>, Seq<char>>)>,
    pub cachefrom: Seq<(Seq<char>, Map<Seq<char>, Seq<char>>)>,
    pub pull: bool,
    pub target: Option<Seq<char>>,
    pub nocache: bool,
    pub buildargs: Map<Seq<char>, Seq<char>>,
    pub labels: Map<Seq<char>, Seq<char>>,
    /// The platforms by name.
    pub platforms: Seq<Seq<char>>,
    /// The network mode by name.
    pub network: Seq<char>,
    /// The extra hosts as `<host>=<ip>`.
    pub extrahosts: Seq<Seq<char>>,
    pub shmsize: u64,
    /// The secrets by id, each as whether it is a file and its path or
    /// variable.
    pub secrets: Map<Seq<char>, (bool, Seq<char>)>,
    pub ssh: bool,
    pub named_contexts: Map<Seq<char>, Seq<char>>,
}

/// The models of the secret sources of a map.
pub open spec fn source_views(m: Map<Seq<char>, SecretSource>) -> Map<Seq<char>, (bool, Seq<char>)> {
    m.map_values(|s: SecretSource| source_view(s))
}

/// Options of the Dockerfile frontend for a build.
pub struct ImageBuildFrontendOptions {
    pub(crate) cacheto: Vec<CacheOptionsEntry>,
    pub(crate) cachefrom: Vec<CacheOptionsEntry>,
    pub(crate) image_resolve_mode: bool,
    pub(crate) target: Option<String>,
    pub(crate) nocache: bool,
    pub(crate) buildargs: StrMap<String>,
    pub(crate) labels: StrMap<String>,
    pub(crate) platforms: Vec<ImageBuildPlatform>,
    pub(crate) force_network_mode: ImageBuildNetworkMode,
    pub(crate) extrahosts: Vec<ImageBuildHostIp>,
    pub(crate) shmsize: u64,
    pub(crate) secrets: StrMap<SecretSource>,
    pub(crate) ssh: bool,
    pub(crate) named_contexts: StrMap<String>,
}

/// Each key of `m` with `p` put before it.
pub open spec fn prefixed(p: Seq<char>, m: Map<Seq<char>, Seq<char>>) -> Map<Seq<char>, Seq<char>> {
    Map::new(
        |k: Seq<char>| k.len() >= p.len() && k.take(p.len() as int) == p && m.contains_key(k.skip(p.len() as int)),
        |k: Seq<char>| m[k.skip(p.len() as int)],
    )
}

/// Adding a key to a map adds its prefixed key.
pub proof fn lemma_prefixed_insert(p: Seq<char>, m: Map<Seq<char>, Seq<char>>, k: Seq<char>, v: Seq<char>)
    ensures
        prefixed(p, m.insert(k, v)) == prefixed(p, m).insert(p + k, v),
{
    let key = p + k;
    assert(key.take(p.len() as int) =~= p);
    assert(key.skip(p.len() as int) =~= k);
    assert forall|x: Seq<char>| x.len() >= p.len() && x.take(p.len() as int) == p && x.skip(p.len() as int) == k implies x == key by {
        assert(x =~= x.take(p.len() as int) + x.skip(p.len() as int));
    }
    assert(prefixed(p, m.insert(k, v)) =~= prefixed(p, m).insert(key, v));
}

/// The frontend attributes the options give: `image-resolve-mode` (`pull`
/// or `default`), `target`, `no-cache`, `build-arg:<k>` and `label:<k>` for
/// each build argument and label, `platform` and `add-hosts` as
/// comma-separated lists, `force-network-mode` for the host and no
/// network, `shm-size` when positive, and the named contexts as
/// `context:<k>` beside the `frontend.caps` that forward them.
pub open spec fn frontend_attrs(o: FrontendOptionsView) -> Map<Seq<char>, Seq<char>> {
    let m0 = map!["image-resolve-mode"@ => if o.pull { "pull"@ } else { "default"@ }];
    let m1 = match o.target {
        Some(t) => m0.insert("target"@, t),
        None => m0,
    };
    let m2 = if o.nocache { m1.insert("no-cache"@, Seq::empty()) } else { m1 };
    let m3 = m2.union_prefer_right(prefixed("build-arg:"@, o.buildargs));
    let m4 = m3.union_prefer_right(prefixed("label:"@, o.labels));
    let m5 = if o.platforms.len() > 0 { m4.insert("platform"@, comma_joined(o.platforms)) } else { m4 };
    let m6 = if o.network == "host"@ {
        m5.insert("force-network-mode"@, "host"@)
    } else if o.network == "none"@ {
        m5.insert("force-network-mode"@, "none"@)
    } else {
        m5
    };
    let m7 = if o.extrahosts.len() > 0 { m6.insert("add-hosts"@, comma_joined(o.extrahosts)) } else { m6 };
    let m8 = if o.shmsize > 0 { m7.insert("shm-size"@, decimal_text(o.shmsize as nat)) } else { m7 };
    if o.named_contexts.len() > 0 {
        m8.insert("frontend.caps"@, "moby.buildkit.frontend.contexts+forward"@)
            .union_prefer_right(prefixed("context:"@, o.named_contexts))
    } else {
        m8
    }
}

/// What a build takes from its frontend options.
pub struct ImageBuildFrontendOptionsIngest {
    /// The cache exports.
    pub cache_to: Vec<CacheOptionsEntry>,
    /// The cache imports.
    pub cache_from: Vec<CacheOptionsEntry>,
    /// The attributes for the Dockerfile frontend.
    pub frontend_attrs: StrMap<String>,
    /// The build secrets, by id.
    pub secret_sources: StrMap<SecretSource>,
    /// Whether the default ssh agent is forwarded.
    pub ssh: bool,
}

/// Adds each entry of `src` to `attrs` under its key with `prefix` before it.
pub(crate) fn insert_prefixed(attrs: &mut StrMap<String>, prefix: &str, src: &StrMap<String>)
    ensures
        text_values(final(attrs)@) == text_values(old(attrs)@).union_prefer_right(prefixed(prefix@, text_values(src@))),
{
    let ghost start = text_values(attrs@);
    let entries = src.entries();
    let mut i: usize = 0;
    assert(entries@.take(0) =~= Seq::<(String, String)>::empty());
    assert(prefixed(prefix@, text_values(entries_map(entries@.take(0)))) =~= Map::empty());
    assert(start.union_prefer_right(Map::empty()) =~= start);
    while i < entries.len()
        invariant
            i <= entries@.len(),
            src@ == entries_map(entries@),
            text_values(attrs@) == start.union_prefer_right(prefixed(prefix@, text_values(entries_map(entries@.take(i as int))))),
        decreases entries@.len() - i,
    {
        let ghost before = attrs@;
        let ghost part = text_values(entries_map(entries@.take(i as int)));
        let mut key = owned(prefix);
        push_all(&mut key, entries[i].0.as_str());
        let value = owned(entries[i].1.as_str());
        attrs.insert(key, value);
        proof {
            let k0 = entries@[i as int].0@;
            let v0 = entries@[i as int].1@;
            assert(entries@.take(i + 1).drop_last() =~= entries@.take(i as int));
            lemma_text_values_insert(entries_map(entries@.take(i as int)), k0, entries@[i as int].1);
            lemma_prefixed_insert(prefix@, part, k0, v0);
            lemma_text_values_insert(before, prefix@ + k0, value);
            assert(text_values(attrs@) =~= start.union_prefer_right(prefixed(prefix@, part.insert(k0, v0))));
        }
        i = i + 1;
    }
    assert(entries@.take(entries@.len() as int) =~= entries@);
}

fn joined_platforms(v: &Vec<ImageBuildPlatform>) -> (res: String)
    ensures
        res@ == comma_joined(Seq::new(v@.len(), |i: int| platform_text(v@[i]))),
{
    let ghost all = Seq::new(v@.len(), |i: int| platform_text(v@[i]));
    let mut out = String::new();
    let mut i: usize = 0;
    assert(all.take(0) =~= Seq::<Seq<char>>::empty());
    while i < v.len()
        invariant
            i <= v@.len(),
            all == Seq::new(v@.len(), |i: int| platform_text(v@[i])),
            out@ == comma_joined(all.take(i as int)),
        decreases v@.len() - i,
    {
        if i > 0 {
            push_all(&mut out, ",");
        }
        let t = v[i].to_string();
        push_all(&mut out, t.as_str());
        proof {
            assert(all.take(i + 1).drop_last() =~= all.take(i as int));
            if i == 0 {
                assert(out@ =~= all.take(1)[0]);
            }
        }
        i = i + 1;
    }
    assert(all.take(v@.len() as int) =~= all);
    out
}

fn joined_hosts(v: &Vec<ImageBuildHostIp>) -> (res: String)
    ensures
        res@ == comma_joined(Seq::new(v@.len(), |i: int| host_ip_text(v@[i]))),
{
    let ghost all = Seq::new(v@.len(), |i: int| host_ip_text(v@[i]));
    let mut out = String::new();
    let mut i: usize = 0;
    assert(all.take(0) =~= Seq::<Seq<char>>::empty());
    while i < v.len()
        invariant
            i <= v@.len(),
            all == Seq::new(v@.len(), |i: int| host_ip_text(v@[i])),
            out@ == comma_joined(all.take(i as int)),
        decreases v@.len() - i,
    {
        if i > 0 {
            push_all(&mut out, ",");
        }
        let t = v[i].to_string();
        push_all(&mut out, t.as_str());
        proof {
            assert(all.take(i + 1).drop_last() =~= all.take(i as int));
            if i == 0 {
                assert(out@ =~= all.take(1)[0]);
            }
        }
        i = i + 1;
    }
    assert(all.take(v@.len() as int) =~= all);
    out
}

impl ImageBuildFrontendOptions {
    /// The options.
    pub closed spec fn view(&self) -> FrontendOptionsView {
        FrontendOptionsView {
            cacheto: cache_views(self.cacheto@),
            cachefrom: cache_views(self.cachefrom@),
            pull: self.image_resolve_mode,
            target: match self.target {
                Some(t) => Some(t@),
                None => None,
            },
            nocache: self.nocache,
            buildargs: text_values(self.buildargs@),
            labels: text_values(self.labels@),
            platforms: Seq::new(self.platforms@.len(), |i: int| platform_text(self.platforms@[i])),
            network: network_text(self.force_network_mode),
            extrahosts: Seq::new(self.extrahosts@.len(), |i: int| host_ip_text(self.extrahosts@[i])),
            shmsize: self.shmsize,
            secrets: source_views(self.secrets@),
            ssh: self.ssh,
            named_contexts: text_values(self.named_contexts@),
        }
    }

    /// A builder for frontend options.
    pub fn builder() -> (res: ImageBuildFrontendOptionsBuilder)
        ensures
            res@ == default_frontend_options(),
    {
        ImageBuildFrontendOptionsBuilder::new()
    }

    /// What a build takes from the options: the caches, the frontend
    /// attributes (see `frontend_attrs`), the secrets and whether ssh is
    /// forwarded.
    pub fn consume(self) -> (res: ImageBuildFrontendOptionsIngest)
        ensures
            cache_views(res.cache_to@) == self@.cacheto,
            cache_views(res.cache_from@) == self@.cachefrom,
            text_values(res.frontend_attrs@) == frontend_attrs(self@),
            source_views(res.secret_sources@) == self@.secrets,
            res.ssh == self@.ssh,
    {
        let ghost o = self@;
        let ghost m0 = map!["image-resolve-mode"@ => if o.pull { "pull"@ } else { "default"@ }];
        let ghost m1 = match o.target {
            Some(t) => m0.insert("target"@, t),
            None => m0,
        };
        let ghost m2 = if o.nocache { m1.insert("no-cache"@, Seq::empty()) } else { m1 };
        let ghost m3 = m2.union_prefer_right(prefixed("build-arg:"@, o.buildargs));
        let ghost m4 = m3.union_prefer_right(prefixed("label:"@, o.labels));
        let ghost m5 = if o.platforms.len() > 0 { m4.insert("platform"@, comma_joined(o.platforms)) } else { m4 };
        let ghost m6 = if o.network == "host"@ {
            m5.insert("force-network-mode"@, "host"@)
        } else if o.network == "none"@ {
            m5.insert("force-network-mode"@, "none"@)
        } else {
            m5
        };
        let ghost m7 = if o.extrahosts.len() > 0 { m6.insert("add-hosts"@, comma_joined(o.extrahosts)) } else { m6 };
        let ghost m8 = if o.shmsize > 0 { m7.insert("shm-size"@, decimal_text(o.shmsize as nat)) } else { m7 };
        let mut attrs: StrMap<String> = StrMap::new();
        if self.image_resolve_mode {
            attrs.insert(owned("image-resolve-mode"), owned("pull"));
        } else {
            attrs.insert(owned("image-resolve-mode"), owned("default"));
        }
        assert(text_values(attrs@) =~= m0);
        match &self.target {
            Some(t) => {
                let ghost b = attrs@;
                let v = owned(t.as_str());
                attrs.insert(owned("target"), v);
                proof {
                    lemma_text_values_insert(b, "target"@, v);
                }
            },
            None => {},
        }
        assert(text_values(attrs@) == m1);
        if self.nocache {
            let ghost b = attrs@;
            let v = String::new();
            attrs.insert(owned("no-cache"), v);
            proof {
                lemma_text_values_insert(b, "no-cache"@, v);
            }
        }
        assert(text_values(attrs@) =~= m2);
        insert_prefixed(&mut attrs, "build-arg:", &self.buildargs);
        assert(text_values(attrs@) == m3);
        insert_prefixed(&mut attrs, "label:", &self.labels);
        assert(text_values(attrs@) == m4);
        if self.platforms.len() > 0 {
            let ghost b = attrs@;
            let v = joined_platforms(&self.platforms);
            attrs.insert(owned("platform"), v);
            proof {
                lemma_text_values_insert(b, "platform"@, v);
            }
        }
        assert(text_values(attrs@) == m5);
        proof {
            reveal_strlit("host");
            reveal_strlit("none");
            reveal_strlit("default");
            reveal_strlit("container:");
        }
        match &self.force_network_mode {
            ImageBuildNetworkMode::Host => {
                let ghost b = attrs@;
                let v = owned("host");
                attrs.insert(owned("force-network-mode"), v);
                proof {
                    lemma_text_values_insert(b, "force-network-mode"@, v);
                }
            },
            ImageBuildNetworkMode::NoNetwork => {
                let ghost b = attrs@;
                let v = owned("none");
                attrs.insert(owned("force-network-mode"), v);
                proof {
                    lemma_text_values_insert(b, "force-network-mode"@, v);
                }
            },
            ImageBuildNetworkMode::Bridge => {
                assert(o.network == "default"@);
                assert(o.network != "host"@ && o.network != "none"@) by {
                    assert("default"@.len() == 7 && "host"@.len() == 4 && "none"@.len() == 4);
                }
            },
            ImageBuildNetworkMode::Container(name) => {
                assert(o.network == "container:"@ + name@);
                assert(o.network[0] == 'c');
                assert(o.network != "host"@ && o.network != "none"@) by {
                    assert("host"@[0] == 'h' && "none"@[0] == 'n');
                }
            },
        }
        assert(text_values(attrs@) == m6);
        if self.extrahosts.len() > 0 {
            let ghost b = attrs@;
            let v = joined_hosts(&self.extrahosts);
            attrs.insert(owned("add-hosts"), v);
            proof {
                lemma_text_values_insert(b, "add-hosts"@, v);
            }
        }
        assert(text_values(attrs@) == m7);
        if self.shmsize > 0 {
            let ghost b = attrs@;
            let mut v = String::new();
            push_decimal(&mut v, self.shmsize);
            attrs.insert(owned("shm-size"), v);
            proof {
                lemma_text_values_insert(b, "shm-size"@, v);
            }
        }
        assert(text_values(attrs@) =~= m8);
        proof {
            assert(text_values(self.named_contexts@).dom() =~= self.named_contexts@.dom());
        }
        if !self.named_contexts.is_empty() {
            let ghost b = attrs@;
            let v = owned("moby.buildkit.frontend.contexts+forward");
            attrs.insert(owned("frontend.caps"), v);
            proof {
                lemma_text_values_insert(b, "frontend.caps"@, v);
            }
            insert_prefixed(&mut attrs, "context:", &self.named_contexts);
        }
        ImageBuildFrontendOptionsIngest {
            cache_to: self.cacheto,
            cache_from: self.cachefrom,
            frontend_attrs: attrs,
            secret_sources: self.secrets,
            ssh: self.ssh,
        }
    }
}

/// Options with nothing chosen: no caches, no pull, no target, the cache
/// used, no build arguments, labels, platforms, extra hosts, secrets or
/// named contexts, bridge networking, the default shm size and no ssh.
pub open spec fn default_frontend_options() -> FrontendOptionsView {
    FrontendOptionsView {
        cacheto: Seq::empty(),
        cachefrom: Seq::empty(),
        pull: false,
        target: None,
        nocache: false,
        buildargs: Map::empty(),
        labels: Map::empty(),
        platforms: Seq::empty(),
        network: "default"@,
        extrahosts: Seq::empty(),
        shmsize: 0,
        secrets: Map::empty(),
        ssh: false,
        named_contexts: Map::empty(),
    }
}


/// Builds frontend options.
pub struct ImageBuildFrontendOptionsBuilder {
    inner: ImageBuildFrontendOptions,
}

impl ImageBuildFrontendOptionsBuilder {
    /// The options built so far.
    pub closed spec fn view(&self) -> FrontendOptionsView {
        self.inner@
    }

    /// A builder with nothing chosen (see `default_frontend_options`).
    pub fn new() -> (res: Self)
        ensures
            res@ == default_frontend_options(),
    {
        let res = ImageBuildFrontendOptionsBuilder {
            inner: ImageBuildFrontendOptions {
                cacheto: Vec::new(),
                cachefrom: Vec::new(),
                image_resolve_mode: false,
                target: None,
                nocache: false,
                buildargs: StrMap::new(),
                labels: StrMap::new(),
                platforms: Vec::new(),
                force_network_mode: ImageBuildNetworkMode::Bridge,
                extrahosts: Vec::new(),
                shmsize: 0,
                secrets: StrMap::new(),
                ssh: false,
                named_contexts: StrMap::new(),
            },
        };
        assert(res@.cacheto =~= Seq::<(Seq<char>, Map<Seq<char>, Seq<char>>)>::empty());
        assert(res@.cachefrom =~= Seq::<(Seq<char>, Map<Seq<char>, Seq<char>>)>::empty());
        assert(res@.buildargs =~= Map::<Seq<char>, Seq<char>>::empty());
        assert(res@.labels =~= Map::<Seq<char>, Seq<char>>::empty());
        assert(res@.platforms =~= Seq::<Seq<char>>::empty());
        assert(res@.extrahosts =~= Seq::<Seq<char>>::empty());
        assert(res@.named_contexts =~= Map::<Seq<char>, Seq<char>>::empty());
        assert(res@.secrets =~= Map::<Seq<char>, (bool, Seq<char>)>::empty());
        res
    }

    /// Adds a cache export.
    pub fn cacheto(self, value: &CacheOptionsEntry) -> (res: Self)
        ensures
            res@ == (FrontendOptionsView { cacheto: self@.cacheto.push(cache_view(*value)), ..self@ }),
    {
        let mut b = self;
        let ghost before = cache_views(b.inner.cacheto@);
        b.inner.cacheto.push(value.copy());
        assert(cache_views(b.inner.cacheto@) =~= before.push(cache_view(*value)));
        b
    }

    /// Adds a cache import.
    pub fn cachefrom(self, value: &CacheOptionsEntry) -> (res: Self)
        ensures
            res@ == (FrontendOptionsView { cachefrom: self@.cachefrom.push(cache_view(*value)), ..self@ }),
    {
        let mut b = self;
        let ghost before = cache_views(b.inner.cachefrom@);
        b.inner.cachefrom.push(value.copy());
        assert(cache_views(b.inner.cachefrom@) =~= before.push(cache_view(*value)));
        b
    }

    /// Whether images are pulled even when an older one exists locally.
    pub fn pull(self, pull: bool) -> (res: Self)
        ensures
            res@ == (FrontendOptionsView { pull, ..self@ }),
    {
        let mut b = self;
        b.inner.image_resolve_mode = pull;
        b
    }

    /// The build stage to build.
    pub fn target(self, target: &str) -> (res: Self)
        ensures
            res@ == (FrontendOptionsView { target: Some(target@), ..self@ }),
    {
        let mut b = self;
        b.inner.target = Some(owned(target));
        b
    }

    /// Whether the build cache is left unused.
    pub fn nocache(self, nocache: bool) -> (res: Self)
        ensures
            res@ == (FrontendOptionsView { nocache, ..self@ }),
    {
        let mut b = self;
        b.inner.nocache = nocache;
        b
    }

    /// Sets a build argument.
    pub fn buildarg(self, key: &str, value: &str) -> (res: Self)
        ensures
            res@ == (FrontendOptionsView { buildargs: self@.buildargs.insert(key@, value@), ..self@ }),
    {
        let mut b = self;
        let ghost before = b.inner.buildargs@;
        let v = owned(value);
        b.inner.buildargs.insert(owned(key), v);
        proof {
            lemma_text_values_insert(before, key@, v);
        }
        b
    }

    /// Sets a label of the image.
    pub fn label(self, key: &str, value: &str) -> (res: Self)
        ensures
            res@ == (FrontendOptionsView { labels: self@.labels.insert(key@, value@), ..self@ }),
    {
        let mut b = self;
        let ghost before = b.inner.labels@;
        let v = owned(value);
        b.inner.labels.insert(owned(key), v);
        proof {
            lemma_text_values_insert(before, key@, v);
        }
        b
    }

    /// Adds a target platform.
    pub fn platforms(self, value: &ImageBuildPlatform) -> (res: Self)
        ensures
            res@ == (FrontendOptionsView { platforms: self@.platforms.push(platform_text(*value)), ..self@ }),
    {
        let mut b = self;
        let ghost before = b.inner@.platforms;
        b.inner.platforms.push(value.copy());
        assert(b.inner@.platforms =~= before.push(platform_text(*value)));
        b
    }

    /// The network mode of the build's `RUN` steps.
    pub fn force_network_mode(self, value: &ImageBuildNetworkMode) -> (res: Self)
        ensures
            res@ == (FrontendOptionsView { network: network_text(*value), ..self@ }),
    {
        let mut b = self;
        b.inner.force_network_mode = value.copy();
        b
    }

    /// Adds an extra host.
    pub fn extrahost(self, value: &ImageBuildHostIp) -> (res: Self)
        ensures
            res@ == (FrontendOptionsView { extrahosts: self@.extrahosts.push(host_ip_text(*value)), ..self@ }),
    {
        let mut b = self;
        let ghost before = b.inner@.extrahosts;
        b.inner.extrahosts.push(value.copy());
        assert(b.inner@.extrahosts =~= before.push(host_ip_text(*value)));
        b
    }

    /// The size of `/dev/shm` in bytes.
    pub fn shmsize(self, value: u64) -> (res: Self)
        ensures
            res@ == (FrontendOptionsView { shmsize: value, ..self@ }),
    {
        let mut b = self;
        b.inner.shmsize = value;
        b
    }

    /// Sets where the secret `key` is read from.
    pub fn set_secret(self, key: &str, value: &SecretSource) -> (res: Self)
        ensures
            res@ == (FrontendOptionsView { secrets: self@.secrets.insert(key@, source_view(*value)), ..self@ }),
    {
        let mut b = self;
        let ghost before = b.inner.secrets@;
        let copy = match value {
            SecretSource::File(p) => SecretSource::File(owned(p.as_str())),
            SecretSource::Env(v) => SecretSource::Env(owned(v.as_str())),
        };
        b.inner.secrets.insert(owned(key), copy);
        assert(source_views(b.inner.secrets@) =~= source_views(before).insert(key@, source_view(*value)));
        b
    }

    /// Whether the default ssh agent is forwarded.
    pub fn enable_ssh(self, value: bool) -> (res: Self)
        ensures
            res@ == (FrontendOptionsView { ssh: value, ..self@ }),
    {
        let mut b = self;
        b.inner.ssh = value;
        b
    }

    /// Adds a named build context.
    pub fn named_context(self, key: &str, value: &str) -> (res: Self)
        ensures
            res@ == (FrontendOptionsView { named_contexts: self@.named_contexts.insert(key@, value@), ..self@ }),
    {
        let mut b = self;
        let ghost before = b.inner.named_contexts@;
        let v = owned(value);
        b.inner.named_contexts.insert(owned(key), v);
        proof {
            lemma_text_values_insert(before, key@, v);
        }
        b
    }

    /// The options built.
    pub fn build(self) -> (res: ImageBuildFrontendOptions)
        ensures
            res@ == self@,
    {
        self.inner
    }
}

} // verus!
