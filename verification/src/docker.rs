//! The API version the client speaks, and how a Docker host address picks
//! the transport.

use vstd::prelude::*;
use core::cmp::Ordering;
use vstd::std_specs::cmp::PartialOrdSpecImpl;
use crate::text::{decimal_text, owned, parse_unsigned, parse_unsigned_spec, push_all, push_decimal, split_char, split_spec, to_chars};

verus! {

broadcast use vstd::string::group_string_axioms;

/// The Docker engine API version used to talk to the server. The server
/// refuses a version higher than it supports.
#[derive(Debug, Copy, Clone, PartialEq, Eq, Structural)]
pub struct ClientVersion {
    /// The major version number.
    pub major_version: usize,
    /// The minor version number.
    pub minor_version: usize,
}

/// The Docker daemon's Unix socket.
pub const DEFAULT_SOCKET: &'static str = "unix:///var/run/docker.sock";
/// The Docker daemon's named pipe on Windows.
pub const DEFAULT_NAMED_PIPE: &'static str = "npipe:////./pipe/docker_engine";
/// The daemon address used when nothing else names one.
pub const DEFAULT_DOCKER_HOST: &'static str = DEFAULT_SOCKET;

/// The version used unless another is asked for: 1.48.
pub const API_DEFAULT_MAJOR_VERSION: usize = 1;
/// The minor part of the default version.
pub const API_DEFAULT_MINOR_VERSION: usize = 48;

/// The default API version, 1.48.
pub fn api_default_version() -> (res: ClientVersion)
    ensures
        res.major_version == 1 && res.minor_version == 48,
{
    ClientVersion { major_version: API_DEFAULT_MAJOR_VERSION, minor_version: API_DEFAULT_MINOR_VERSION }
}

/// Versions compare by major number, then by minor number.
pub open spec fn version_order(a: ClientVersion, b: ClientVersion) -> Option<Ordering> {
    if a.major_version < b.major_version {
        Some(Ordering::Less)
    } else if a.major_version > b.major_version {
        Some(Ordering::Greater)
    } else if a.minor_version < b.minor_version {
        Some(Ordering::Less)
    } else if a.minor_version > b.minor_version {
        Some(Ordering::Greater)
    } else {
        Some(Ordering::Equal)
    }
}

/// Whether `a` comes before `b`.
pub open spec fn version_less(a: ClientVersion, b: ClientVersion) -> bool {
    a.major_version < b.major_version || (a.major_version == b.major_version && a.minor_version < b.minor_version)
}

impl PartialOrd for ClientVersion {
    fn partial_cmp(&self, other: &Self) -> (res: Option<Ordering>) {
        if self.major_version < other.major_version {
            Some(Ordering::Less)
        } else if self.major_version > other.major_version {
            Some(Ordering::Greater)
        } else if self.minor_version < other.minor_version {
            Some(Ordering::Less)
        } else if self.minor_version > other.minor_version {
            Some(Ordering::Greater)
        } else {
            Some(Ordering::Equal)
        }
    }
}

impl PartialOrdSpecImpl for ClientVersion {
    open spec fn obeys_partial_cmp_spec() -> bool {
        true
    }

    open spec fn partial_cmp_spec(&self, other: &Self) -> Option<Ordering> {
        version_order(*self, *other)
    }
}

/// The version an API version text such as `1.41` denotes: exactly two
/// pieces separated by `.`, each an unsigned number that fits a `usize`.
pub open spec fn parsed_version(text: Seq<char>) -> Option<ClientVersion> {
    let pieces = split_spec(text, '.');
    if pieces.len() != 2 {
        None
    } else {
        match (parse_unsigned_spec(pieces[0], usize::MAX as nat), parse_unsigned_spec(pieces[1], usize::MAX as nat)) {
            (Some(a), Some(b)) => Some(ClientVersion { major_version: a as usize, minor_version: b as usize }),
            _ => None,
        }
    }
}

/// The text `major.minor` of a version.
pub open spec fn version_text(v: ClientVersion) -> Seq<char> {
    decimal_text(v.major_version as nat) + "."@ + decimal_text(v.minor_version as nat)
}

impl ClientVersion {
    /// Reads an API version such as `1.41` (see `parsed_version`).
    pub fn parse(text: &str) -> (res: Option<ClientVersion>)
        ensures
            res == parsed_version(text@),
    {
        let chars = to_chars(text);
        let pieces = split_char(chars.as_slice(), '.');
        if pieces.len() != 2 {
            return None;
        }
        let max = usize::MAX as u64;
        let major = parse_unsigned(pieces[0].as_slice(), max);
        let minor = parse_unsigned(pieces[1].as_slice(), max);
        match (major, minor) {
            (Some(a), Some(b)) => Some(ClientVersion { major_version: a as usize, minor_version: b as usize }),
            _ => None,
        }
    }

    /// The version as `major.minor`.
    pub fn version_string(&self) -> (res: String)
        ensures
            res@ == version_text(*self),
    {
        let mut out = String::new();
        push_decimal(&mut out, self.major_version as u64);
        push_all(&mut out, ".");
        push_decimal(&mut out, self.minor_version as u64);
        out
    }

    /// Whether this version comes before `other`.
    pub fn is_older_than(&self, other: &ClientVersion) -> (res: bool)
        ensures
            res == version_less(*self, *other),
    {
        self.major_version < other.major_version
            || (self.major_version == other.major_version && self.minor_version < other.minor_version)
    }
}

/// The server's reported API version could not be read.
#[derive(Debug, Copy, Clone, PartialEq, Eq, Structural)]
pub struct ApiVersionParseError;

/// The version after negotiating with a server that reports `server`: the
/// server's when it is older than the client's, else the client's.
pub open spec fn negotiated(client: ClientVersion, server: ClientVersion) -> ClientVersion {
    if version_less(server, client) { server } else { client }
}

/// Negotiates the API version with the version text the server reported:
/// a missing or unreadable version is an error; otherwise the client moves
/// down to the server's version when that is older.
pub fn negotiate_version(client: ClientVersion, api_version: Option<&str>) -> (res: Result<ClientVersion, ApiVersionParseError>)
    ensures
        match api_version {
            None => res is Err,
            Some(t) => match parsed_version(t@) {
                None => res is Err,
                Some(server) => res == Ok::<ClientVersion, ApiVersionParseError>(negotiated(client, server)),
            },
        },
{
    let text = match api_version {
        Some(t) => t,
        None => {
            return Err(ApiVersionParseError);
        },
    };
    match ClientVersion::parse(text) {
        None => Err(ApiVersionParseError),
        Some(server) => if server.is_older_than(&client) { Ok(server) } else { Ok(client) },
    }
}

/// Negotiation never raises the client's version: the result is the older of
/// the two versions.
pub proof fn law_negotiation_never_upgrades(client: ClientVersion, server: ClientVersion)
    ensures
        !version_less(client, negotiated(client, server)),
        !version_less(server, negotiated(client, server)),
        negotiated(client, server) == client || negotiated(client, server) == server,
{
}

/// Writing a version and reading it back gives the same version.
pub proof fn law_version_text_round_trip(v: ClientVersion)
    ensures
        parsed_version(version_text(v)) == Some(v),
{
    let a = decimal_text(v.major_version as nat);
    let b = decimal_text(v.minor_version as nat);
    crate::text::lemma_decimal_text_parses(v.major_version as nat);
    crate::text::lemma_decimal_text_parses(v.minor_version as nat);
    crate::text::lemma_split_pair(a, b, '.');
    reveal_strlit(".");
    assert(version_text(v) =~= a + seq!['.'] + b);
}

/// Whether `s` starts with `p`.
pub open spec fn starts_with(s: Seq<char>, p: Seq<char>) -> bool {
    p.len() <= s.len() && s.take(p.len() as int) == p
}

fn has_prefix(s: &Vec<char>, p: &str) -> (res: bool)
    ensures
        res == starts_with(s@, p@),
{
    let pc = to_chars(p);
    if pc.len() > s.len() {
        return false;
    }
    let mut i: usize = 0;
    while i < pc.len()
        invariant
            i <= pc@.len() <= s@.len(),
            pc@ == p@,
            forall|j: int| 0 <= j < i ==> s@[j] == pc@[j],
        decreases pc@.len() - i,
    {
        if s[i] != pc[i] {
            assert(s@.take(pc@.len() as int)[i as int] != p@[i as int]);
            return false;
        }
        i = i + 1;
    }
    assert(s@.take(pc@.len() as int) =~= p@);
    true
}

/// How the client reaches a Docker host.
#[derive(Debug, Copy, Clone, PartialEq, Eq, Structural)]
pub enum HostKind {
    /// A Unix socket (`unix://`).
    Unix,
    /// Plain HTTP (`tcp://` or `http://`).
    Http,
    /// HTTPS (`https://`, or `tcp://`/`http://` when TLS verification is on).
    Ssl,
    /// SSH (`ssh://`).
    Ssh,
}

/// The transport for a host address, by its scheme; `None` for a scheme
/// the client does not support.
pub open spec fn host_kind_of(host: Seq<char>, tls_verify: bool) -> Option<HostKind> {
    if starts_with(host, "unix://"@) {
        Some(HostKind::Unix)
    } else if starts_with(host, "tcp://"@) || starts_with(host, "http://"@) {
        Some(if tls_verify { HostKind::Ssl } else { HostKind::Http })
    } else if starts_with(host, "https://"@) {
        Some(HostKind::Ssl)
    } else if starts_with(host, "ssh://"@) {
        Some(HostKind::Ssh)
    } else {
        None
    }
}

/// The host address's scheme is not supported.
#[derive(Debug, Clone)]
pub struct UnsupportedUriScheme {
    /// The address.
    pub uri: String,
}

/// Picks the transport for a host address (see `host_kind_of`); with
/// `tls_verify` (the `DOCKER_TLS_VERIFY` setting) a TCP or HTTP address is
/// reached over HTTPS.
pub fn host_kind(host: &str, tls_verify: bool) -> (res: Result<HostKind, UnsupportedUriScheme>)
    ensures
        match res {
            Ok(k) => host_kind_of(host@, tls_verify) == Some(k),
            Err(e) => host_kind_of(host@, tls_verify) is None && e.uri@ == host@,
        },
{
    let chars = to_chars(host);
    if has_prefix(&chars, "unix://") {
        Ok(HostKind::Unix)
    } else if has_prefix(&chars, "tcp://") || has_prefix(&chars, "http://") {
        if tls_verify { Ok(HostKind::Ssl) } else { Ok(HostKind::Http) }
    } else if has_prefix(&chars, "https://") {
        Ok(HostKind::Ssl)
    } else if has_prefix(&chars, "ssh://") {
        Ok(HostKind::Ssh)
    } else {
        Err(UnsupportedUriScheme { uri: owned(host) })
    }
}

/// The index of the first occurrence of `p` in `s` at or after `i`, if any.
pub open spec fn find_from(s: Seq<char>, p: Seq<char>, i: int) -> Option<int>
    decreases s.len() + 1 - i,
{
    if i < 0 || i + p.len() > s.len() {
        None
    } else if s.subrange(i, i + p.len()) == p {
        Some(i)
    } else {
        find_from(s, p, i + 1)
    }
}

/// `s` with the first occurrence of `p` removed, as `replacen(p, "", 1)`.
pub open spec fn remove_first(s: Seq<char>, p: Seq<char>) -> Seq<char> {
    match find_from(s, p, 0) {
        Some(i) => s.take(i) + s.skip(i + p.len()),
        None => s,
    }
}

/// Removes the first occurrence of `p` from `s`.
pub fn remove_first_text(s: &str, p: &str) -> (res: String)
    requires
        p@.len() > 0,
    ensures
        res@ == remove_first(s@, p@),
{
    let sc = to_chars(s);
    let pc = to_chars(p);
    let n = sc.len();
    let m = pc.len();
    let mut i: usize = 0;
    while m <= n && i <= n - m
        invariant
            sc@ == s@,
            pc@ == p@,
            n == sc@.len(),
            m == pc@.len(),
            m > 0,
            i <= n,
            find_from(sc@, pc@, i as int) == find_from(sc@, pc@, 0),
        decreases n - i,
    {
        let mut j: usize = 0;
        while j < m && sc[i + j] == pc[j]
            invariant
                i + m <= n,
                n == sc@.len(),
                m == pc@.len(),
                j <= m,
                forall|k: int| 0 <= k < j ==> sc@[i + k] == pc@[k],
            decreases m - j,
        {
            j = j + 1;
        }
        if j == m {
            assert(sc@.subrange(i as int, i + m) =~= pc@);
            let mut out = String::new();
            let mut k: usize = 0;
            while k < i
                invariant
                    k <= i <= n,
                    n == sc@.len(),
                    out@ == sc@.take(k as int),
                decreases i - k,
            {
                crate::text::push_char(&mut out, sc[k]);
                assert(out@ =~= sc@.take(k + 1));
                k = k + 1;
            }
            let mut k2: usize = i + m;
            while k2 < n
                invariant
                    i + m <= k2 <= n,
                    n == sc@.len(),
                    out@ == sc@.take(i as int) + sc@.subrange(i + m, k2 as int),
                decreases n - k2,
            {
                crate::text::push_char(&mut out, sc[k2]);
                assert(out@ =~= sc@.take(i as int) + sc@.subrange(i + m, k2 + 1));
                k2 = k2 + 1;
            }
            assert(sc@.subrange(i + m, n as int) =~= sc@.skip(i + m));
            return out;
        }
        assert(sc@.subrange(i as int, i + m) != pc@) by {
            assert(sc@.subrange(i as int, i + m)[j as int] != pc@[j as int]);
        }
        i = i + 1;
    }
    owned(s)
}

/// The address a plain HTTP client connects to: the host without its first
/// `tcp://` and then its first `http://`.
pub open spec fn http_client_address(host: Seq<char>) -> Seq<char> {
    remove_first(remove_first(host, "tcp://"@), "http://"@)
}

/// The address a plain HTTP client connects to (see `http_client_address`).
pub fn http_client_addr(host: &str) -> (res: String)
    ensures
        res@ == http_client_address(host@),
{
    proof {
        reveal_strlit("tcp://");
        reveal_strlit("http://");
    }
    let first = remove_first_text(host, "tcp://");
    remove_first_text(first.as_str(), "http://")
}

/// Whether a daemon answer with this status is handed on as a response: a
/// success (200 to 299), 304 Not Modified or 101 Switching Protocols. Any
/// other status makes the request fail.
pub fn status_accepted(status: u16) -> (res: bool)
    ensures
        res == ((200 <= status && status <= 299) || status == 304 || status == 101),
{
    (200 <= status && status <= 299) || status == 304 || status == 101
}

/// What reading the body of an error answer as `{"message": ...}` gave.
#[derive(Debug, Clone, PartialEq, Eq)]
pub enum ErrorBodyParse {
    /// The body is such an object, with this message.
    Message(String),
    /// The body is not JSON, or JSON of another shape.
    NotJson,
    /// The body is JSON that ends early.
    Truncated,
}

/// An error status of the daemon, with its message.
#[derive(Debug, Clone, PartialEq, Eq)]
pub struct DockerResponseServerError {
    /// The HTTP status code.
    pub status_code: u16,
    /// The daemon's message.
    pub message: String,
}

/// The body of an error answer is JSON that ends early.
#[derive(Debug, Clone, PartialEq, Eq)]
pub struct TruncatedErrorBody;

/// The error of an answer whose status is not accepted: its message is
/// empty for an empty body, the `message` of a JSON body that has one, and
/// the body itself when it is not such JSON. A body whose JSON ends early
/// is an error of its own.
pub fn server_error(status_code: u16, contents: String, parsed: ErrorBodyParse) -> (res: Result<DockerResponseServerError, TruncatedErrorBody>)
    ensures
        contents@.len() == 0 ==> (res matches Ok(e) && e.status_code == status_code && e.message@.len() == 0),
        contents@.len() > 0 ==> match parsed {
            ErrorBodyParse::Message(m) => res matches Ok(e) && e.status_code == status_code && e.message@ == m@,
            ErrorBodyParse::NotJson => res matches Ok(e) && e.status_code == status_code && e.message@ == contents@,
            ErrorBodyParse::Truncated => res is Err,
        },
{
    if contents.as_str().unicode_len() == 0 {
        return Ok(DockerResponseServerError { status_code, message: String::new() });
    }
    match parsed {
        ErrorBodyParse::Message(m) => Ok(DockerResponseServerError { status_code, message: m }),
        ErrorBodyParse::NotJson => Ok(DockerResponseServerError { status_code, message: contents }),
        ErrorBodyParse::Truncated => Err(TruncatedErrorBody),
    }
}

proof fn lemma_scheme_prefix(scheme: Seq<char>, r: Seq<char>, other: Seq<char>)
    requires
        other.len() <= scheme.len() + r.len(),
    ensures
        starts_with(scheme + r, scheme),
        (exists|i: int| 0 <= i < scheme.len() && i < other.len() && scheme[i] != other[i])
            ==> !starts_with(scheme + r, other),
{
    assert((scheme + r).take(scheme.len() as int) =~= scheme);
    if exists|i: int| 0 <= i < scheme.len() && i < other.len() && scheme[i] != other[i] {
        let i = choose|i: int| 0 <= i < scheme.len() && i < other.len() && scheme[i] != other[i];
        if starts_with(scheme + r, other) {
            assert((scheme + r).take(other.len() as int)[i] == other[i]);
        }
    }
}

/// The transport follows the scheme of the address, whatever follows it:
/// `unix://` is a socket, `https://` HTTPS and `ssh://` SSH; `tcp://` and
/// `http://` are treated alike, reached over HTTPS when TLS verification
/// is on and over plain HTTP otherwise.
pub proof fn law_scheme_picks_transport(r: Seq<char>, tls_verify: bool)
    ensures
        host_kind_of("unix://"@ + r, tls_verify) == Some(HostKind::Unix),
        host_kind_of("tcp://"@ + r, tls_verify) == Some(if tls_verify { HostKind::Ssl } else { HostKind::Http }),
        host_kind_of("http://"@ + r, tls_verify) == host_kind_of("tcp://"@ + r, tls_verify),
        host_kind_of("https://"@ + r, tls_verify) == Some(HostKind::Ssl),
        host_kind_of("ssh://"@ + r, tls_verify) == Some(HostKind::Ssh),
{
    reveal_strlit("unix://");
    reveal_strlit("tcp://");
    reveal_strlit("http://");
    reveal_strlit("https://");
    reveal_strlit("ssh://");
    let unix = "unix://"@;
    let tcp = "tcp://"@;
    let http = "http://"@;
    let https = "https://"@;
    let ssh = "ssh://"@;
    lemma_scheme_prefix(unix, r, unix);
    lemma_scheme_prefix(tcp, r, tcp);
    assert(tcp[0] != unix[0]);
    if unix.len() <= tcp.len() + r.len() {
        lemma_scheme_prefix(tcp, r, unix);
    }
    lemma_scheme_prefix(http, r, http);
    assert(http[0] != unix[0]);
    if unix.len() <= http.len() + r.len() {
        lemma_scheme_prefix(http, r, unix);
    }
    assert(http[0] != tcp[0]);
    lemma_scheme_prefix(http, r, tcp);
    lemma_scheme_prefix(https, r, https);
    assert(https[0] != unix[0] && https[0] != tcp[0]);
    lemma_scheme_prefix(https, r, unix);
    lemma_scheme_prefix(https, r, tcp);
    assert(https[4] != http[4]);
    lemma_scheme_prefix(https, r, http);
    lemma_scheme_prefix(ssh, r, ssh);
    assert(ssh[0] != unix[0] && ssh[0] != tcp[0] && ssh[0] != http[0] && ssh[0] != https[0]);
    if unix.len() <= ssh.len() + r.len() {
        lemma_scheme_prefix(ssh, r, unix);
    }
    lemma_scheme_prefix(ssh, r, tcp);
    if http.len() <= ssh.len() + r.len() {
        lemma_scheme_prefix(ssh, r, http);
    }
    if https.len() <= ssh.len() + r.len() {
        lemma_scheme_prefix(ssh, r, https);
    }
}

} // verus!
