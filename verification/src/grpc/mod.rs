//! BuildKit session logic: the providers a build session offers (health,
//! uploads, credentials, secrets, ssh agents, file transfers), stream
//! framing, file transfer bookkeeping, exporter configuration and pattern
//! matching.

pub mod driver;
pub mod export;
pub mod filesync;
pub mod followpaths;
pub mod image_build;
pub mod io;
pub mod patternmatcher;
pub mod registry;
pub mod scan;
pub mod ssh;
pub mod transfer;

use vstd::prelude::*;
use vstd::arithmetic::power::pow;
use crate::auth::{creds_view, opt_view, DockerCredentials};
use crate::grpc::ssh::GrpcSshError;
use crate::grpc::transfer::FileTransferLimits;
use crate::strmap::StrMap;
use crate::text::{debug_str, decimal_text, owned, push_all, push_decimal, str_debug, str_equal, to_chars};

verus! {

broadcast use vstd::string::group_string_axioms;

/// The serving status a health check reports.
#[derive(Debug, Copy, Clone, PartialEq, Eq, Structural)]
pub enum ServingStatus {
    Unknown,
    Serving,
    NotServing,
    ServiceUnknown,
}

/// A health check asked about a service that is not known.
#[derive(Debug, Copy, Clone, PartialEq, Eq, Structural)]
pub struct UnknownService;

/// The health service of a session: the overall service (named by the
/// empty string) serves until shutdown.
pub struct HealthServerImpl {
    service_map: StrMap<ServingStatus>,
    shutdown: bool,
}

impl HealthServerImpl {
    /// The status of each known service.
    pub closed spec fn view(&self) -> Map<Seq<char>, ServingStatus> {
        self.service_map@
    }

    /// Whether the service has been shut down.
    pub closed spec fn is_shut_down(&self) -> bool {
        self.shutdown
    }

    /// A health service where the overall service is serving, not shut down.
    pub fn new() -> (res: Self)
        ensures
            res@ == map![Seq::<char>::empty() => ServingStatus::Serving],
            !res.is_shut_down(),
    {
        let mut service_map: StrMap<ServingStatus> = StrMap::new();
        service_map.insert(String::new(), ServingStatus::Serving);
        let res = HealthServerImpl { service_map, shutdown: false };
        assert(res@ =~= map![Seq::<char>::empty() => ServingStatus::Serving]);
        res
    }

    /// Marks every service as not serving, then drops the health service.
    pub fn shutdown(self) {
        let mut s = self;
        s.shutdown = true;
        let mut marked: StrMap<ServingStatus> = StrMap::new();
        let entries = s.service_map.entries();
        let mut i: usize = 0;
        while i < entries.len()
            invariant
                i <= entries@.len(),
            decreases entries@.len() - i,
        {
            marked.insert(owned(entries[i].0.as_str()), ServingStatus::NotServing);
            i = i + 1;
        }
        s.service_map = marked;
    }

    /// The status of `service`, as the health check reports it.
    pub fn check(&self, service: &str) -> (res: Result<ServingStatus, UnknownService>)
        ensures
            match res {
                Ok(s) => self@.contains_key(service@) && self@[service@] == s,
                Err(_) => !self@.contains_key(service@),
            },
    {
        match self.service_map.get(service) {
            Some(s) => Ok(*s),
            None => Err(UnknownService),
        }
    }
}

/// The receiving end of a single-file export: where the file is written.
pub struct FileSendImpl {
    pub(crate) dest: String,
}

impl FileSendImpl {
    /// The destination path.
    pub closed spec fn dest_view(&self) -> Seq<char> {
        self.dest@
    }

    /// A receiver that writes to `dest`.
    pub fn new(dest: &str) -> (res: Self)
        ensures
            res.dest_view() == dest@,
    {
        FileSendImpl { dest: owned(dest) }
    }

    /// The destination path.
    pub fn dest(&self) -> (res: &str)
        ensures
            res@ == self.dest_view(),
    {
        self.dest.as_str()
    }
}

/// The receiving end of a packet-based local export: the destination and the
/// limits of the transfer.
pub struct FileSendPacketImpl {
    pub(crate) dest: String,
    pub(crate) limits: FileTransferLimits,
}

impl FileSendPacketImpl {
    /// The destination path.
    pub closed spec fn dest_view(&self) -> Seq<char> {
        self.dest@
    }

    /// The limits of the transfer.
    pub closed spec fn limits_view(&self) -> FileTransferLimits {
        self.limits
    }

    /// A receiver that writes to `dest` without aggregate limits.
    pub fn new(dest: &str) -> (res: Self)
        ensures
            res.dest_view() == dest@,
            res.limits_view().max_files is None && res.limits_view().max_bytes is None,
    {
        FileSendPacketImpl::with_limits(dest, FileTransferLimits::default())
    }

    /// A receiver that writes to `dest` within `limits`.
    pub fn with_limits(dest: &str, limits: FileTransferLimits) -> (res: Self)
        ensures
            res.dest_view() == dest@,
            res.limits_view() == limits,
    {
        FileSendPacketImpl { dest: owned(dest), limits }
    }

    /// The destination path.
    pub fn dest(&self) -> (res: &str)
        ensures
            res@ == self.dest_view(),
    {
        self.dest.as_str()
    }

    /// The limits of the transfer.
    pub fn limits(&self) -> (res: FileTransferLimits)
        ensures
            res == self.limits_view(),
    {
        self.limits
    }
}

/// The big-endian value of `bytes`.
pub open spec fn be_value(bytes: Seq<u8>) -> nat
    decreases bytes.len(),
{
    if bytes.len() == 0 {
        0
    } else {
        be_value(bytes.drop_last()) * 256 + bytes.last() as nat
    }
}

/// The base-36 digit for a value below 36: `0`-`9`, then `a`-`z`.
pub open spec fn base36_digit(d: nat) -> char {
    if d < 10 {
        ((d + '0' as nat) as u32) as char
    } else {
        ((d - 10 + 'a' as nat) as u32) as char
    }
}

/// Whether `c` is a base-36 digit: `0`-`9` or `a`-`z`.
pub open spec fn is_base36_char(c: char) -> bool {
    ('0' as nat <= c as nat && c as nat <= '9' as nat) || ('a' as nat <= c as nat && c as nat <= 'z' as nat)
}

/// Whether `s` is an identifier of the shape `new_id` makes: 25 base-36
/// digits.
pub open spec fn is_base36_id(s: Seq<char>) -> bool {
    s.len() == 25 && forall|i: int| 0 <= i < s.len() ==> #[trigger] is_base36_char(s[i])
}

proof fn lemma_base36_digit(d: nat)
    requires
        d < 36,
    ensures
        is_base36_char(base36_digit(d)),
{
}

/// Every character of a number written in base 36 is a base-36 digit.
pub proof fn lemma_base36_text_chars(n: nat)
    ensures
        forall|i: int| 0 <= i < base36_text(n).len() ==> #[trigger] is_base36_char(base36_text(n)[i]),
    decreases n,
{
    if n < 36 {
        lemma_base36_digit(n);
        assert(base36_text(n) == seq![base36_digit(n)]);
    } else {
        lemma_base36_text_chars(n / 36);
        lemma_base36_digit(n % 36);
        let t = base36_text(n);
        let p = base36_text(n / 36);
        assert(t == p.push(base36_digit(n % 36)));
        assert forall|i: int| 0 <= i < t.len() implies #[trigger] is_base36_char(t[i]) by {
            if i < p.len() {
                assert(t[i] == p[i]);
            }
        }
    }
}

/// A number written in base 36 without leading zeros (`0` for zero).
pub open spec fn base36_text(n: nat) -> Seq<char>
    decreases n,
{
    if n < 36 {
        seq![base36_digit(n)]
    } else {
        base36_text(n / 36).push(base36_digit(n % 36))
    }
}

/// Writes the positive big-endian number `bytes` in base 36 with
/// `num::BigInt::from_bytes_be(Sign::Plus, ..)` and `to_str_radix(36)`,
/// which the documentation describes as the number formatted in that radix;
/// the claim is that it uses lowercase letters and no leading zeros.
#[verifier::external_body]
fn bigint_base36(bytes: &[u8]) -> (res: String)
    ensures
        res@ == base36_text(be_value(bytes@)),
{
    num::BigInt::from_bytes_be(num::bigint::Sign::Plus, bytes).to_str_radix(36)
}

/// Fills `count` bytes with `rand::fill`, from the thread's random number
/// generator; only the length of the result is stated.
#[verifier::external_body]
fn random_bytes(count: usize) -> (res: Vec<u8>)
    ensures
        res@.len() == count,
{
    let mut bytes = vec![0u8; count];
    rand::fill(&mut bytes[..]);
    bytes
}

/// The identifier made from 17 random bytes: the first byte gets its high
/// bit, the number is written in base 36, and its characters 1 to 25 are
/// kept.
pub open spec fn id_from_bytes(bytes: Seq<u8>) -> Seq<char> {
    let marked = bytes.update(0, bytes[0] | 0x80u8);
    base36_text(be_value(marked)).subrange(1, 26)
}

pub proof fn lemma_be_value_lower_bound(bytes: Seq<u8>)
    requires
        bytes.len() >= 1,
    ensures
        be_value(bytes) >= bytes[0] as nat * pow(256, (bytes.len() - 1) as nat),
    decreases bytes.len(),
{
    if bytes.len() == 1 {
        assert(bytes.drop_last().len() == 0);
        vstd::arithmetic::power::lemma_pow0(256);
    } else {
        let p = bytes.drop_last();
        lemma_be_value_lower_bound(p);
        assert(p[0] == bytes[0]);
        let e = (bytes.len() - 2) as nat;
        assert(pow(256, (e + 1) as nat) == 256 * pow(256, e)) by {
            reveal(pow);
        }
        vstd::arithmetic::power::lemma_pow_positive(256, e);
        assert(be_value(bytes) >= be_value(p) * 256);
        assert(be_value(p) * 256 >= (bytes[0] as nat * pow(256, e)) * 256) by (nonlinear_arith)
            requires be_value(p) >= bytes[0] as nat * pow(256, e);
        assert((bytes[0] as nat * pow(256, e)) * 256 == bytes[0] as nat * pow(256, (e + 1) as nat)) by (nonlinear_arith)
            requires pow(256, (e + 1) as nat) == 256 * pow(256, e);
    }
}

pub proof fn lemma_base36_length(n: nat, k: nat)
    requires
        n >= pow(36, k),
    ensures
        base36_text(n).len() >= k + 1,
    decreases k,
{
    if k > 0 {
        let k1 = (k - 1) as nat;
        assert(pow(36, k) == 36 * pow(36, k1)) by {
            reveal(pow);
        }
        vstd::arithmetic::power::lemma_pow_positive(36, k1);
        assert(n >= 36);
        assert(n / 36 >= pow(36, k1)) by (nonlinear_arith)
            requires n >= 36 * pow(36, k1), pow(36, k1) > 0;
        lemma_base36_length(n / 36, k1);
    }
}

/// Every identifier has 25 characters.
pub proof fn law_id_length(bytes: Seq<u8>)
    requires
        bytes.len() == 17,
    ensures
        base36_text(be_value(bytes.update(0, bytes[0] | 0x80u8))).len() >= 26,
        id_from_bytes(bytes).len() == 25,
{
    let marked = bytes.update(0, bytes[0] | 0x80u8);
    assert(marked[0] >= 128) by {
        let b = bytes[0];
        assert(b | 0x80u8 >= 128u8) by (bit_vector);
    }
    lemma_be_value_lower_bound(marked);
    assert(128 * pow(256, 16) >= pow(36, 26)) by {
        reveal_with_fuel(pow, 27);
        assert(pow(256, 16) == 340282366920938463463374607431768211456int);
        assert(pow(36, 26) == 29098125988731506183153025616435306561536int);
    }
    assert(be_value(marked) >= pow(36, 26)) by (nonlinear_arith)
        requires
            be_value(marked) >= marked[0] as nat * pow(256, 16),
            marked[0] >= 128,
            128 * pow(256, 16) >= pow(36, 26);
    lemma_base36_length(be_value(marked), 26);
}

/// A fresh random identifier (see `id_from_bytes`), as BuildKit makes them.
pub fn new_id() -> (res: String)
    ensures
        res@.len() == 25,
        is_base36_id(res@),
        exists|bytes: Seq<u8>| bytes.len() == 17 && res@ == id_from_bytes(bytes),
{
    let bytes = random_bytes(17);
    let ghost original = bytes@;
    let mut marked = bytes;
    let first = marked[0] | 0x80u8;
    marked.set(0, first);
    let text = bigint_base36(marked.as_slice());
    let chars = to_chars(text.as_str());
    proof {
        law_id_length(original);
        assert(marked@ == original.update(0, original[0] | 0x80u8));
    }
    let mut out = String::new();
    let mut i: usize = 1;
    while i < 26
        invariant
            1 <= i <= 26 <= chars@.len(),
            out@ == chars@.subrange(1, i as int),
        decreases 26 - i,
    {
        crate::text::push_char(&mut out, chars[i]);
        assert(out@ =~= chars@.subrange(1, i + 1));
        i = i + 1;
    }
    proof {
        assert(out@ == id_from_bytes(original));
        lemma_base36_text_chars(be_value(marked@));
        assert forall|k: int| 0 <= k < out@.len() implies #[trigger] is_base36_char(out@[k]) by {
            assert(out@[k] == chars@[k + 1]);
        }
    }
    out
}

/// A reference to a build within a BuildKit session.
pub struct BuildRef(String);

impl BuildRef {
    /// The reference's text.
    pub closed spec fn view(&self) -> Seq<char> {
        self.0@
    }

    /// A fresh random reference.
    pub fn random() -> (res: Self)
        ensures
            res@.len() == 25,
            is_base36_id(res@),
    {
        BuildRef(new_id())
    }

    /// The reference's text.
    pub fn as_str(&self) -> (res: &str)
        ensures
            res@ == self@,
    {
        self.0.as_str()
    }

    /// The reference as an owned string.
    pub fn into_string(self) -> (res: String)
        ensures
            res@ == self@,
    {
        self.0
    }
}

/// The prefix of the URLs under which uploads are offered.
pub open spec fn upload_url_prefix() -> Seq<char> {
    "http://buildkit-session/"@
}

/// Build contexts offered to BuildKit, by URL path.
pub struct UploadProvider {
    pub(crate) store: StrMap<Vec<u8>>,
}

/// Size of the chunks an upload is streamed in (32 KiB).
pub const UPLOAD_CHUNK_SIZE: usize = 32768;

/// The upload that was asked for is not offered.
#[derive(Debug, Copy, Clone, PartialEq, Eq, Structural)]
pub struct InvalidUrlPath;

/// The contents cut into chunks of at most `size` bytes, in order.
pub open spec fn chunked(data: Seq<u8>, size: nat) -> Seq<Seq<u8>>
    decreases data.len(),
{
    if data.len() == 0 || size == 0 {
        Seq::empty()
    } else if data.len() <= size {
        seq![data]
    } else {
        seq![data.take(size as int)] + chunked(data.skip(size as int), size)
    }
}

/// Pieces joined in order.
pub open spec fn joined(pieces: Seq<Seq<u8>>) -> Seq<u8>
    decreases pieces.len(),
{
    if pieces.len() == 0 {
        Seq::empty()
    } else {
        pieces[0] + joined(pieces.skip(1))
    }
}

proof fn lemma_chunked(data: Seq<u8>, size: nat)
    requires
        size > 0,
    ensures
        forall|i: int| 0 <= i < chunked(data, size).len()
            ==> 0 < #[trigger] chunked(data, size)[i].len() <= size,
        joined(chunked(data, size)) == data,
    decreases data.len(),
{
    if data.len() == 0 {
        assert(data =~= Seq::<u8>::empty());
    } else if data.len() <= size {
        let c = chunked(data, size);
        assert(c == seq![data]);
        assert(c[0] == data);
        assert(c.skip(1) =~= Seq::<Seq<u8>>::empty());
        assert(joined(c.skip(1)) == Seq::<u8>::empty());
        assert(joined(c) =~= data);
    } else {
        let rest = data.skip(size as int);
        lemma_chunked(rest, size);
        let c = chunked(data, size);
        assert(c == seq![data.take(size as int)] + chunked(rest, size));
        assert(c[0] == data.take(size as int));
        assert(c.skip(1) =~= chunked(rest, size));
        assert(data.take(size as int) + rest =~= data);
        assert(joined(c) == c[0] + joined(c.skip(1)));
        assert forall|i: int| 0 <= i < c.len() implies 0 < #[trigger] c[i].len() <= size by {
            if i > 0 {
                assert(c[i] == chunked(rest, size)[i - 1]);
            }
        }
    }
}

/// Uploaded contents are streamed in pieces that are never empty and never
/// longer than the chunk size, whatever the size of the contents, and the
/// pieces joined in order give the contents back.
pub proof fn law_upload_chunks_rebuild_contents(data: Seq<u8>)
    ensures
        forall|i: int| 0 <= i < chunked(data, UPLOAD_CHUNK_SIZE as nat).len()
            ==> 0 < #[trigger] chunked(data, UPLOAD_CHUNK_SIZE as nat)[i].len() <= UPLOAD_CHUNK_SIZE,
        joined(chunked(data, UPLOAD_CHUNK_SIZE as nat)) == data,
{
    lemma_chunked(data, UPLOAD_CHUNK_SIZE as nat);
}

impl UploadProvider {
    /// The offered contents by URL path.
    pub closed spec fn view(&self) -> Map<Seq<char>, Seq<u8>> {
        self.store@.map_values(|v: Vec<u8>| v@)
    }

    /// A provider that offers nothing.
    pub fn new() -> (res: Self)
        ensures
            res@ == Map::<Seq<char>, Seq<u8>>::empty(),
    {
        let res = UploadProvider { store: StrMap::new() };
        assert(res@ =~= Map::<Seq<char>, Seq<u8>>::empty());
        res
    }

    /// Offers `reader` under a fresh random id: it is stored under `/<id>`
    /// and reachable at the returned `http://buildkit-session/<id>`.
    pub fn add(&mut self, reader: Vec<u8>) -> (res: String)
        ensures
            exists|id: Seq<char>| #![trigger upload_url_prefix() + id]
                id.len() == 25
                && is_base36_id(id)
                && res@ == upload_url_prefix() + id
                && final(self)@ == old(self)@.insert("/"@ + id, reader@),
    {
        let id = new_id();
        let mut key = owned("http://buildkit-session/");
        push_all(&mut key, id.as_str());
        let mut path = owned("/");
        push_all(&mut path, id.as_str());
        let ghost before = self.store@;
        let ghost r = reader;
        self.store.insert(path, reader);
        proof {
            reveal_strlit("http://buildkit-session/");
            assert(self@ =~= before.map_values(|v: Vec<u8>| v@).insert("/"@ + id@, r@));
            assert(key@ == upload_url_prefix() + id@);
        }
        key
    }

    /// What a pull for `urlpath` streams: the stored contents in chunks of
    /// 32 KiB, or an error when nothing is stored there (or no path was
    /// given).
    pub fn pull_chunks(&self, urlpath: Option<&str>) -> (res: Result<Vec<Vec<u8>>, InvalidUrlPath>)
        ensures
            match urlpath {
                Some(p) => match res {
                    Ok(chunks) => self@.contains_key(p@)
                        && Seq::new(chunks@.len(), |i: int| chunks@[i]@) == chunked(self@[p@], UPLOAD_CHUNK_SIZE as nat),
                    Err(_) => !self@.contains_key(p@),
                },
                None => res is Err,
            },
    {
        let p = match urlpath {
            Some(p) => p,
            None => {
                return Err(InvalidUrlPath);
            },
        };
        let data = match self.store.get(p) {
            Some(d) => d,
            None => {
                return Err(InvalidUrlPath);
            },
        };
        let ghost all = data@;
        let mut chunks: Vec<Vec<u8>> = Vec::new();
        let mut start: usize = 0;
        let n = data.len();
        assert(all.skip(0) =~= all);
        while start < n
            invariant
                start <= n == all.len(),
                data@ == all,
                Seq::new(chunks@.len(), |i: int| chunks@[i]@) + chunked(all.skip(start as int), UPLOAD_CHUNK_SIZE as nat)
                    == chunked(all, UPLOAD_CHUNK_SIZE as nat),
            decreases n - start,
        {
            let ghost before = Seq::new(chunks@.len(), |i: int| chunks@[i]@);
            let ghost rest = all.skip(start as int);
            let end = if n - start <= UPLOAD_CHUNK_SIZE { n } else { start + UPLOAD_CHUNK_SIZE };
            let mut chunk: Vec<u8> = Vec::new();
            let mut k: usize = start;
            while k < end
                invariant
                    start <= k <= end <= n == all.len(),
                    data@ == all,
                    chunk@ == all.subrange(start as int, k as int),
                decreases end - k,
            {
                chunk.push(data[k]);
                assert(chunk@ =~= all.subrange(start as int, k + 1));
                k = k + 1;
            }
            chunks.push(chunk);
            proof {
                assert(Seq::new(chunks@.len(), |i: int| chunks@[i]@) =~= before.push(all.subrange(start as int, end as int)));
                if n - start <= UPLOAD_CHUNK_SIZE {
                    assert(rest =~= all.subrange(start as int, end as int));
                    assert(all.skip(end as int).len() == 0);
                    assert(chunked(all.skip(end as int), UPLOAD_CHUNK_SIZE as nat) =~= Seq::<Seq<u8>>::empty());
                } else {
                    assert(rest.take(UPLOAD_CHUNK_SIZE as int) =~= all.subrange(start as int, end as int));
                    assert(rest.skip(UPLOAD_CHUNK_SIZE as int) =~= all.skip(end as int));
                }
                assert(before.push(all.subrange(start as int, end as int)) + chunked(all.skip(end as int), UPLOAD_CHUNK_SIZE as nat)
                    =~= before + chunked(rest, UPLOAD_CHUNK_SIZE as nat));
            }
            start = end;
        }
        assert(chunked(all.skip(n as int), UPLOAD_CHUNK_SIZE as nat) =~= Seq::<Seq<u8>>::empty());
        assert(Seq::new(chunks@.len(), |i: int| chunks@[i]@) + Seq::<Seq<u8>>::empty() =~= Seq::new(chunks@.len(), |i: int| chunks@[i]@));
        Ok(chunks)
    }
}

/// The agent id BuildKit uses when an instruction names none; an empty id
/// means it too.
pub const DEFAULT_SSH_AGENT_ID: &'static str = "default";

/// The metadata key under which BuildKit sends the agent id of a forwarding
/// stream.
pub const SSH_ID_METADATA_KEY: &'static str = "buildkit.ssh.id";

/// The agent an id means: an empty id means `default`.
pub open spec fn agent_id(id: Seq<char>) -> Seq<char> {
    if id.len() == 0 { "default"@ } else { id }
}

/// Applies the rule that an empty agent id means `default`.
pub fn resolve_agent_id(id: &str) -> (res: &str)
    ensures
        res@ == agent_id(id@),
{
    if id.is_empty() {
        DEFAULT_SSH_AGENT_ID
    } else {
        id
    }
}

/// The agent id a forwarding stream is for, from the value of its
/// `buildkit.ssh.id` metadata (`None` when absent or not ASCII).
pub fn agent_id_from_metadata(value: Option<&str>) -> (res: &str)
    ensures
        res@ == agent_id(match value {
            Some(v) => v@,
            None => Seq::empty(),
        }),
{
    match value {
        Some(v) => resolve_agent_id(v),
        None => DEFAULT_SSH_AGENT_ID,
    }
}

/// Where a named ssh agent's bytes are relayed to.
#[derive(Debug, Clone, PartialEq, Eq)]
pub enum SshAgentSource {
    /// The agent `SSH_AUTH_SOCK` points at, looked up when the build asks.
    DefaultAgentSocket,
    /// A Unix socket speaking the ssh-agent protocol.
    Socket(String),
}

/// The message when `SSH_AUTH_SOCK` is needed and not set.
pub open spec fn missing_agent_socket_text() -> Seq<char> {
    "The environment variable SSH_AUTH_SOCK is missing, and is required for the sshforwarding functionality"@
}

/// The socket a source resolves to, given the value of `SSH_AUTH_SOCK`;
/// `None` when it is needed and unset or empty.
pub open spec fn source_socket(source: SshAgentSource, default_agent_socket: Option<Seq<char>>) -> Option<Seq<char>> {
    match source {
        SshAgentSource::DefaultAgentSocket => match default_agent_socket {
            Some(s) => if s.len() > 0 { Some(s) } else { None },
            None => None,
        },
        SshAgentSource::Socket(p) => Some(p@),
    }
}

impl SshAgentSource {
    /// The socket to relay to, given the value of `SSH_AUTH_SOCK` (`None`
    /// when unset).
    pub fn resolve(&self, default_agent_socket: Option<String>) -> (res: Result<String, GrpcSshError>)
        ensures
            match res {
                Ok(p) => source_socket(*self, opt_view(default_agent_socket)) == Some(p@),
                Err(e) => source_socket(*self, opt_view(default_agent_socket)) is None
                    && e == GrpcSshError::SshAgentSocketInit(e->SshAgentSocketInit_0)
                    && e->SshAgentSocketInit_0@ == missing_agent_socket_text(),
            },
    {
        match self {
            SshAgentSource::DefaultAgentSocket => match default_agent_socket {
                Some(s) => if s.as_str().is_empty() {
                    Err(GrpcSshError::SshAgentSocketInit(owned(
                        "The environment variable SSH_AUTH_SOCK is missing, and is required for the sshforwarding functionality",
                    )))
                } else {
                    Ok(s)
                },
                None => Err(GrpcSshError::SshAgentSocketInit(owned(
                    "The environment variable SSH_AUTH_SOCK is missing, and is required for the sshforwarding functionality",
                ))),
            },
            SshAgentSource::Socket(p) => Ok(owned(p.as_str())),
        }
    }
}

/// The ssh agents a build may use, by agent id.
pub struct SshProvider {
    sources: StrMap<SshAgentSource>,
}

/// The message when no agent is registered under `id`.
pub open spec fn unregistered_agent_text(id: Seq<char>) -> Seq<char> {
    "No ssh agent is registered under the id '"@ + id + "' requested by this build"@
}

impl SshProvider {
    /// The registered agents.
    pub closed spec fn view(&self) -> Map<Seq<char>, SshAgentSource> {
        self.sources@
    }

    /// A provider for the given agents.
    pub fn new(sources: StrMap<SshAgentSource>) -> (res: Self)
        ensures
            res@ == sources@,
    {
        SshProvider { sources }
    }

    /// The socket of the agent registered under the (already resolved) id,
    /// given the value of `SSH_AUTH_SOCK`.
    pub fn socket_for(&self, id: &str, default_agent_socket: Option<String>) -> (res: Result<String, GrpcSshError>)
        ensures
            !self@.contains_key(id@) ==> res == Err::<String, GrpcSshError>(GrpcSshError::SshAgentSocketInit(res->Err_0->SshAgentSocketInit_0))
                && res->Err_0->SshAgentSocketInit_0@ == unregistered_agent_text(id@),
            self@.contains_key(id@) ==> match res {
                Ok(p) => source_socket(self@[id@], opt_view(default_agent_socket)) == Some(p@),
                Err(e) => source_socket(self@[id@], opt_view(default_agent_socket)) is None,
            },
    {
        match self.sources.get(id) {
            Some(source) => source.resolve(default_agent_socket),
            None => {
                let mut message = owned("No ssh agent is registered under the id '");
                push_all(&mut message, id);
                push_all(&mut message, "' requested by this build");
                Err(GrpcSshError::SshAgentSocketInit(message))
            },
        }
    }
}

/// The registry address of Docker Hub as clients send it.
pub const DOCKER_HUB_REGISTRY_HOST: &'static str = "https://index.docker.io/v1/";
/// The key under which Docker Hub credentials are stored.
pub const DOCKER_HUB_CONFIG_FILE_KEY: &'static str = "registry-1.docker.io";
/// How long a fetched token lasts when the registry does not say, in seconds.
pub const DEFAULT_TOKEN_EXPIRATION: i64 = 60;

/// The key credentials for `host` are stored under: Docker Hub's address
/// maps to its configuration key.
pub open spec fn auth_key(host: Seq<char>) -> Seq<char> {
    if host == "https://index.docker.io/v1/"@ { "registry-1.docker.io"@ } else { host }
}

/// The user name and secret answered for credentials: the identity token
/// (with an empty user name) when there is one, else the user name and
/// password; `None` when the credentials have neither.
pub open spec fn credentials_answer(c: Seq<Option<Seq<char>>>) -> Option<(Seq<char>, Seq<char>)> {
    if c[5] is Some {
        Some((Seq::empty(), c[5]->Some_0))
    } else if c[0] is Some && c[1] is Some {
        Some((c[0]->Some_0, c[1]->Some_0))
    } else {
        None
    }
}

/// An identity token wins: once credentials with an identity token are
/// stored for a host (`set_docker_credentials`), the answer for it
/// (`get_credentials`) is an empty user name and the token, whatever user
/// name and password the credentials also hold; without a token a user
/// name and password are answered as they are, and credentials with
/// neither are refused.
pub proof fn law_identity_token_wins(stored: Map<Seq<char>, Seq<Option<Seq<char>>>>, host: Seq<char>, c: DockerCredentials)
    ensures
        ({
            let answer = credentials_answer(stored.insert(host, creds_view(c))[host]);
            &&& (c.identitytoken matches Some(t) ==> answer == Some((Seq::<char>::empty(), t@)))
            &&& (c.identitytoken is None && c.username is Some && c.password is Some
                ==> answer == Some((c.username->0@, c.password->0@)))
            &&& (c.identitytoken is None && (c.username is None || c.password is None) ==> answer is None)
        }),
{
    assert(stored.insert(host, creds_view(c))[host] == creds_view(c));
}

/// The credentials for a host are present but unusable.
#[derive(Debug, Copy, Clone, PartialEq, Eq, Structural)]
pub struct InvalidDockerCredentials;

/// The credentials a build may use, by registry host.
pub struct AuthProvider {
    auth_config_cache: StrMap<DockerCredentials>,
}

impl AuthProvider {
    /// The stored credentials, by host.
    pub closed spec fn view(&self) -> Map<Seq<char>, Seq<Option<Seq<char>>>> {
        self.auth_config_cache@.map_values(|c: DockerCredentials| creds_view(c))
    }

    /// A provider without credentials.
    pub fn new() -> (res: Self)
        ensures
            res@ == Map::<Seq<char>, Seq<Option<Seq<char>>>>::empty(),
    {
        let res = AuthProvider { auth_config_cache: StrMap::new() };
        assert(res@ =~= Map::<Seq<char>, Seq<Option<Seq<char>>>>::empty());
        res
    }

    /// Stores the credentials for `host`.
    pub fn set_docker_credentials(&mut self, host: &str, docker_credentials: DockerCredentials)
        ensures
            final(self)@ == old(self)@.insert(host@, creds_view(docker_credentials)),
    {
        let ghost before = self.auth_config_cache@;
        let ghost c = docker_credentials;
        self.auth_config_cache.insert(owned(host), docker_credentials);
        assert(self@ =~= before.map_values(|c: DockerCredentials| creds_view(c)).insert(host@, creds_view(c)));
    }

    /// The user name and secret for `host` (see `credentials_answer`); empty
    /// ones when no credentials are stored, and an error when the stored ones
    /// are unusable.
    pub fn get_credentials(&self, host: &str) -> (res: Result<(String, String), InvalidDockerCredentials>)
        ensures
            !self@.contains_key(auth_key(host@)) ==> (res matches Ok((u, s)) && u@.len() == 0 && s@.len() == 0),
            self@.contains_key(auth_key(host@)) ==> match res {
                Ok((u, s)) => credentials_answer(self@[auth_key(host@)]) == Some((u@, s@)),
                Err(_) => credentials_answer(self@[auth_key(host@)]) is None,
            },
    {
        let key = if str_equal(host, DOCKER_HUB_REGISTRY_HOST) { DOCKER_HUB_CONFIG_FILE_KEY } else { host };
        proof {
            reveal_strlit("https://index.docker.io/v1/");
            reveal_strlit("registry-1.docker.io");
        }
        match self.auth_config_cache.get(key) {
            None => Ok((String::new(), String::new())),
            Some(c) => {
                assert(creds_view(*c) == self@[auth_key(host@)]);
                match &c.identitytoken {
                    Some(t) => Ok((String::new(), owned(t.as_str()))),
                    None => match (&c.username, &c.password) {
                        (Some(u), Some(p)) => Ok((owned(u.as_str()), owned(p.as_str()))),
                        _ => Err(InvalidDockerCredentials),
                    },
                }
            },
        }
    }

    /// The fields of an OAuth token request to a registry, in order: the
    /// client id, the scopes joined by spaces (when there are any), the
    /// service, then a refresh-token grant when there is no user name and a
    /// password grant otherwise, and `access_type=offline` when a refresh
    /// token is wanted.
    pub fn token_form(scopes: &[String], service: &str, username: &str, secret: &str, fetch_refresh_token: bool) -> (res: Vec<(String, String)>)
        ensures
            pairs_view(res@) == token_form_spec(Seq::new(scopes@.len(), |i: int| scopes@[i]@), service@, username@, secret@, fetch_refresh_token),
    {
        let ghost sv = Seq::new(scopes@.len(), |i: int| scopes@[i]@);
        let mut form: Vec<(String, String)> = Vec::new();
        form.push((owned("client_id"), owned("bollard-client")));
        let ghost base = seq![("client_id"@, "bollard-client"@)];
        assert(pairs_view(form@) =~= base);
        if scopes.len() > 0 {
            form.push((owned("scope"), space_joined_text(scopes)));
        }
        let ghost with_scope = if sv.len() > 0 { base.push(("scope"@, space_joined(sv))) } else { base };
        assert(pairs_view(form@) =~= with_scope);
        form.push((owned("service"), owned(service)));
        let ghost with_service = with_scope.push(("service"@, service@));
        assert(pairs_view(form@) =~= with_service);
        proof {
            reveal_strlit("");
        }
        if str_equal(username, "") {
            form.push((owned("grant_type"), owned("refresh_token")));
            form.push((owned("refresh_token"), owned(secret)));
            assert(username@.len() == 0);
            assert(pairs_view(form@) =~= with_service.push(("grant_type"@, "refresh_token"@)).push(("refresh_token"@, secret@)));
        } else {
            form.push((owned("grant_type"), owned("password")));
            form.push((owned("username"), owned(username)));
            form.push((owned("password"), owned(secret)));
            assert(username@.len() != 0) by {
                if username@.len() == 0 {
                    assert(username@ =~= ""@);
                }
            }
            assert(pairs_view(form@) =~= with_service.push(("grant_type"@, "password"@)).push(("username"@, username@)).push(("password"@, secret@)));
        }
        let ghost with_grant = if username@.len() == 0 {
            with_service.push(("grant_type"@, "refresh_token"@)).push(("refresh_token"@, secret@))
        } else {
            with_service.push(("grant_type"@, "password"@)).push(("username"@, username@)).push(("password"@, secret@))
        };
        assert(pairs_view(form@) =~= with_grant);
        if fetch_refresh_token {
            form.push((owned("access_type"), owned("offline")));
        }
        assert(pairs_view(form@) =~= token_form_spec(sv, service@, username@, secret@, fetch_refresh_token));
        form
    }

    /// Whether a registry's answer to a token request has a status the
    /// token is read from: 200 to 399.
    pub fn token_status_accepted(status: u16) -> (res: bool)
        ensures
            res == (200 <= status < 400),
    {
        200 <= status && status < 400
    }

    /// How long a token lasts: what the registry said, else the default.
    pub fn token_expiry(expires_in: Option<i64>) -> (res: i64)
        ensures
            res == match expires_in {
                Some(e) => e,
                None => DEFAULT_TOKEN_EXPIRATION,
            },
    {
        match expires_in {
            Some(e) => e,
            None => DEFAULT_TOKEN_EXPIRATION,
        }
    }
}

/// `parts` joined with single spaces.
pub open spec fn space_joined(parts: Seq<Seq<char>>) -> Seq<char>
    decreases parts.len(),
{
    if parts.len() == 0 {
        Seq::empty()
    } else if parts.len() == 1 {
        parts[0]
    } else {
        space_joined(parts.drop_last()) + " "@ + parts.last()
    }
}

/// The texts of string pairs.
pub open spec fn pairs_view(v: Seq<(String, String)>) -> Seq<(Seq<char>, Seq<char>)> {
    Seq::new(v.len(), |i: int| (v[i].0@, v[i].1@))
}

/// The fields of an OAuth token request (see `AuthProvider::token_form`).
pub open spec fn token_form_spec(
    scopes: Seq<Seq<char>>,
    service: Seq<char>,
    username: Seq<char>,
    secret: Seq<char>,
    fetch_refresh_token: bool,
) -> Seq<(Seq<char>, Seq<char>)> {
    let base = seq![("client_id"@, "bollard-client"@)];
    let with_scope = if scopes.len() > 0 { base.push(("scope"@, space_joined(scopes))) } else { base };
    let with_service = with_scope.push(("service"@, service));
    let with_grant = if username.len() == 0 {
        with_service.push(("grant_type"@, "refresh_token"@)).push(("refresh_token"@, secret))
    } else {
        with_service.push(("grant_type"@, "password"@)).push(("username"@, username)).push(("password"@, secret))
    };
    if fetch_refresh_token { with_grant.push(("access_type"@, "offline"@)) } else { with_grant }
}

fn space_joined_text(parts: &[String]) -> (res: String)
    ensures
        res@ == space_joined(Seq::new(parts@.len(), |i: int| parts@[i]@)),
{
    let ghost all = Seq::new(parts@.len(), |i: int| parts@[i]@);
    let mut out = String::new();
    let mut i: usize = 0;
    assert(all.take(0) =~= Seq::<Seq<char>>::empty());
    while i < parts.len()
        invariant
            i <= parts@.len(),
            all == Seq::new(parts@.len(), |i: int| parts@[i]@),
            out@ == space_joined(all.take(i as int)),
        decreases parts@.len() - i,
    {
        if i > 0 {
            push_all(&mut out, " ");
        }
        push_all(&mut out, parts[i].as_str());
        proof {
            assert(all.take(i + 1).drop_last() =~= all.take(i as int));
            if i == 0 {
                assert(out@ =~= all.take(1)[0]);
            }
        }
        i = i + 1;
    }
    assert(all.take(parts@.len() as int) =~= all);
    out
}

/// Largest secret served (500 KiB).
pub const MAX_SECRET_SIZE: u64 = 512000;

/// Where a build secret is read from.
#[derive(Debug, Clone, PartialEq, Eq)]
pub enum SecretSource {
    /// A file, by path.
    File(String),
    /// An environment variable, by name.
    Env(String),
}

/// A secret source as the contracts see it: whether it is a file, and the
/// path or variable name.
pub open spec fn source_view(s: SecretSource) -> (bool, Seq<char>) {
    match s {
        SecretSource::File(p) => (true, p@),
        SecretSource::Env(v) => (false, v@),
    }
}

/// Why a secret cannot be served: the gRPC code and message.
#[derive(Debug, Clone, PartialEq, Eq)]
pub enum SecretError {
    /// No secret is registered under the id.
    NotFound(String),
    /// The secret's source cannot be used.
    FailedPrecondition(String),
}

/// The secrets a build may read, by id.
pub struct SecretProvider {
    pub(crate) store: StrMap<SecretSource>,
}

impl SecretProvider {
    /// The registered secrets.
    pub closed spec fn view(&self) -> Map<Seq<char>, SecretSource> {
        self.store@
    }

    /// A provider for the given secrets.
    pub fn new(store: StrMap<SecretSource>) -> (res: Self)
        ensures
            res@ == store@,
    {
        SecretProvider { store }
    }

    /// Where the secret `id` is read from; an unknown id is refused with
    /// `secret missing ID`.
    pub fn source_of(&self, id: &str) -> (res: Result<SecretSource, SecretError>)
        ensures
            match res {
                Ok(s) => self@.contains_key(id@) && source_view(self@[id@]) == source_view(s),
                Err(e) => !self@.contains_key(id@) && e == SecretError::NotFound(e->NotFound_0)
                    && e->NotFound_0@ == "secret missing ID"@,
            },
    {
        match self.store.get(id) {
            Some(s) => Ok(match s {
                SecretSource::File(p) => SecretSource::File(owned(p.as_str())),
                SecretSource::Env(v) => SecretSource::Env(owned(v.as_str())),
            }),
            None => Err(SecretError::NotFound(owned("secret missing ID"))),
        }
    }

    /// Why the registered `source` cannot be read: its file does not exist,
    /// or its environment variable is not set.
    pub fn unavailable_source(source: &SecretSource) -> (res: SecretError)
        ensures
            match source {
                SecretSource::File(p) => res matches SecretError::FailedPrecondition(m)
                    && m@ == ("path does not exist '"@ + str_debug(p@)) + "'"@,
                SecretSource::Env(v) => res matches SecretError::FailedPrecondition(m)
                    && m@ == ("env var '"@ + v@) + "' does not exist"@,
            },
    {
        match source {
            SecretSource::File(p) => {
                let mut message = owned("path does not exist '");
                let quoted = debug_str(p.as_str());
                push_all(&mut message, quoted.as_str());
                push_all(&mut message, "'");
                SecretError::FailedPrecondition(message)
            },
            SecretSource::Env(v) => {
                let mut message = owned("env var '");
                push_all(&mut message, v.as_str());
                push_all(&mut message, "' does not exist");
                SecretError::FailedPrecondition(message)
            },
        }
    }

    /// Checks the size of a secret file: more than `MAX_SECRET_SIZE` bytes is
    /// refused with `invalid secret size <size>`.
    pub fn check_secret_size(size: u64) -> (res: Result<(), SecretError>)
        ensures
            size <= MAX_SECRET_SIZE ==> res is Ok,
            size > MAX_SECRET_SIZE ==> (res matches Err(SecretError::FailedPrecondition(m))
                && m@ == "invalid secret size "@ + decimal_text(size as nat)),
    {
        if size > MAX_SECRET_SIZE {
            let mut message = owned("invalid secret size ");
            push_decimal(&mut message, size);
            Err(SecretError::FailedPrecondition(message))
        } else {
            Ok(())
        }
    }
}

} // verus!
