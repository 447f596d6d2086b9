//! Registry credentials and the parts of the Docker client configuration
//! (`config.json`) that name them.

use vstd::prelude::*;
use vstd::utf8::{decode_utf8, encode_utf8, is_char_boundary, valid_utf8};
use vstd::string::StringSliceAdditionalSpecFns;
use crate::strmap::StrMap;
use crate::text::{debug_str, owned, push_all, str_debug, to_chars, trim_text, trimmed, utf8_string};

verus! {

broadcast use {vstd::string::group_string_axioms, vstd::utf8::group_utf8_lib};

/// Credentials and server address for pushing or building images.
#[derive(Clone)]
pub struct DockerCredentials {
    pub username: Option<String>,
    pub password: Option<String>,
    pub auth: Option<String>,
    pub email: Option<String>,
    pub serveraddress: Option<String>,
    pub identitytoken: Option<String>,
    pub registrytoken: Option<String>,
}

/// The characters of an optional string.
pub open spec fn opt_view(o: Option<String>) -> Option<Seq<char>> {
    match o {
        Some(s) => Some(s@),
        None => None,
    }
}

/// The fields of credentials, in declaration order.
pub open spec fn creds_view(c: DockerCredentials) -> Seq<Option<Seq<char>>> {
    seq![
        opt_view(c.username),
        opt_view(c.password),
        opt_view(c.auth),
        opt_view(c.email),
        opt_view(c.serveraddress),
        opt_view(c.identitytoken),
        opt_view(c.registrytoken),
    ]
}

impl Default for DockerCredentials {
    fn default() -> (res: Self)
        ensures
            creds_view(res) == seq![None::<Seq<char>>, None, None, None, None, None, None],
    {
        DockerCredentials {
            username: None,
            password: None,
            auth: None,
            email: None,
            serveraddress: None,
            identitytoken: None,
            registrytoken: None,
        }
    }
}

/// A secret as shown for debugging: its first five bytes followed by five
/// stars, or only the stars when it has no more than five bytes.
pub open spec fn masked(s: Seq<char>) -> Seq<char> {
    if encode_utf8(s).len() <= 5 {
        "*****"@
    } else {
        decode_utf8(encode_utf8(s).subrange(0, 5)) + "*****"@
    }
}

/// Whether a secret can be masked: five bytes in, a character must end.
pub open spec fn maskable(s: Seq<char>) -> bool {
    encode_utf8(s).len() <= 5 || is_char_boundary(encode_utf8(s), 5)
}

/// Masks a secret for debugging output (see `masked`).
pub fn mask_secret(s: &str) -> (res: String)
    requires
        maskable(s@),
    ensures
        res@ == masked(s@),
{
    if s.as_bytes().len() <= 5 {
        owned("*****")
    } else {
        let (head, _) = s.split_at(5);
        proof {
            assert(head.spec_bytes() =~= encode_utf8(s@).subrange(0, 5));
            assert(decode_utf8(encode_utf8(head@)) == head@);
        }
        let mut out = owned(head);
        push_all(&mut out, "*****");
        out
    }
}

/// How an optional string is written by `{:?}`.
pub open spec fn option_debug(o: Option<Seq<char>>) -> Seq<char> {
    match o {
        Some(s) => "Some("@ + str_debug(s) + ")"@,
        None => "None"@,
    }
}

/// An optional secret, masked.
pub open spec fn masked_opt(o: Option<Seq<char>>) -> Option<Seq<char>> {
    match o {
        Some(s) => Some(masked(s)),
        None => None,
    }
}

/// Whether an optional secret can be masked.
pub open spec fn maskable_opt(o: Option<Seq<char>>) -> bool {
    match o {
        Some(s) => maskable(s),
        None => true,
    }
}

/// The debugging text of credentials: every field as `{:?}` writes it, with
/// the password, the auth string and both tokens masked.
pub open spec fn credentials_debug(c: DockerCredentials) -> Seq<char> {
    "DockerCredentials { username: "@ + option_debug(opt_view(c.username))
        + ", password: "@ + option_debug(masked_opt(opt_view(c.password)))
        + ", auth: "@ + option_debug(masked_opt(opt_view(c.auth)))
        + ", email: "@ + option_debug(opt_view(c.email))
        + ", serveraddress: "@ + option_debug(opt_view(c.serveraddress))
        + ", identitytoken: "@ + option_debug(masked_opt(opt_view(c.identitytoken)))
        + ", registrytoken: "@ + option_debug(masked_opt(opt_view(c.registrytoken)))
        + " }"@
}

fn push_option_debug(out: &mut String, o: &Option<String>)
    ensures
        final(out)@ == old(out)@ + option_debug(opt_view(*o)),
{
    match o {
        Some(s) => {
            push_all(out, "Some(");
            let quoted = debug_str(s.as_str());
            push_all(out, quoted.as_str());
            push_all(out, ")");
        },
        None => {
            push_all(out, "None");
        },
    }
}

fn masked_option(o: &Option<String>) -> (res: Option<String>)
    requires
        maskable_opt(opt_view(*o)),
    ensures
        opt_view(res) == masked_opt(opt_view(*o)),
{
    match o {
        Some(s) => Some(mask_secret(s.as_str())),
        None => None,
    }
}

impl DockerCredentials {
    /// A copy of the credentials.
    pub fn copy(&self) -> (res: Self)
        ensures
            creds_view(res) == creds_view(*self),
    {
        DockerCredentials {
            username: opt_copy(&self.username),
            password: opt_copy(&self.password),
            auth: opt_copy(&self.auth),
            email: opt_copy(&self.email),
            serveraddress: opt_copy(&self.serveraddress),
            identitytoken: opt_copy(&self.identitytoken),
            registrytoken: opt_copy(&self.registrytoken),
        }
    }

    /// The secrets of these credentials can all be masked.
    pub open spec fn secrets_maskable(&self) -> bool {
        &&& maskable_opt(opt_view(self.password))
        &&& maskable_opt(opt_view(self.auth))
        &&& maskable_opt(opt_view(self.identitytoken))
        &&& maskable_opt(opt_view(self.registrytoken))
    }

    /// The text `{:?}` shows for these credentials, with secrets masked.
    pub fn debug_string(&self) -> (res: String)
        requires
            self.secrets_maskable(),
        ensures
            res@ == credentials_debug(*self),
    {
        let mut out = owned("DockerCredentials { username: ");
        push_option_debug(&mut out, &self.username);
        push_all(&mut out, ", password: ");
        push_option_debug(&mut out, &masked_option(&self.password));
        push_all(&mut out, ", auth: ");
        push_option_debug(&mut out, &masked_option(&self.auth));
        push_all(&mut out, ", email: ");
        push_option_debug(&mut out, &self.email);
        push_all(&mut out, ", serveraddress: ");
        push_option_debug(&mut out, &self.serveraddress);
        push_all(&mut out, ", identitytoken: ");
        push_option_debug(&mut out, &masked_option(&self.identitytoken));
        push_all(&mut out, ", registrytoken: ");
        push_option_debug(&mut out, &masked_option(&self.registrytoken));
        push_all(&mut out, " }");
        out
    }
}

} // verus!

verus! {

/// `base64`'s standard engine decoding `text`: the bytes, or `None` when the
/// text is not valid base64.
pub uninterp spec fn base64_decoded(text: Seq<char>) -> Option<Seq<u8>>;

/// Decodes `text` with `base64::engine::general_purpose::STANDARD`. The
/// claim is that the outcome is a function of the text alone.
#[verifier::external_body]
fn base64_decode(text: &str) -> (res: Option<Vec<u8>>)
    ensures
        match res {
            Some(v) => base64_decoded(text@) == Some(v@),
            None => base64_decoded(text@) is None,
        },
{
    base64::Engine::decode(&base64::engine::general_purpose::STANDARD, text).ok()
}

/// The index of the first `c` in `s` at or after `i`, or the length of `s`.
pub open spec fn find_char(s: Seq<char>, c: char, i: int) -> int
    decreases s.len() - i,
{
    if i >= s.len() {
        s.len() as int
    } else if s[i] == c {
        i
    } else {
        find_char(s, c, i + 1)
    }
}

/// The text before and after the first `:`, as `str::split_once(':')`.
pub open spec fn split_colon(s: Seq<char>) -> Option<(Seq<char>, Seq<char>)> {
    let i = find_char(s, ':', 0);
    if 0 <= i < s.len() { Some((s.take(i), s.skip(i + 1))) } else { None }
}

/// The user name and password in an `auth` entry: base64 of `user:password`
/// (surrounding white space ignored). `None` when it does not decode.
pub open spec fn decoded_login(auth: Seq<char>) -> Option<(Seq<char>, Seq<char>)> {
    match base64_decoded(trimmed(auth)) {
        None => None,
        Some(bytes) => if valid_utf8(bytes) { split_colon(decode_utf8(bytes)) } else { None },
    }
}

/// One entry of the `auths` section as it is written in `config.json`.
#[derive(Debug, Clone)]
pub struct RawAuthEntry {
    /// Base64 of `user:password`.
    pub auth: Option<String>,
    pub email: Option<String>,
    pub identitytoken: Option<String>,
}

/// The fields of a raw entry.
pub type RawAuthView = (Option<Seq<char>>, Option<Seq<char>>, Option<Seq<char>>);

/// The fields of a raw entry.
pub open spec fn raw_view(e: RawAuthEntry) -> RawAuthView {
    (opt_view(e.auth), opt_view(e.email), opt_view(e.identitytoken))
}

/// The raw entries by registry; a later entry for the same registry wins.
pub open spec fn raw_map(raw: Seq<(String, RawAuthEntry)>) -> Map<Seq<char>, RawAuthView>
    decreases raw.len(),
{
    if raw.len() == 0 {
        Map::empty()
    } else {
        raw_map(raw.drop_last()).insert(raw.last().0@, raw_view(raw.last().1))
    }
}

/// The credentials stored for `registry`: its address, e-mail and identity
/// token, and the user name and password decoded from `auth`.
pub open spec fn entry_creds(registry: Seq<char>, e: RawAuthView) -> Seq<Option<Seq<char>>> {
    let login = match e.0 {
        Some(a) => decoded_login(a),
        None => None,
    };
    seq![
        match login { Some(l) => Some(l.0), None => None },
        match login { Some(l) => Some(l.1), None => None },
        None,
        e.1,
        Some(registry),
        e.2,
        None,
    ]
}

/// The string entries by key; a later entry for the same key wins.
pub open spec fn text_map(raw: Seq<(String, String)>) -> Map<Seq<char>, Seq<char>>
    decreases raw.len(),
{
    if raw.len() == 0 {
        Map::empty()
    } else {
        text_map(raw.drop_last()).insert(raw.last().0@, raw.last().1@)
    }
}

/// What a credential helper (or the credential store) hands back.
#[derive(Debug, Clone)]
pub enum HelperCredential {
    /// An identity token.
    IdentityToken(String),
    /// A user name and a password.
    UsernamePassword(String, String),
}

/// The credentials that a helper's answer gives for `registry`.
pub open spec fn helper_creds(registry: Seq<char>, found: Option<HelperCredential>) -> Option<Seq<Option<Seq<char>>>> {
    match found {
        Some(HelperCredential::UsernamePassword(u, p)) => Some(seq![
            Some(u@), Some(p@), None, None, Some(registry), None, None,
        ]),
        Some(HelperCredential::IdentityToken(t)) => Some(seq![
            None, None, None, None, Some(registry), Some(t@), None,
        ]),
        None => None,
    }
}

/// Calls `docker_credential::get_credential(registry)`, which reads the
/// Docker configuration from disk and may run a credential helper. What it
/// finds depends on the environment and the disk, so nothing is stated of
/// it; a failure becomes `None`.
#[verifier::external_body]
fn helper_credential(registry: &str) -> Option<HelperCredential> {
    match docker_credential::get_credential(registry) {
        Ok(docker_credential::DockerCredential::UsernamePassword(u, p)) => Some(HelperCredential::UsernamePassword(u, p)),
        Ok(docker_credential::DockerCredential::IdentityToken(t)) => Some(HelperCredential::IdentityToken(t)),
        Err(_) => None,
    }
}

/// Turns a helper's answer for `registry` into credentials.
pub fn credentials_from_helper(registry: &str, found: Option<HelperCredential>) -> (res: Option<DockerCredentials>)
    ensures
        match res {
            Some(c) => helper_creds(registry@, found) == Some(creds_view(c)),
            None => helper_creds(registry@, found) is None,
        },
{
    match found {
        Some(HelperCredential::UsernamePassword(u, p)) => Some(DockerCredentials {
            username: Some(u),
            password: Some(p),
            auth: None,
            email: None,
            serveraddress: Some(owned(registry)),
            identitytoken: None,
            registrytoken: None,
        }),
        Some(HelperCredential::IdentityToken(t)) => Some(DockerCredentials {
            username: None,
            password: None,
            auth: None,
            email: None,
            serveraddress: Some(owned(registry)),
            identitytoken: Some(t),
            registrytoken: None,
        }),
        None => None,
    }
}

/// The credentials found for each registry, by registry: a registry whose
/// helper found nothing is left out, and a later answer for the same
/// registry wins.
pub open spec fn collected(registries: Seq<String>, found: Seq<Option<HelperCredential>>) -> Map<Seq<char>, Seq<Option<Seq<char>>>>
    decreases registries.len(),
{
    if registries.len() == 0 || found.len() == 0 {
        Map::empty()
    } else {
        let n = if registries.len() < found.len() { registries.len() } else { found.len() };
        let prev = collected(registries.take(n - 1), found.take(n - 1));
        match helper_creds(registries[n - 1]@, found[n - 1]) {
            Some(c) => prev.insert(registries[n - 1]@, c),
            None => prev,
        }
    }
}

/// The credentials views of a map of credentials.
pub open spec fn creds_map_view(m: Map<Seq<char>, DockerCredentials>) -> Map<Seq<char>, Seq<Option<Seq<char>>>> {
    m.map_values(|c: DockerCredentials| creds_view(c))
}

/// Gathers the helpers' answers for the registries (matched by position).
pub fn collect_credentials(registries: &[String], found: Vec<Option<HelperCredential>>) -> (res: StrMap<DockerCredentials>)
    requires
        registries@.len() == found@.len(),
    ensures
        creds_map_view(res@) == collected(registries@, found@),
{
    let ghost regs = registries@;
    let ghost all = found@;
    let mut res: StrMap<DockerCredentials> = StrMap::new();
    let mut i: usize = 0;
    let mut found = found;
    let mut rest: Vec<Option<HelperCredential>> = Vec::new();
    // Reverse so that answers can be taken from the end in order.
    while found.len() > 0
        invariant
            rest@ + found@.reverse() == all.reverse(),
        decreases found@.len(),
    {
        let ghost f0 = found@;
        let x = found.pop().unwrap();
        proof {
            assert(f0 == found@.push(x));
            assert(f0.reverse() =~= seq![x] + found@.reverse());
        }
        rest.push(x);
        assert(rest@ + found@.reverse() =~= all.reverse());
    }
    assert(rest@ =~= all.reverse());
    assert(creds_map_view(res@) =~= collected(regs.take(0), all.take(0)));
    while i < registries.len()
        invariant
            i <= regs.len() == all.len(),
            regs == registries@,
            rest@.len() == all.len() - i,
            forall|j: int| 0 <= j < rest@.len() ==> #[trigger] rest@[j] == all[all.len() - 1 - j],
            creds_map_view(res@) == collected(regs.take(i as int), all.take(i as int)),
        decreases regs.len() - i,
    {
        let ghost before = res@;
        let answer = rest.pop().unwrap();
        assert(answer == all[i as int]);
        assert(regs.take(i + 1).take(i as int) =~= regs.take(i as int));
        assert(all.take(i + 1).take(i as int) =~= all.take(i as int));
        let key = owned(registries[i].as_str());
        match credentials_from_helper(registries[i].as_str(), answer) {
            Some(c) => {
                res.insert(key, c);
                assert(creds_map_view(res@) =~= creds_map_view(before).insert(regs[i as int]@, creds_view(c)));
            },
            None => {},
        }
        i = i + 1;
    }
    assert(regs.take(regs.len() as int) =~= regs);
    assert(all.take(all.len() as int) =~= all);
    res
}

/// The credential configuration of the Docker client.
pub struct DockerConfig {
    /// Inline credentials of the `auths` section, by registry.
    pub auths: StrMap<DockerCredentials>,
    /// The global credential store helper, such as `osxkeychain`.
    pub creds_store: Option<String>,
    /// Credential helpers by registry host.
    pub cred_helpers: StrMap<String>,
}

impl Default for DockerConfig {
    fn default() -> (res: Self)
        ensures
            res.auths@ == Map::<Seq<char>, DockerCredentials>::empty(),
            res.creds_store is None,
            res.cred_helpers@ == Map::<Seq<char>, String>::empty(),
    {
        DockerConfig { auths: StrMap::new(), creds_store: None, cred_helpers: StrMap::new() }
    }
}

fn login_from_auth(auth: &str) -> (res: Option<(String, String)>)
    ensures
        match res {
            Some((u, p)) => decoded_login(auth@) == Some((u@, p@)),
            None => decoded_login(auth@) is None,
        },
{
    let text = trim_text(auth);
    let bytes = match base64_decode(text.as_str()) {
        Some(b) => b,
        None => {
            return None;
        },
    };
    let decoded = match utf8_string(bytes) {
        Some(s) => s,
        None => {
            return None;
        },
    };
    let chars = to_chars(decoded.as_str());
    let mut i: usize = 0;
    while i < chars.len() && chars[i] != ':'
        invariant
            i <= chars@.len(),
            find_char(chars@, ':', i as int) == find_char(chars@, ':', 0),
        decreases chars@.len() - i,
    {
        i = i + 1;
    }
    if i >= chars.len() {
        return None;
    }
    let mut user = String::new();
    let mut j: usize = 0;
    while j < i
        invariant
            j <= i < chars@.len(),
            user@ == chars@.take(j as int),
        decreases i - j,
    {
        crate::text::push_char(&mut user, chars[j]);
        assert(user@ =~= chars@.take(j + 1));
        j = j + 1;
    }
    let mut pass = String::new();
    let mut k: usize = i + 1;
    while k < chars.len()
        invariant
            i + 1 <= k <= chars@.len(),
            pass@ == chars@.subrange(i + 1, k as int),
        decreases chars@.len() - k,
    {
        crate::text::push_char(&mut pass, chars[k]);
        assert(pass@ =~= chars@.subrange(i + 1, k + 1));
        k = k + 1;
    }
    assert(pass@ =~= chars@.skip(i + 1));
    Some((user, pass))
}

fn opt_copy(o: &Option<String>) -> (res: Option<String>)
    ensures
        opt_view(res) == opt_view(*o),
{
    match o {
        Some(s) => Some(owned(s.as_str())),
        None => None,
    }
}

/// Whether `c` is the configuration that the sections `auths`,
/// `creds_store` and `cred_helpers` of `config.json` describe: each `auths`
/// entry becomes credentials for its registry, with the user name and
/// password decoded from its `auth` string when it decodes.
pub open spec fn described_by(
    c: DockerConfig,
    auths: Seq<(String, RawAuthEntry)>,
    creds_store: Option<String>,
    cred_helpers: Seq<(String, String)>,
) -> bool {
    &&& c.auths@.dom() == raw_map(auths).dom()
    &&& forall|k: Seq<char>| #[trigger] c.auths@.contains_key(k)
        ==> creds_view(c.auths@[k]) == entry_creds(k, raw_map(auths)[k])
    &&& opt_view(c.creds_store) == opt_view(creds_store)
    &&& c.cred_helpers@.map_values(|s: String| s@) == text_map(cred_helpers)
}

/// What the standard locations of `config.json` gave.
pub enum ConfigFile {
    /// No configuration file exists there.
    Missing,
    /// The file at this path could not be read or did not parse.
    Unreadable(String),
    /// The file parsed into its `auths`, `credsStore` and `credHelpers`
    /// sections.
    Parsed(Vec<(String, RawAuthEntry)>, Option<String>, Vec<(String, String)>),
}

/// The configuration file at `path` could not be read or parsed.
pub struct DockerConfigParseError {
    pub path: String,
}

/// The registries that `all_credentials` asks about: the `auths` keys in
/// order, then the `credHelpers` keys.
pub open spec fn registries_asked(c: DockerConfig) -> Seq<Seq<char>> {
    c.auths.key_seq() + c.cred_helpers.key_seq()
}

impl DockerConfig {
    /// The configuration found at the standard locations: the sections of
    /// the file when it parsed, and the empty configuration when no file is
    /// found or it cannot be read or parsed.
    pub fn load(file: ConfigFile) -> (res: Result<Self, DockerConfigParseError>)
        ensures
            match file {
                ConfigFile::Parsed(auths, creds_store, cred_helpers) => res matches Ok(c)
                    && described_by(c, auths@, creds_store, cred_helpers@),
                _ => res matches Ok(c) && c.auths@ == Map::<Seq<char>, DockerCredentials>::empty()
                    && c.creds_store is None && c.cred_helpers@ == Map::<Seq<char>, String>::empty(),
            },
    {
        match file {
            ConfigFile::Parsed(auths, creds_store, cred_helpers) => Ok(DockerConfig::from_raw(auths, creds_store, cred_helpers)),
            _ => Ok(DockerConfig::default()),
        }
    }

    /// The configuration in a named file: an error naming the file when it
    /// cannot be read or parsed, else the sections it holds (the empty
    /// configuration when there is no file to read).
    pub fn load_from_file(file: ConfigFile) -> (res: Result<Self, DockerConfigParseError>)
        ensures
            match file {
                ConfigFile::Missing => res matches Ok(c) && c.auths@ == Map::<Seq<char>, DockerCredentials>::empty()
                    && c.creds_store is None && c.cred_helpers@ == Map::<Seq<char>, String>::empty(),
                ConfigFile::Unreadable(path) => res matches Err(e) && e.path@ == path@,
                ConfigFile::Parsed(auths, creds_store, cred_helpers) => res matches Ok(c)
                    && described_by(c, auths@, creds_store, cred_helpers@),
            },
    {
        match file {
            ConfigFile::Missing => Ok(DockerConfig::default()),
            ConfigFile::Unreadable(path) => Err(DockerConfigParseError { path }),
            ConfigFile::Parsed(auths, creds_store, cred_helpers) => Ok(DockerConfig::from_raw(auths, creds_store, cred_helpers)),
        }
    }

    /// The configuration that the sections of `config.json` describe (see
    /// `described_by`).
    pub fn from_raw(auths: Vec<(String, RawAuthEntry)>, creds_store: Option<String>, cred_helpers: Vec<(String, String)>) -> (res: Self)
        ensures
            described_by(res, auths@, creds_store, cred_helpers@),
    {
        let ghost raw = auths@;
        let mut map: StrMap<DockerCredentials> = StrMap::new();
        let mut i: usize = 0;
        assert(raw.take(0) =~= Seq::<(String, RawAuthEntry)>::empty());
        while i < auths.len()
            invariant
                i <= raw.len(),
                raw == auths@,
                map@.dom() == raw_map(raw.take(i as int)).dom(),
                forall|k: Seq<char>| #[trigger] map@.contains_key(k)
                    ==> creds_view(map@[k]) == entry_creds(k, raw_map(raw.take(i as int))[k]),
            decreases raw.len() - i,
        {
            assert(raw.take(i + 1).drop_last() =~= raw.take(i as int));
            let (registry, entry) = (&auths[i].0, &auths[i].1);
            let login = match &entry.auth {
                Some(a) => login_from_auth(a.as_str()),
                None => None,
            };
            let (username, password) = match login {
                Some((u, p)) => (Some(u), Some(p)),
                None => (None, None),
            };
            let creds = DockerCredentials {
                username,
                password,
                auth: None,
                email: opt_copy(&entry.email),
                serveraddress: Some(owned(registry.as_str())),
                identitytoken: opt_copy(&entry.identitytoken),
                registrytoken: None,
            };
            assert(creds_view(creds) =~= entry_creds(registry@, raw_view(*entry)));
            map.insert(owned(registry.as_str()), creds);
            i = i + 1;
        }
        assert(raw.take(raw.len() as int) =~= raw);
        let ghost hraw = cred_helpers@;
        let mut helpers: StrMap<String> = StrMap::new();
        let mut j: usize = 0;
        assert(hraw.take(0) =~= Seq::<(String, String)>::empty());
        assert(helpers@.map_values(|s: String| s@) =~= text_map(hraw.take(0)));
        while j < cred_helpers.len()
            invariant
                j <= hraw.len(),
                hraw == cred_helpers@,
                helpers@.map_values(|s: String| s@) == text_map(hraw.take(j as int)),
            decreases hraw.len() - j,
        {
            assert(hraw.take(j + 1).drop_last() =~= hraw.take(j as int));
            let ghost before = helpers@;
            helpers.insert(owned(cred_helpers[j].0.as_str()), owned(cred_helpers[j].1.as_str()));
            assert(helpers@.map_values(|s: String| s@) =~= before.map_values(|s: String| s@).insert(
                hraw[j as int].0@,
                hraw[j as int].1@,
            ));
            j = j + 1;
        }
        assert(hraw.take(hraw.len() as int) =~= hraw);
        DockerConfig { auths: map, creds_store, cred_helpers: helpers }
    }

    /// Asks the credential helpers for `registry`'s credentials. What they
    /// answer depends on the environment; whatever it is, credentials that
    /// come back are those the answer gives (see `helper_creds`): a user name
    /// and password, or an identity token, with `registry` as their server.
    pub fn credentials_for_registry(&self, registry: &str) -> (res: Option<DockerCredentials>)
        ensures
            res matches Some(c) ==> creds_view(c)[4] == Some(registry@),
            res matches Some(c) ==> exists|f: HelperCredential|
                #[trigger] helper_creds(registry@, Some(f)) == Some(creds_view(c)),
    {
        let found = helper_credential(registry);
        let res = credentials_from_helper(registry, found);
        proof {
            if res is Some {
                let f = found->0;
                assert(helper_creds(registry@, Some(f)) == Some(creds_view(res->0)));
            }
        }
        res
    }

    /// The registries of the `auths` section in order, then those of the
    /// `credHelpers` section.
    pub fn registries(&self) -> (res: Vec<String>)
        ensures
            Seq::new(res@.len(), |i: int| res@[i]@) == registries_asked(*self),
            forall|k: Seq<char>| registries_asked(*self).contains(k)
                <==> (self.auths@.contains_key(k) || self.cred_helpers@.contains_key(k)),
    {
        let mut registries: Vec<String> = Vec::new();
        let auth_entries = self.auths.entries();
        let helper_entries = self.cred_helpers.entries();
        let ghost a = self.auths.key_seq();
        let ghost h = self.cred_helpers.key_seq();
        let mut i: usize = 0;
        while i < auth_entries.len()
            invariant
                i <= auth_entries@.len(),
                auth_entries@ == self.auths.entry_seq(),
                a == self.auths.key_seq(),
                Seq::new(registries@.len(), |x: int| registries@[x]@) == a.take(i as int),
            decreases auth_entries@.len() - i,
        {
            let ghost before = Seq::new(registries@.len(), |x: int| registries@[x]@);
            registries.push(owned(auth_entries[i].0.as_str()));
            assert(a[i as int] == auth_entries@[i as int].0@);
            assert(a.take(i + 1) =~= a.take(i as int).push(a[i as int]));
            i = i + 1;
            assert(Seq::new(registries@.len(), |x: int| registries@[x]@) =~= before.push(a[i - 1]));
        }
        let mut j: usize = 0;
        while j < helper_entries.len()
            invariant
                j <= helper_entries@.len(),
                auth_entries@ == self.auths.entry_seq(),
                helper_entries@ == self.cred_helpers.entry_seq(),
                a == self.auths.key_seq(),
                h == self.cred_helpers.key_seq(),
                Seq::new(registries@.len(), |x: int| registries@[x]@) == a + h.take(j as int),
            decreases helper_entries@.len() - j,
        {
            let ghost before = Seq::new(registries@.len(), |x: int| registries@[x]@);
            registries.push(owned(helper_entries[j].0.as_str()));
            assert(h[j as int] == helper_entries@[j as int].0@);
            assert(a + h.take(j + 1) =~= (a + h.take(j as int)).push(h[j as int]));
            j = j + 1;
            assert(Seq::new(registries@.len(), |x: int| registries@[x]@) =~= before.push(h[j - 1]));
        }
        assert(a.take(a.len() as int) =~= a);
        assert(h.take(h.len() as int) =~= h);
        proof {
            crate::strmap::lemma_entries_map(auth_entries@);
            crate::strmap::lemma_entries_map(helper_entries@);
            assert forall|k: Seq<char>| registries_asked(*self).contains(k)
                <==> (self.auths@.contains_key(k) || self.cred_helpers@.contains_key(k)) by {
                let r = registries_asked(*self);
                if r.contains(k) {
                    let x = choose|x: int| 0 <= x < r.len() && r[x] == k;
                    if x < a.len() {
                        assert(auth_entries@[x].0@ == k);
                    } else {
                        assert(helper_entries@[x - a.len()].0@ == k);
                    }
                }
                if self.auths@.contains_key(k) {
                    let x = choose|x: int| 0 <= x < auth_entries@.len() && auth_entries@[x].0@ == k;
                    assert(r[x] == k);
                } else if self.cred_helpers@.contains_key(k) {
                    let x = choose|x: int| 0 <= x < helper_entries@.len() && helper_entries@[x].0@ == k;
                    assert(r[a.len() + x] == k);
                }
            }
        }
        registries
    }

    /// Asks the credential helpers about every registry of the `auths` and
    /// `credHelpers` sections, in that order (see `registries`); registries
    /// for which nothing is found are left out, and a registry asked twice
    /// keeps the credentials of its last answer that gave some (see
    /// `collected`). Each credential names its registry as its server.
    pub fn all_credentials(&self) -> (res: StrMap<DockerCredentials>)
        ensures
            exists|regs: Seq<String>, found: Seq<Option<HelperCredential>>|
                #![trigger collected(regs, found)]
                Seq::new(regs.len(), |i: int| regs[i]@) == registries_asked(*self)
                && found.len() == regs.len()
                && creds_map_view(res@) == collected(regs, found),
            forall|k: Seq<char>| #[trigger] res@.contains_key(k)
                ==> (self.auths@.contains_key(k) || self.cred_helpers@.contains_key(k))
                    && creds_view(res@[k])[4] == Some(k),
            forall|k: Seq<char>| #[trigger] res@.contains_key(k)
                ==> exists|f: HelperCredential| #[trigger] helper_creds(k, Some(f)) == Some(creds_view(res@[k])),
    {
        let registries = self.registries();
        proof {
            assert forall|x: int| 0 <= x < registries@.len() implies self.auths@.contains_key(#[trigger] registries@[x]@)
                || self.cred_helpers@.contains_key(registries@[x]@) by {
                assert(registries_asked(*self)[x] == registries@[x]@);
                assert(registries_asked(*self).contains(registries@[x]@));
            }
        }
        let mut found: Vec<Option<HelperCredential>> = Vec::new();
        let mut k: usize = 0;
        while k < registries.len()
            invariant
                k <= registries@.len(),
                found@.len() == k,
                forall|x: int| 0 <= x < registries@.len() ==> self.auths@.contains_key(#[trigger] registries@[x]@)
                    || self.cred_helpers@.contains_key(registries@[x]@),
            decreases registries@.len() - k,
        {
            found.push(helper_credential(registries[k].as_str()));
            k = k + 1;
        }
        let res = collect_credentials(registries.as_slice(), found);
        proof {
            assert(collected(registries@, found@) == creds_map_view(res@));
            lemma_collected_keys(registries@, found@);
            assert forall|key: Seq<char>| #[trigger] res@.contains_key(key)
                implies (self.auths@.contains_key(key) || self.cred_helpers@.contains_key(key))
                    && creds_view(res@[key])[4] == Some(key) by {
                assert(creds_map_view(res@).contains_key(key));
                assert(creds_map_view(res@)[key] == creds_view(res@[key]));
                let x = choose|x: int| 0 <= x < registries@.len() && #[trigger] registries@[x]@ == key;
                assert(self.auths@.contains_key(registries@[x]@) || self.cred_helpers@.contains_key(registries@[x]@));
            }
            assert forall|key: Seq<char>| #[trigger] res@.contains_key(key)
                implies exists|f: HelperCredential| #[trigger] helper_creds(key, Some(f)) == Some(creds_view(res@[key])) by {
                assert(creds_map_view(res@).contains_key(key));
                assert(creds_map_view(res@)[key] == creds_view(res@[key]));
            }
        }
        res
    }
}

/// Every registry in the collected credentials is one that was asked about,
/// and its credentials name it as their server.
pub proof fn lemma_collected_keys(registries: Seq<String>, found: Seq<Option<HelperCredential>>)
    requires
        registries.len() == found.len(),
    ensures
        forall|k: Seq<char>| #[trigger] collected(registries, found).contains_key(k)
            ==> (exists|i: int| 0 <= i < registries.len() && registries[i]@ == k)
                && collected(registries, found)[k][4] == Some(k),
        forall|k: Seq<char>| #[trigger] collected(registries, found).contains_key(k)
            ==> exists|f: HelperCredential| #[trigger] helper_creds(k, Some(f)) == Some(collected(registries, found)[k]),
    decreases registries.len(),
{
    if registries.len() > 0 {
        let n = registries.len() as int;
        lemma_collected_keys(registries.take(n - 1), found.take(n - 1));
        assert forall|k: Seq<char>| #[trigger] collected(registries, found).contains_key(k)
            implies (exists|i: int| 0 <= i < registries.len() && registries[i]@ == k)
                && collected(registries, found)[k][4] == Some(k) by {
            let prev = collected(registries.take(n - 1), found.take(n - 1));
            if k != registries[n - 1]@ || helper_creds(registries[n - 1]@, found[n - 1]) is None {
                assert(prev.contains_key(k));
                let i = choose|i: int| 0 <= i < n - 1 && #[trigger] registries.take(n - 1)[i]@ == k;
                assert(registries[i]@ == k);
            } else {
                assert(registries[n - 1]@ == k);
            }
        }
        assert forall|k: Seq<char>| #[trigger] collected(registries, found).contains_key(k)
            implies exists|f: HelperCredential| #[trigger] helper_creds(k, Some(f)) == Some(collected(registries, found)[k]) by {
            let prev = collected(registries.take(n - 1), found.take(n - 1));
            if k != registries[n - 1]@ || helper_creds(registries[n - 1]@, found[n - 1]) is None {
                assert(prev.contains_key(k));
                assert(collected(registries, found)[k] == prev[k]);
                let f = choose|f: HelperCredential| #[trigger] helper_creds(k, Some(f)) == Some(prev[k]);
                assert(helper_creds(k, Some(f)) == Some(collected(registries, found)[k]));
            } else {
                let f = found[n - 1]->0;
                assert(helper_creds(k, Some(f)) == Some(collected(registries, found)[k]));
            }
        }
    }
}

} // verus!
