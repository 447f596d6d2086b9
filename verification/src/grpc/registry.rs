//! The `image` exporter of BuildKit that pushes to a registry: its options
//! and the attributes they become.

use vstd::prelude::*;
use crate::grpc::export::{annotation_attrs, insert_annotations, lemma_text_values_insert, text_values};
use crate::grpc::image_build::{compression_text, ImageBuildOutputCompression};
use crate::strmap::StrMap;
use crate::text::{bool_string, bool_text, decimal_string, decimal_text, owned};

verus! {

broadcast use vstd::string::group_string_axioms;

/// The options of a registry exporter, as the contracts see them.
pub struct RegistryView {
    pub name: Seq<char>,
    pub push: bool,
    pub push_by_digest: bool,
    pub insecure_registry: bool,
    pub dangling_name_prefix: Seq<char>,
    pub name_canonical: bool,
    pub compression: ImageBuildOutputCompression,
    pub compression_level: Option<u8>,
    pub force_compression: bool,
    pub oci_mediatypes: bool,
    pub unpack: bool,
    pub store: bool,
    pub annotation: Map<Seq<char>, Seq<char>>,
}

/// Where and how an image is pushed.
pub struct ImageRegistryOutput {
    pub(crate) name: String,
    pub(crate) push: bool,
    pub(crate) push_by_digest: bool,
    pub(crate) insecure_registry: bool,
    pub(crate) dangling_name_prefix: String,
    pub(crate) name_canonical: bool,
    pub(crate) compression: ImageBuildOutputCompression,
    pub(crate) compression_level: Option<u8>,
    pub(crate) force_compression: bool,
    pub(crate) oci_mediatypes: bool,
    pub(crate) unpack: bool,
    pub(crate) store: bool,
    pub(crate) annotation: StrMap<String>,
}

/// The attributes a registry exporter with these options is given.
pub open spec fn registry_attrs(o: RegistryView) -> Map<Seq<char>, Seq<char>> {
    let a = Map::<Seq<char>, Seq<char>>::empty()
        .insert("name"@, o.name)
        .insert("push"@, bool_text(o.push))
        .insert("push-by-digest"@, bool_text(o.push_by_digest))
        .insert("registry.insecure"@, bool_text(o.insecure_registry))
        .insert("dangling_name_prefix"@, o.dangling_name_prefix)
        .insert("name_canonical"@, bool_text(o.name_canonical))
        .insert("compression"@, compression_text(o.compression));
    let b = match o.compression_level {
        Some(l) => a.insert("compression-level"@, decimal_text(l as nat)),
        None => a,
    };
    b.insert("force-compression"@, bool_text(o.force_compression))
        .insert("oci-mediatypes"@, bool_text(o.oci_mediatypes))
        .insert("unpack"@, bool_text(o.unpack))
        .insert("store"@, bool_text(o.store))
        .union_prefer_right(annotation_attrs(o.annotation))
}

fn put(attrs: &mut StrMap<String>, key: &str, value: String)
    ensures
        text_values(final(attrs)@) == text_values(old(attrs)@).insert(key@, value@),
{
    let ghost before = attrs@;
    let ghost v = value;
    attrs.insert(owned(key), value);
    proof {
        lemma_text_values_insert(before, key@, v);
    }
}

impl ImageRegistryOutput {
    /// The options.
    pub closed spec fn view(&self) -> RegistryView {
        RegistryView {
            name: self.name@,
            push: self.push,
            push_by_digest: self.push_by_digest,
            insecure_registry: self.insecure_registry,
            dangling_name_prefix: self.dangling_name_prefix@,
            name_canonical: self.name_canonical,
            compression: self.compression,
            compression_level: self.compression_level,
            force_compression: self.force_compression,
            oci_mediatypes: self.oci_mediatypes,
            unpack: self.unpack,
            store: self.store,
            annotation: text_values(self.annotation@),
        }
    }

    /// The options of a fresh registry exporter for `name`: every flag off,
    /// no dangling-name prefix, GZIP without a level, no annotations.
    pub open spec fn defaults(name: Seq<char>) -> RegistryView {
        RegistryView {
            name,
            push: false,
            push_by_digest: false,
            insecure_registry: false,
            dangling_name_prefix: Seq::empty(),
            name_canonical: false,
            compression: ImageBuildOutputCompression::Gzip,
            compression_level: None,
            force_compression: false,
            oci_mediatypes: false,
            unpack: false,
            store: false,
            annotation: Map::empty(),
        }
    }

    /// A builder for a registry exporter of the image `name`.
    pub fn builder(name: &str) -> (res: ImageRegistryOutputBuilder)
        ensures
            res@ == ImageRegistryOutput::defaults(name@),
    {
        ImageRegistryOutputBuilder::new(name)
    }

    /// A fresh registry exporter for `name` (see `defaults`).
    pub fn new(name: &str) -> (res: Self)
        ensures
            res@ == ImageRegistryOutput::defaults(name@),
    {
        let res = ImageRegistryOutput {
            name: owned(name),
            push: false,
            push_by_digest: false,
            insecure_registry: false,
            dangling_name_prefix: String::new(),
            name_canonical: false,
            compression: ImageBuildOutputCompression::Gzip,
            compression_level: None,
            force_compression: false,
            oci_mediatypes: false,
            unpack: false,
            store: false,
            annotation: StrMap::new(),
        };
        assert(res@.annotation =~= Map::empty());
        assert(res@.dangling_name_prefix =~= Seq::<char>::empty());
        res
    }

    /// The exporter attributes for BuildKit (see `registry_attrs`).
    pub fn into_map(self) -> (res: StrMap<String>)
        ensures
            text_values(res@) == registry_attrs(self@),
    {
        let ghost v = self@;
        let mut attrs: StrMap<String> = StrMap::new();
        assert(text_values(attrs@) =~= Map::empty());
        put(&mut attrs, "name", self.name);
        put(&mut attrs, "push", bool_string(self.push));
        put(&mut attrs, "push-by-digest", bool_string(self.push_by_digest));
        put(&mut attrs, "registry.insecure", bool_string(self.insecure_registry));
        put(&mut attrs, "dangling_name_prefix", self.dangling_name_prefix);
        put(&mut attrs, "name_canonical", bool_string(self.name_canonical));
        put(&mut attrs, "compression", self.compression.to_string());
        if let Some(level) = self.compression_level {
            put(&mut attrs, "compression-level", decimal_string(level as u64));
        }
        put(&mut attrs, "force-compression", bool_string(self.force_compression));
        put(&mut attrs, "oci-mediatypes", bool_string(self.oci_mediatypes));
        put(&mut attrs, "unpack", bool_string(self.unpack));
        put(&mut attrs, "store", bool_string(self.store));
        insert_annotations(&mut attrs, self.annotation);
        attrs
    }
}

/// Builds the options of a registry exporter.
pub struct ImageRegistryOutputBuilder {
    inner: ImageRegistryOutput,
}

impl ImageRegistryOutputBuilder {
    /// The options built so far.
    pub closed spec fn view(&self) -> RegistryView {
        self.inner@
    }

    /// A builder for a registry exporter of the image `name`.
    pub fn new(name: &str) -> (res: Self)
        ensures
            res@ == ImageRegistryOutput::defaults(name@),
    {
        ImageRegistryOutputBuilder { inner: ImageRegistryOutput::new(name) }
    }

    /// Sets whether the image is pushed.
    pub fn push(self, push: bool) -> (res: Self)
        ensures
            res@ == (RegistryView { push, ..self@ }),
            res@ == apply_setter(self@, RegistrySetter::Push(push)),
    {
        let mut s = self;
        s.inner.push = push;
        s
    }

    /// Sets whether the image is pushed by digest.
    pub fn push_by_digest(self, push_by_digest: bool) -> (res: Self)
        ensures
            res@ == (RegistryView { push_by_digest, ..self@ }),
            res@ == apply_setter(self@, RegistrySetter::PushByDigest(push_by_digest)),
    {
        let mut s = self;
        s.inner.push_by_digest = push_by_digest;
        s
    }

    /// Sets whether the registry is reached without TLS verification.
    pub fn insecure_registry(self, insecure_registry: bool) -> (res: Self)
        ensures
            res@ == (RegistryView { insecure_registry, ..self@ }),
            res@ == apply_setter(self@, RegistrySetter::InsecureRegistry(insecure_registry)),
    {
        let mut s = self;
        s.inner.insecure_registry = insecure_registry;
        s
    }

    /// Sets the name prefix of dangling images.
    pub fn dangling_name_prefix(self, dangling_name_prefix: &str) -> (res: Self)
        ensures
            res@ == (RegistryView { dangling_name_prefix: dangling_name_prefix@, ..self@ }),
            res@ == apply_setter(self@, RegistrySetter::DanglingNamePrefix(dangling_name_prefix@)),
    {
        let mut s = self;
        s.inner.dangling_name_prefix = owned(dangling_name_prefix);
        s
    }

    /// Sets whether the name is canonical.
    pub fn name_canonical(self, name_canonical: bool) -> (res: Self)
        ensures
            res@ == (RegistryView { name_canonical, ..self@ }),
            res@ == apply_setter(self@, RegistrySetter::NameCanonical(name_canonical)),
    {
        let mut s = self;
        s.inner.name_canonical = name_canonical;
        s
    }

    /// Sets the compression.
    pub fn compression(self, compression: &ImageBuildOutputCompression) -> (res: Self)
        ensures
            res@ == (RegistryView { compression: *compression, ..self@ }),
            res@ == apply_setter(self@, RegistrySetter::Compression(*compression)),
    {
        let mut s = self;
        s.inner.compression = *compression;
        s
    }

    /// Sets the compression level.
    pub fn compression_level(self, compression_level: u8) -> (res: Self)
        ensures
            res@ == (RegistryView { compression_level: Some(compression_level), ..self@ }),
            res@ == apply_setter(self@, RegistrySetter::CompressionLevel(compression_level)),
    {
        let mut s = self;
        s.inner.compression_level = Some(compression_level);
        s
    }

    /// Sets whether compression is forced.
    pub fn force_compression(self, force_compression: bool) -> (res: Self)
        ensures
            res@ == (RegistryView { force_compression, ..self@ }),
            res@ == apply_setter(self@, RegistrySetter::ForceCompression(force_compression)),
    {
        let mut s = self;
        s.inner.force_compression = force_compression;
        s
    }

    /// Sets whether OCI media types are used.
    pub fn oci_mediatypes(self, oci_mediatypes: bool) -> (res: Self)
        ensures
            res@ == (RegistryView { oci_mediatypes, ..self@ }),
            res@ == apply_setter(self@, RegistrySetter::OciMediatypes(oci_mediatypes)),
    {
        let mut s = self;
        s.inner.oci_mediatypes = oci_mediatypes;
        s
    }

    /// Sets whether the image is unpacked.
    pub fn unpack(self, unpack: bool) -> (res: Self)
        ensures
            res@ == (RegistryView { unpack, ..self@ }),
            res@ == apply_setter(self@, RegistrySetter::Unpack(unpack)),
    {
        let mut s = self;
        s.inner.unpack = unpack;
        s
    }

    /// Sets whether the image is stored.
    pub fn store(self, store: bool) -> (res: Self)
        ensures
            res@ == (RegistryView { store, ..self@ }),
            res@ == apply_setter(self@, RegistrySetter::Store(store)),
    {
        let mut s = self;
        s.inner.store = store;
        s
    }

    /// Adds (or replaces) an annotation.
    pub fn annotation(self, key: &str, value: &str) -> (res: Self)
        ensures
            res@ == (RegistryView { annotation: self@.annotation.insert(key@, value@), ..self@ }),
            res@ == apply_setter(self@, RegistrySetter::Annotation(key@, value@)),
    {
        let mut s = self;
        let ghost before = s.inner.annotation@;
        let v = owned(value);
        let ghost vv = v;
        s.inner.annotation.insert(owned(key), v);
        proof {
            lemma_text_values_insert(before, key@, vv);
        }
        s
    }

    /// The options built.
    pub fn consume(self) -> (res: ImageRegistryOutput)
        ensures
            res@ == self@,
    {
        self.inner
    }
}

/// One setter call of `ImageRegistryOutputBuilder`, with its arguments.
pub enum RegistrySetter {
    Push(bool),
    PushByDigest(bool),
    InsecureRegistry(bool),
    DanglingNamePrefix(Seq<char>),
    NameCanonical(bool),
    Compression(ImageBuildOutputCompression),
    CompressionLevel(u8),
    ForceCompression(bool),
    OciMediatypes(bool),
    Unpack(bool),
    Store(bool),
    Annotation(Seq<char>, Seq<char>),
}

/// What one setter call does to the options (as each setter's contract
/// states).
pub open spec fn apply_setter(v: RegistryView, s: RegistrySetter) -> RegistryView {
    match s {
        RegistrySetter::Push(b) => RegistryView { push: b, ..v },
        RegistrySetter::PushByDigest(b) => RegistryView { push_by_digest: b, ..v },
        RegistrySetter::InsecureRegistry(b) => RegistryView { insecure_registry: b, ..v },
        RegistrySetter::DanglingNamePrefix(p) => RegistryView { dangling_name_prefix: p, ..v },
        RegistrySetter::NameCanonical(b) => RegistryView { name_canonical: b, ..v },
        RegistrySetter::Compression(c) => RegistryView { compression: c, ..v },
        RegistrySetter::CompressionLevel(l) => RegistryView { compression_level: Some(l), ..v },
        RegistrySetter::ForceCompression(b) => RegistryView { force_compression: b, ..v },
        RegistrySetter::OciMediatypes(b) => RegistryView { oci_mediatypes: b, ..v },
        RegistrySetter::Unpack(b) => RegistryView { unpack: b, ..v },
        RegistrySetter::Store(b) => RegistryView { store: b, ..v },
        RegistrySetter::Annotation(k, x) => RegistryView { annotation: v.annotation.insert(k, x), ..v },
    }
}

/// The options after the setter calls `ops`, in order.
pub open spec fn apply_setters(v: RegistryView, ops: Seq<RegistrySetter>) -> RegistryView
    decreases ops.len(),
{
    if ops.len() == 0 {
        v
    } else {
        apply_setter(apply_setters(v, ops.drop_last()), ops.last())
    }
}

/// Which option a setter writes, numbered in declaration order
/// (annotations are 11).
pub open spec fn setter_kind(s: RegistrySetter) -> nat {
    match s {
        RegistrySetter::Push(_) => 0,
        RegistrySetter::PushByDigest(_) => 1,
        RegistrySetter::InsecureRegistry(_) => 2,
        RegistrySetter::DanglingNamePrefix(_) => 3,
        RegistrySetter::NameCanonical(_) => 4,
        RegistrySetter::Compression(_) => 5,
        RegistrySetter::CompressionLevel(_) => 6,
        RegistrySetter::ForceCompression(_) => 7,
        RegistrySetter::OciMediatypes(_) => 8,
        RegistrySetter::Unpack(_) => 9,
        RegistrySetter::Store(_) => 10,
        RegistrySetter::Annotation(_, _) => 11,
    }
}

/// The last call among `ops` of the setter of kind `kind`, if any.
pub open spec fn last_of_kind(ops: Seq<RegistrySetter>, kind: nat) -> Option<RegistrySetter>
    decreases ops.len(),
{
    if ops.len() == 0 {
        None
    } else if setter_kind(ops.last()) == kind {
        Some(ops.last())
    } else {
        last_of_kind(ops.drop_last(), kind)
    }
}

/// The value of the last annotation call for `key` among `ops`, if any.
pub open spec fn last_annotation(ops: Seq<RegistrySetter>, key: Seq<char>) -> Option<Seq<char>>
    decreases ops.len(),
{
    if ops.len() == 0 {
        None
    } else {
        match ops.last() {
            RegistrySetter::Annotation(k, x) => if k == key { Some(x) } else { last_annotation(ops.drop_last(), key) },
            _ => last_annotation(ops.drop_last(), key),
        }
    }
}

/// The option a flag setter writes last, or `default` when none is called.
pub open spec fn last_flag(ops: Seq<RegistrySetter>, kind: nat, default: bool) -> bool {
    match last_of_kind(ops, kind) {
        Some(RegistrySetter::Push(b)) => b,
        Some(RegistrySetter::PushByDigest(b)) => b,
        Some(RegistrySetter::InsecureRegistry(b)) => b,
        Some(RegistrySetter::NameCanonical(b)) => b,
        Some(RegistrySetter::ForceCompression(b)) => b,
        Some(RegistrySetter::OciMediatypes(b)) => b,
        Some(RegistrySetter::Unpack(b)) => b,
        Some(RegistrySetter::Store(b)) => b,
        _ => default,
    }
}

proof fn lemma_setters_keep_last_values(v: RegistryView, ops: Seq<RegistrySetter>)
    ensures
        ({
            let r = apply_setters(v, ops);
            &&& r.name == v.name
            &&& r.push == last_flag(ops, 0, v.push)
            &&& r.push_by_digest == last_flag(ops, 1, v.push_by_digest)
            &&& r.insecure_registry == last_flag(ops, 2, v.insecure_registry)
            &&& r.dangling_name_prefix == (match last_of_kind(ops, 3) {
                Some(RegistrySetter::DanglingNamePrefix(p)) => p,
                _ => v.dangling_name_prefix,
            })
            &&& r.name_canonical == last_flag(ops, 4, v.name_canonical)
            &&& r.compression == (match last_of_kind(ops, 5) {
                Some(RegistrySetter::Compression(c)) => c,
                _ => v.compression,
            })
            &&& r.compression_level == (match last_of_kind(ops, 6) {
                Some(RegistrySetter::CompressionLevel(l)) => Some(l),
                _ => v.compression_level,
            })
            &&& r.force_compression == last_flag(ops, 7, v.force_compression)
            &&& r.oci_mediatypes == last_flag(ops, 8, v.oci_mediatypes)
            &&& r.unpack == last_flag(ops, 9, v.unpack)
            &&& r.store == last_flag(ops, 10, v.store)
            &&& forall|k: Seq<char>| #[trigger] r.annotation.contains_key(k) <==> (v.annotation.contains_key(k)
                || last_annotation(ops, k) is Some)
            &&& forall|k: Seq<char>| #[trigger] r.annotation.contains_key(k) ==> r.annotation[k] == (match last_annotation(ops, k) {
                Some(x) => x,
                None => v.annotation[k],
            })
        }),
    decreases ops.len(),
{
    if ops.len() > 0 {
        lemma_setters_keep_last_values(v, ops.drop_last());
    }
}

/// A builder's options are the defaults for its image name, except that
/// each option written by a setter holds the argument of that setter's last
/// call (a compression level `l` as `Some(l)`), and each annotation key maps
/// to the value of the last annotation call for it.
pub proof fn law_registry_setters_keep_last_values(name: Seq<char>, ops: Seq<RegistrySetter>)
    ensures
        ({
            let d = ImageRegistryOutput::defaults(name);
            let r = apply_setters(d, ops);
            &&& r.name == name
            &&& r.push == last_flag(ops, 0, false)
            &&& r.push_by_digest == last_flag(ops, 1, false)
            &&& r.insecure_registry == last_flag(ops, 2, false)
            &&& r.dangling_name_prefix == (match last_of_kind(ops, 3) {
                Some(RegistrySetter::DanglingNamePrefix(p)) => p,
                _ => Seq::<char>::empty(),
            })
            &&& r.name_canonical == last_flag(ops, 4, false)
            &&& r.compression == (match last_of_kind(ops, 5) {
                Some(RegistrySetter::Compression(c)) => c,
                _ => ImageBuildOutputCompression::Gzip,
            })
            &&& r.compression_level == (match last_of_kind(ops, 6) {
                Some(RegistrySetter::CompressionLevel(l)) => Some(l),
                _ => None,
            })
            &&& r.force_compression == last_flag(ops, 7, false)
            &&& r.oci_mediatypes == last_flag(ops, 8, false)
            &&& r.unpack == last_flag(ops, 9, false)
            &&& r.store == last_flag(ops, 10, false)
            &&& forall|k: Seq<char>| #[trigger] r.annotation.contains_key(k) <==> last_annotation(ops, k) is Some
            &&& forall|k: Seq<char>| #[trigger] r.annotation.contains_key(k) ==> r.annotation[k] == last_annotation(ops, k)->0
        }),
{
    lemma_setters_keep_last_values(ImageRegistryOutput::defaults(name), ops);
}

} // verus!
