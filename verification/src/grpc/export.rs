//! The `oci`/`docker` image exporter of BuildKit: its options and the
//! attributes they become.

use vstd::prelude::*;
use crate::grpc::image_build::{compression_text, ImageBuildOutputCompression};
use crate::strmap::StrMap;
use crate::text::{bool_string, bool_text, decimal_string, decimal_text, owned, push_all};

verus! {

broadcast use vstd::string::group_string_axioms;

/// Compression of an OCI exporter output.
#[derive(Debug, Copy, Clone, PartialEq, Eq, Structural)]
pub enum ImageExporterOCIOutputCompression {
    /// Uncompressed.
    Uncompressed,
    /// GZIP (the default).
    Gzip,
    /// A stargz snapshot.
    Estargz,
    /// Zstandard.
    Zstd,
}

impl Default for ImageExporterOCIOutputCompression {
    fn default() -> (res: Self)
        ensures
            res == ImageExporterOCIOutputCompression::Gzip,
    {
        ImageExporterOCIOutputCompression::Gzip
    }
}

/// The name BuildKit uses for an OCI compression.
pub open spec fn oci_compression_text(c: ImageExporterOCIOutputCompression) -> Seq<char> {
    match c {
        ImageExporterOCIOutputCompression::Uncompressed => "uncompressed"@,
        ImageExporterOCIOutputCompression::Gzip => "gzip"@,
        ImageExporterOCIOutputCompression::Estargz => "estargz"@,
        ImageExporterOCIOutputCompression::Zstd => "zstd"@,
    }
}

/// The image-build compression of the same name.
pub open spec fn build_compression(c: ImageExporterOCIOutputCompression) -> ImageBuildOutputCompression {
    match c {
        ImageExporterOCIOutputCompression::Uncompressed => ImageBuildOutputCompression::Uncompressed,
        ImageExporterOCIOutputCompression::Gzip => ImageBuildOutputCompression::Gzip,
        ImageExporterOCIOutputCompression::Estargz => ImageBuildOutputCompression::Estargz,
        ImageExporterOCIOutputCompression::Zstd => ImageBuildOutputCompression::Zstd,
    }
}

/// The OCI exporter and the image build name each compression the same way
/// (the names BuildKit knows), and no two compressions share a name.
pub proof fn law_compression_names_agree(c: ImageExporterOCIOutputCompression, d: ImageExporterOCIOutputCompression)
    ensures
        oci_compression_text(c) == compression_text(build_compression(c)),
        oci_compression_text(c) == oci_compression_text(d) ==> c == d,
{
    reveal_strlit("uncompressed");
    reveal_strlit("gzip");
    reveal_strlit("estargz");
    reveal_strlit("zstd");
    if oci_compression_text(c) == oci_compression_text(d) && c != d {
        assert(oci_compression_text(c).len() != oci_compression_text(d).len()
            || oci_compression_text(c)[0] != oci_compression_text(d)[0]);
    }
}

impl ImageExporterOCIOutputCompression {
    /// The name BuildKit uses for this compression.
    pub fn to_string(&self) -> (res: String)
        ensures
            res@ == oci_compression_text(*self),
    {
        match self {
            ImageExporterOCIOutputCompression::Uncompressed => owned("uncompressed"),
            ImageExporterOCIOutputCompression::Gzip => owned("gzip"),
            ImageExporterOCIOutputCompression::Estargz => owned("estargz"),
            ImageExporterOCIOutputCompression::Zstd => owned("zstd"),
        }
    }
}

/// The text values of a string map.
pub open spec fn text_values(m: Map<Seq<char>, String>) -> Map<Seq<char>, Seq<char>> {
    m.map_values(|s: String| s@)
}

/// The prefix of an annotation attribute.
pub open spec fn annotation_prefix() -> Seq<char> {
    "annotation."@
}

/// The annotations as exporter attributes: each key gets the prefix
/// `annotation.`.
pub open spec fn annotation_attrs(annotations: Map<Seq<char>, Seq<char>>) -> Map<Seq<char>, Seq<char>> {
    Map::new(
        |k: Seq<char>| k.len() >= 11 && k.take(11) == annotation_prefix() && annotations.contains_key(k.skip(11)),
        |k: Seq<char>| annotations[k.skip(11)],
    )
}

/// The options of an image exporter, as the contracts see them.
pub struct ExporterView {
    pub name: Seq<char>,
    pub compression: ImageBuildOutputCompression,
    pub compression_level: Option<u8>,
    pub force_compression: bool,
    pub oci_mediatypes: bool,
    pub annotation: Map<Seq<char>, Seq<char>>,
}

/// Where and how an image is exported.
pub struct ImageExporterOutput {
    pub(crate) name: String,
    pub(crate) compression: ImageBuildOutputCompression,
    pub(crate) compression_level: Option<u8>,
    pub(crate) force_compression: bool,
    pub(crate) oci_mediatypes: bool,
    pub(crate) annotation: StrMap<String>,
}

/// The attributes an exporter with these options is given.
pub open spec fn exporter_attrs(o: ExporterView) -> Map<Seq<char>, Seq<char>> {
    let base = map![
        "name"@ => o.name,
        "compression"@ => compression_text(o.compression),
        "force-compression"@ => bool_text(o.force_compression),
        "oci-mediatypes"@ => bool_text(o.oci_mediatypes),
    ];
    let with_level = match o.compression_level {
        Some(l) => base.insert("compression-level"@, decimal_text(l as nat)),
        None => base,
    };
    with_level.union_prefer_right(annotation_attrs(o.annotation))
}

/// Inserting into a string map changes its text values at that key only.
pub proof fn lemma_text_values_insert(m: Map<Seq<char>, String>, k: Seq<char>, s: String)
    ensures
        text_values(m.insert(k, s)) == text_values(m).insert(k, s@),
{
    assert(text_values(m.insert(k, s)) =~= text_values(m).insert(k, s@));
}

/// Adding an annotation adds one prefixed attribute.
pub proof fn lemma_annotation_attrs_insert(a: Map<Seq<char>, Seq<char>>, k: Seq<char>, v: Seq<char>)
    ensures
        annotation_attrs(a.insert(k, v)) == annotation_attrs(a).insert(annotation_prefix() + k, v),
{
    let key = annotation_prefix() + k;
    reveal_strlit("annotation.");
    assert(key.take(11) =~= annotation_prefix());
    assert(key.skip(11) =~= k);
    assert forall|x: Seq<char>| x.len() >= 11 && x.take(11) == annotation_prefix() && x.skip(11) == k implies x == key by {
        assert(x =~= x.take(11) + x.skip(11));
    }
    assert(annotation_attrs(a.insert(k, v)) =~= annotation_attrs(a).insert(key, v));
}

/// Adds the annotations to `attrs` under prefixed keys.
pub(crate) fn insert_annotations(attrs: &mut StrMap<String>, annotations: StrMap<String>)
    ensures
        text_values(final(attrs)@) == text_values(old(attrs)@).union_prefer_right(annotation_attrs(text_values(annotations@))),
{
    let ghost start = text_values(attrs@);
    let entries = annotations.entries();
    let mut i: usize = 0;
    assert(entries@.take(0) =~= Seq::<(String, String)>::empty());
    assert(annotation_attrs(text_values(crate::strmap::entries_map(entries@.take(0)))) =~= Map::empty());
    assert(start.union_prefer_right(Map::empty()) =~= start);
    while i < entries.len()
        invariant
            i <= entries@.len(),
            annotations@ == crate::strmap::entries_map(entries@),
            text_values(attrs@) == start.union_prefer_right(
                annotation_attrs(text_values(crate::strmap::entries_map(entries@.take(i as int)))),
            ),
        decreases entries@.len() - i,
    {
        let ghost before = attrs@;
        let ghost part = text_values(crate::strmap::entries_map(entries@.take(i as int)));
        let mut key = owned("annotation.");
        push_all(&mut key, entries[i].0.as_str());
        let value = owned(entries[i].1.as_str());
        attrs.insert(key, value);
        proof {
            reveal_strlit("annotation.");
            let k0 = entries@[i as int].0@;
            let v0 = entries@[i as int].1@;
            assert(entries@.take(i + 1).drop_last() =~= entries@.take(i as int));
            lemma_text_values_insert(crate::strmap::entries_map(entries@.take(i as int)), k0, entries@[i as int].1);
            lemma_annotation_attrs_insert(part, k0, v0);
            lemma_text_values_insert(before, annotation_prefix() + k0, value);
            assert(key@ == annotation_prefix() + k0);
            assert(text_values(attrs@) =~= start.union_prefer_right(annotation_attrs(part.insert(k0, v0))));
        }
        i = i + 1;
    }
    assert(entries@.take(entries@.len() as int) =~= entries@);
}

impl ImageExporterOutput {
    /// The options.
    pub closed spec fn view(&self) -> ExporterView {
        ExporterView {
            name: self.name@,
            compression: self.compression,
            compression_level: self.compression_level,
            force_compression: self.force_compression,
            oci_mediatypes: self.oci_mediatypes,
            annotation: text_values(self.annotation@),
        }
    }

    /// A builder for an exporter writing the image `name`.
    pub fn builder(name: &str) -> (res: ImageExporterOutputBuilder)
        ensures
            res@ == ImageExporterOutput::defaults(name@),
    {
        ImageExporterOutputBuilder::new(name)
    }

    /// The options of a fresh exporter for `name`: GZIP, no level, no forced
    /// compression, Docker media types, no annotations.
    pub open spec fn defaults(name: Seq<char>) -> ExporterView {
        ExporterView {
            name,
            compression: ImageBuildOutputCompression::Gzip,
            compression_level: None,
            force_compression: false,
            oci_mediatypes: false,
            annotation: Map::empty(),
        }
    }

    /// A fresh exporter for `name` (see `defaults`).
    pub fn new(name: &str) -> (res: Self)
        ensures
            res@ == ImageExporterOutput::defaults(name@),
    {
        let res = ImageExporterOutput {
            name: owned(name),
            compression: ImageBuildOutputCompression::Gzip,
            compression_level: None,
            force_compression: false,
            oci_mediatypes: false,
            annotation: StrMap::new(),
        };
        assert(res@.annotation =~= Map::empty());
        res
    }

    /// The exporter attributes for BuildKit (see `exporter_attrs`).
    pub fn into_map(self) -> (res: StrMap<String>)
        ensures
            text_values(res@) == exporter_attrs(self@),
    {
        let ghost v = self@;
        let mut attrs: StrMap<String> = StrMap::new();
        let ghost m0 = attrs@;
        let name = self.name;
        let ghost name_v = name;
        attrs.insert(owned("name"), name);
        proof { lemma_text_values_insert(m0, "name"@, name_v); }
        let ghost m1 = attrs@;
        let c = self.compression.to_string();
        let ghost c_v = c;
        attrs.insert(owned("compression"), c);
        proof { lemma_text_values_insert(m1, "compression"@, c_v); }
        if let Some(level) = self.compression_level {
            let ghost m2 = attrs@;
            let l = decimal_string(level as u64);
            let ghost l_v = l;
            attrs.insert(owned("compression-level"), l);
            proof { lemma_text_values_insert(m2, "compression-level"@, l_v); }
        }
        let ghost m3 = attrs@;
        let f = bool_string(self.force_compression);
        let ghost f_v = f;
        attrs.insert(owned("force-compression"), f);
        proof { lemma_text_values_insert(m3, "force-compression"@, f_v); }
        let ghost m4 = attrs@;
        let o = bool_string(self.oci_mediatypes);
        let ghost o_v = o;
        attrs.insert(owned("oci-mediatypes"), o);
        proof { lemma_text_values_insert(m4, "oci-mediatypes"@, o_v); }
        proof {
            reveal_strlit("name");
            reveal_strlit("compression");
            reveal_strlit("compression-level");
            reveal_strlit("force-compression");
            reveal_strlit("oci-mediatypes");
            reveal_strlit("annotation.");
            let base = map![
                "name"@ => v.name,
                "compression"@ => compression_text(v.compression),
                "force-compression"@ => bool_text(v.force_compression),
                "oci-mediatypes"@ => bool_text(v.oci_mediatypes),
            ];
            let with_level = match v.compression_level {
                Some(l) => base.insert("compression-level"@, decimal_text(l as nat)),
                None => base,
            };
            assert(text_values(m0) =~= Map::empty());
            assert(text_values(m1) =~= map!["name"@ => v.name]);
            assert(text_values(m3) =~= (match v.compression_level {
                Some(l) => map!["name"@ => v.name, "compression"@ => compression_text(v.compression)].insert("compression-level"@, decimal_text(l as nat)),
                None => map!["name"@ => v.name, "compression"@ => compression_text(v.compression)],
            }));
            assert(text_values(attrs@) == text_values(m3).insert("force-compression"@, bool_text(v.force_compression)).insert("oci-mediatypes"@, bool_text(v.oci_mediatypes)));
            assert("compression-level"@[0] != "force-compression"@[0]);
            assert("compression-level"@[0] != "oci-mediatypes"@[0]);
            assert("compression-level"@.len() != "compression"@.len());
            assert("compression-level"@[0] != "name"@[0]);
            assert("force-compression"@[0] != "name"@[0]);
            assert("force-compression"@[0] != "compression"@[0]);
            assert("force-compression"@[0] != "oci-mediatypes"@[0]);
            assert("oci-mediatypes"@[0] != "name"@[0]);
            assert("oci-mediatypes"@[0] != "compression"@[0]);
            assert("name"@[0] != "compression"@[0]);
            assert(text_values(attrs@) =~= with_level);
        }
        insert_annotations(&mut attrs, self.annotation);
        attrs
    }
}

/// Builds the options of an image exporter.
pub struct ImageExporterOutputBuilder {
    inner: ImageExporterOutput,
}

/// An exporter's options with the path the image is written to.
pub struct ImageExporterRequest {
    pub(crate) output: ImageExporterOutput,
    pub(crate) path: String,
}

impl ImageExporterRequest {
    /// The exporter options.
    pub closed spec fn output_view(&self) -> ExporterView {
        self.output@
    }

    /// The destination path.
    pub closed spec fn path_view(&self) -> Seq<char> {
        self.path@
    }

    /// The exporter options and the destination path.
    pub fn into_parts(self) -> (res: (ImageExporterOutput, String))
        ensures
            res.0@ == self.output_view(),
            res.1@ == self.path_view(),
    {
        (self.output, self.path)
    }
}

impl ImageExporterOutputBuilder {
    /// The options built so far.
    pub closed spec fn view(&self) -> ExporterView {
        self.inner@
    }

    /// A builder for an exporter writing the image `name`.
    pub fn new(name: &str) -> (res: Self)
        ensures
            res@ == ImageExporterOutput::defaults(name@),
    {
        ImageExporterOutputBuilder { inner: ImageExporterOutput::new(name) }
    }

    /// Sets the compression.
    pub fn compression(self, compression: &ImageBuildOutputCompression) -> (res: Self)
        ensures
            res@ == (ExporterView { compression: *compression, ..self@ }),
    {
        let mut s = self;
        s.inner.compression = *compression;
        s
    }

    /// Sets the compression level.
    pub fn compression_level(self, compression_level: u8) -> (res: Self)
        ensures
            res@ == (ExporterView { compression_level: Some(compression_level), ..self@ }),
    {
        let mut s = self;
        s.inner.compression_level = Some(compression_level);
        s
    }

    /// Sets whether compression is forced.
    pub fn force_compression(self, force_compression: bool) -> (res: Self)
        ensures
            res@ == (ExporterView { force_compression, ..self@ }),
    {
        let mut s = self;
        s.inner.force_compression = force_compression;
        s
    }

    /// Sets whether OCI media types are used.
    pub fn oci_mediatypes(self, oci_mediatypes: bool) -> (res: Self)
        ensures
            res@ == (ExporterView { oci_mediatypes, ..self@ }),
    {
        let mut s = self;
        s.inner.oci_mediatypes = oci_mediatypes;
        s
    }

    /// Adds (or replaces) an annotation.
    pub fn annotation(self, key: &str, value: &str) -> (res: Self)
        ensures
            res@ == (ExporterView { annotation: self@.annotation.insert(key@, value@), ..self@ }),
    {
        let mut s = self;
        let ghost before = s.inner.annotation@;
        s.inner.annotation.insert(owned(key), owned(value));
        assert(text_values(s.inner.annotation@) =~= text_values(before).insert(key@, value@));
        s
    }

    /// The request that exports to `path`.
    pub fn dest(self, path: &str) -> (res: ImageExporterRequest)
        ensures
            res.output_view() == self@,
            res.path_view() == path@,
    {
        ImageExporterRequest { output: self.inner, path: owned(path) }
    }
}

} // verus!
