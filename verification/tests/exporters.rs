use bollard::grpc::export::{ImageExporterOCIOutputCompression, ImageExporterOutput};
use bollard::grpc::image_build::ImageBuildOutputCompression;
use bollard::grpc::registry::ImageRegistryOutput;

#[test]
fn exporter_defaults_become_attributes() {
    let map = ImageExporterOutput::new("img").into_map();
    assert_eq!(map.get("name").map(String::as_str), Some("img"));
    assert_eq!(map.get("compression").map(String::as_str), Some("gzip"));
    assert!(map.get("compression-level").is_none());
    assert_eq!(map.get("force-compression").map(String::as_str), Some("false"));
    assert_eq!(map.get("oci-mediatypes").map(String::as_str), Some("false"));
    assert_eq!(map.len(), 4);
}

#[test]
fn exporter_options_become_attributes() {
    let request = ImageExporterOutput::builder("img")
        .compression(&ImageBuildOutputCompression::Zstd)
        .compression_level(3)
        .force_compression(true)
        .oci_mediatypes(true)
        .annotation("org.opencontainers.image.title", "t")
        .annotation("k", "1")
        .annotation("k", "2")
        .dest("/tmp/out.tar");
    let (output, path) = request.into_parts();
    assert_eq!(path, "/tmp/out.tar");
    let map = output.into_map();
    let get = |k: &str| map.get(k).map(String::as_str);
    assert_eq!(get("name"), Some("img"));
    assert_eq!(get("compression"), Some("zstd"));
    assert_eq!(get("compression-level"), Some("3"));
    assert_eq!(get("force-compression"), Some("true"));
    assert_eq!(get("oci-mediatypes"), Some("true"));
    assert_eq!(get("annotation.org.opencontainers.image.title"), Some("t"));
    assert_eq!(get("annotation.k"), Some("2"));
    assert_eq!(map.len(), 7);
}

#[test]
fn registry_options_become_attributes() {
    let output = ImageRegistryOutput::builder("reg/img:tag")
        .push(true)
        .push_by_digest(false)
        .insecure_registry(true)
        .dangling_name_prefix("prefix")
        .name_canonical(true)
        .compression(&ImageBuildOutputCompression::Estargz)
        .compression_level(9)
        .force_compression(false)
        .oci_mediatypes(true)
        .unpack(false)
        .store(true)
        .annotation("a", "b")
        .consume();
    let map = output.into_map();
    let get = |k: &str| map.get(k).map(String::as_str);
    assert_eq!(get("name"), Some("reg/img:tag"));
    assert_eq!(get("push"), Some("true"));
    assert_eq!(get("push-by-digest"), Some("false"));
    assert_eq!(get("registry.insecure"), Some("true"));
    assert_eq!(get("dangling_name_prefix"), Some("prefix"));
    assert_eq!(get("name_canonical"), Some("true"));
    assert_eq!(get("compression"), Some("estargz"));
    assert_eq!(get("compression-level"), Some("9"));
    assert_eq!(get("force-compression"), Some("false"));
    assert_eq!(get("oci-mediatypes"), Some("true"));
    assert_eq!(get("unpack"), Some("false"));
    assert_eq!(get("store"), Some("true"));
    assert_eq!(get("annotation.a"), Some("b"));
    assert_eq!(map.len(), 13);
}

#[test]
fn registry_defaults_become_attributes() {
    let map = ImageRegistryOutput::new("x").into_map();
    assert_eq!(map.get("dangling_name_prefix").map(String::as_str), Some(""));
    assert_eq!(map.get("push").map(String::as_str), Some("false"));
    assert_eq!(map.len(), 11);
}

#[test]
fn compressions_have_buildkit_names() {
    assert_eq!(ImageBuildOutputCompression::Uncompressed.to_string(), "uncompressed");
    assert_eq!(ImageBuildOutputCompression::default().to_string(), "gzip");
    assert_eq!(ImageExporterOCIOutputCompression::Zstd.to_string(), "zstd");
    assert_eq!(ImageExporterOCIOutputCompression::default(), ImageExporterOCIOutputCompression::Gzip);
}

#[test]
fn registry_setters_keep_their_last_values() {
    let map = ImageRegistryOutput::builder("img")
        .push(true)
        .annotation("k", "first")
        .compression_level(3)
        .push(false)
        .annotation("k", "second")
        .annotation("j", "other")
        .compression_level(5)
        .consume()
        .into_map();
    let get = |k: &str| map.get(k).map(String::as_str);
    assert_eq!(get("push"), Some("false"));
    assert_eq!(get("compression-level"), Some("5"));
    assert_eq!(get("annotation.k"), Some("second"));
    assert_eq!(get("annotation.j"), Some("other"));
    assert_eq!(get("store"), Some("false"));
    assert_eq!(get("name"), Some("img"));
}
