use wasm_pkg::backend::{
    choose_backend, should_fetch_metadata, LocalConfig, versions_from_file_names, versions_from_tags, BackendKind, DriverMap,
    LocalBackend,
};
use wasm_pkg::cache::{list_versions_allowed, reopen_after_put, serve_from, FileCache, Source};
use wasm_pkg::config::RegistryConfig;
use wasm_pkg::digest::ContentDigest;
use wasm_pkg::error::Error;
use wasm_pkg::metadata::RegistryMetadata;
use wasm_pkg::oci::{
    after_anonymous_retry, after_preflight, auth_source, oci_annotations, release_from_layers, AuthSource, AuthStep,
    OciLocation, Preflight, Metadata,
};
use wasm_pkg::package::PackageRef;
use wasm_pkg::registry::Registry;
use wasm_pkg::textmap::TextMap;
use wasm_pkg::version::Version;

fn strings(v: &[&str]) -> Vec<String> {
    v.iter().map(|s| s.to_string()).collect()
}

fn meta_preferring(p: &str) -> RegistryMetadata {
    RegistryMetadata::from_parts(Some(p.to_string()), TextMap::new(), None, None, None)
}

#[test]
fn oci_tag_filtering() {
    let tags = strings(&["0.1.0", "0.2.0", "sha256-abc", "latest", "not-a-version"]);
    let (versions, ignored) = versions_from_tags(&tags);
    let texts: Vec<String> = versions.iter().map(|v| v.version.to_string()).collect();
    assert_eq!(texts, strings(&["0.1.0", "0.2.0"]));
    assert!(versions.iter().all(|v| !v.yanked));
    assert_eq!(ignored, strings(&["latest", "not-a-version"]));
}

#[test]
fn local_file_names() {
    let names = strings(&["1.0.0.wasm", "notes.txt", "bad.wasm", "2.0.0-rc.1.wasm"]);
    let (versions, bad) = versions_from_file_names(&names);
    let texts: Vec<String> = versions.iter().map(|v| v.version.to_string()).collect();
    assert_eq!(texts, strings(&["1.0.0", "2.0.0-rc.1"]));
    assert_eq!(bad, strings(&["bad.wasm"]));
}

#[test]
fn local_layout() {
    let b = LocalBackend::from_config(LocalConfig { root: "/srv/pkgs".to_string() });
    let p = PackageRef::parse("test:pkg").unwrap();
    assert_eq!(b.package_dir(&p), "/srv/pkgs/test/pkg");
    assert_eq!(b.version_path(&p, &Version::new(1, 0, 0)), "/srv/pkgs/test/pkg/1.0.0.wasm");
}

#[test]
fn local_backend_needs_root() {
    let mut rc = RegistryConfig::new();
    assert_eq!(LocalBackend::new(&rc).unwrap_err(), Error::InvalidConfig);
    let mut t = TextMap::new();
    t.insert("root".to_string(), "/data".to_string());
    rc.set_backend_config("local".to_string(), t);
    let b = LocalBackend::new(&rc).unwrap();
    assert_eq!(b.package_dir(&PackageRef::parse("a:b").unwrap()), "/data/a/b");
}

#[test]
fn backend_choice() {
    let empty = RegistryConfig::new();
    let none = RegistryMetadata::empty();
    assert_eq!(choose_backend(&empty, &none), Ok(BackendKind::Oci));
    assert_eq!(choose_backend(&empty, &meta_preferring("warg")), Ok(BackendKind::Warg));
    assert_eq!(choose_backend(&empty, &meta_preferring("local")), Err(Error::InvalidRegistryMetadata));
    assert_eq!(choose_backend(&empty, &meta_preferring("ftp")), Err(Error::InvalidConfig));
    let mut local = RegistryConfig::new();
    local.set_default_backend(Some("local".to_string()));
    assert_eq!(choose_backend(&local, &meta_preferring("warg")), Ok(BackendKind::Local));
    assert!(!should_fetch_metadata(&local));
    assert!(should_fetch_metadata(&empty));
}

#[test]
fn one_driver_per_registry() {
    let mut m = DriverMap::new();
    let r = Registry::parse("localhost:5000").unwrap();
    assert_eq!(m.insert_if_absent(&r, BackendKind::Oci), BackendKind::Oci);
    let same = Registry::parse("LOCALHOST:5000").unwrap();
    assert_eq!(m.insert_if_absent(&same, BackendKind::Warg), BackendKind::Oci);
    assert_eq!(m.len(), 1);
    assert_eq!(m.get(&r), Some(BackendKind::Oci));
}

#[test]
fn oci_reference_and_location() {
    let r = Registry::parse("localhost:5000").unwrap();
    let mut oci = TextMap::new();
    oci.insert("namespacePrefix".to_string(), "webassembly/".to_string());
    let mut configs = TextMap::new();
    configs.insert("oci".to_string(), oci);
    let meta = RegistryMetadata::from_parts(None, configs, Some("ghcr.io".to_string()), None, None);
    let loc = OciLocation::new(&r, &meta);
    assert_eq!(loc.oci_registry, "ghcr.io");
    let p = PackageRef::parse("wasi:http").unwrap();
    assert_eq!(loc.make_reference(&p, Some(&Version::new(0, 2, 0))), "ghcr.io/webassembly/wasi/http:0.2.0");
    assert_eq!(loc.make_reference(&p, None), "ghcr.io/webassembly/wasi/http:latest");
    let plain = OciLocation::new(&r, &RegistryMetadata::empty());
    assert_eq!(plain.make_reference(&p, None), "localhost:5000/wasi/http:latest");
}

#[test]
fn release_from_manifest_layers() {
    let v = Version::new(1, 0, 0);
    assert_eq!(release_from_layers(&v, &vec![]).unwrap_err(), Error::InvalidPackageManifest);
    let d = ContentDigest::sha256_of(b"layer");
    let rel = release_from_layers(&v, &vec![d.to_string(), "sha256:zz".to_string()]).unwrap();
    assert_eq!(rel.content_digest, d);
    assert_eq!(release_from_layers(&v, &strings(&["md5:1"])).unwrap_err(), Error::InvalidContentDigest);
}

#[test]
fn auth_decisions() {
    assert_eq!(auth_source(true, true), AuthSource::Basic);
    assert_eq!(auth_source(false, true), AuthSource::Helper);
    assert_eq!(auth_source(false, false), AuthSource::Anonymous);
    assert_eq!(after_preflight(AuthSource::Basic, Preflight::Accepted, false), AuthStep::Keep(AuthSource::Basic));
    assert_eq!(after_preflight(AuthSource::Basic, Preflight::AuthenticationFailure, true), AuthStep::RetryAnonymous);
    assert_eq!(after_preflight(AuthSource::Basic, Preflight::AuthenticationFailure, false), AuthStep::Fail);
    assert_eq!(after_preflight(AuthSource::Anonymous, Preflight::AuthenticationFailure, true), AuthStep::Fail);
    assert_eq!(after_preflight(AuthSource::Helper, Preflight::OtherFailure, true), AuthStep::Fail);
    assert_eq!(after_anonymous_retry(true), AuthStep::Keep(AuthSource::Anonymous));
    assert_eq!(after_anonymous_retry(false), AuthStep::Fail);
}

#[test]
fn publish_annotations() {
    let meta = Metadata {
        description: Some("An HTTP interface".to_string()),
        licenses: Some("Apache-2.0".to_string()),
        source: None,
        homepage: Some("https://example.com".to_string()),
        authors: None,
        revision: Some("f00ba4".to_string()),
    };
    let a = oci_annotations(&Version::new(0, 2, 0), &meta);
    let expected = vec![
        ("org.opencontainers.image.description".to_string(), "An HTTP interface".to_string()),
        ("org.opencontainers.image.licenses".to_string(), "Apache-2.0".to_string()),
        ("org.opencontainers.image.url".to_string(), "https://example.com".to_string()),
        ("org.opencontainers.image.version".to_string(), "0.2.0".to_string()),
    ];
    assert_eq!(a, expected);
}

#[test]
fn cache_layout_and_modes() {
    let c = FileCache::new("/cache".to_string());
    let d = ContentDigest::sha256_of(b"input");
    assert_eq!(c.data_path(&d), format!("/cache/{}", d.to_string()));
    let p = PackageRef::parse("wasi:http").unwrap();
    assert_eq!(c.release_path(&p, &Version::new(0, 2, 0)), "/cache/wasi:http-0.2.0.json");
    assert_eq!(serve_from(true, true), Ok(Source::Cache));
    assert_eq!(serve_from(false, false), Ok(Source::Upstream));
    assert_eq!(serve_from(false, true), Err(Error::CacheError));
    assert_eq!(list_versions_allowed(true), Err(Error::CacheError));
    assert_eq!(list_versions_allowed(false), Ok(()));
    assert_eq!(reopen_after_put(false), Err(Error::CacheError));
}
