use wasm_pkg::metadata::{metadata_url, RegistryMetadata};
use wasm_pkg::registry::Registry;
use wasm_pkg::textmap::TextMap;

fn fields(pairs: &[(&str, &str)]) -> TextMap<String> {
    let mut m = TextMap::new();
    for (k, v) in pairs {
        m.insert(k.to_string(), v.to_string());
    }
    m
}

fn meta(preferred: Option<&str>, configs: &[(&str, &[(&str, &str)])], legacy: [Option<&str>; 3]) -> RegistryMetadata {
    let mut map = TextMap::new();
    for (p, f) in configs {
        map.insert(p.to_string(), fields(f));
    }
    RegistryMetadata::from_parts(
        preferred.map(String::from),
        map,
        legacy[0].map(String::from),
        legacy[1].map(String::from),
        legacy[2].map(String::from),
    )
}

#[test]
fn metadata_smoke_test() {
    let m = meta(
        None,
        &[("oci", &[("registry", "oci.example.com")]), ("warg", &[("url", "https://warg.example.com")])],
        [None, None, None],
    );
    assert_eq!(m.preferred_protocol(), None);
    assert_eq!(m.configured_protocols(), vec!["oci".to_string(), "warg".to_string()]);
    assert_eq!(m.protocol_field("oci", "registry").as_deref(), Some("oci.example.com"));
    assert_eq!(m.protocol_field("warg", "url").as_deref(), Some("https://warg.example.com"));
    assert_eq!(m.protocol_field("other", "key"), None);
}

#[test]
fn preferred_protocol_explicit() {
    let m = meta(
        Some("warg"),
        &[("oci", &[("registry", "oci.example.com")]), ("warg", &[("url", "https://warg.example.com")])],
        [None, None, None],
    );
    assert_eq!(m.preferred_protocol().as_deref(), Some("warg"));
}

#[test]
fn preferred_protocol_implicit_oci() {
    let m = meta(None, &[("oci", &[("registry", "oci.example.com")])], [None, None, None]);
    assert_eq!(m.preferred_protocol().as_deref(), Some("oci"));
}

#[test]
fn preferred_protocol_implicit_warg() {
    let m = meta(None, &[("warg", &[("url", "https://warg.example.com")])], [None, None, None]);
    assert_eq!(m.preferred_protocol().as_deref(), Some("warg"));
}

#[test]
fn backward_compat_preferred_protocol_implicit_oci() {
    let m = meta(None, &[], [Some("oci.example.com"), Some("prefix/"), None]);
    assert_eq!(m.preferred_protocol().as_deref(), Some("oci"));
}

#[test]
fn backward_compat_preferred_protocol_implicit_warg() {
    let m = meta(None, &[], [None, None, Some("https://warg.example.com")]);
    assert_eq!(m.preferred_protocol().as_deref(), Some("warg"));
}

#[test]
fn basic_backward_compat_test() {
    let m = meta(None, &[], [Some("oci.example.com"), Some("prefix/"), Some("https://warg.example.com")]);
    assert_eq!(m.configured_protocols(), vec!["oci".to_string(), "warg".to_string()]);
    assert_eq!(m.protocol_field("oci", "registry").as_deref(), Some("oci.example.com"));
    assert_eq!(m.protocol_field("oci", "namespacePrefix").as_deref(), Some("prefix/"));
    assert_eq!(m.protocol_field("warg", "url").as_deref(), Some("https://warg.example.com"));
    assert_eq!(m.preferred_protocol(), None);
}

#[test]
fn merged_backward_compat_test() {
    let m = meta(None, &[("other", &[("key", "value")])], [None, None, Some("https://warg.example.com")]);
    assert_eq!(m.configured_protocols(), vec!["other".to_string(), "warg".to_string()]);
    assert_eq!(m.protocol_field("warg", "url").as_deref(), Some("https://warg.example.com"));
    assert_eq!(m.protocol_field("other", "key").as_deref(), Some("value"));
}

#[test]
fn older_field_takes_precedence() {
    let m = meta(None, &[("oci", &[("registry", "new.example.com")])], [Some("old.example.com"), None, None]);
    assert_eq!(m.protocol_field("oci", "registry").as_deref(), Some("old.example.com"));
}

#[test]
fn metadata_url_scheme() {
    let local = Registry::parse("localhost:5000").unwrap();
    assert_eq!(metadata_url(&local), "http://localhost:5000/.well-known/wasm-pkg/registry.json");
    let loopback = Registry::parse("127.0.0.1:8080").unwrap();
    assert_eq!(metadata_url(&loopback), "http://127.0.0.1:8080/.well-known/wasm-pkg/registry.json");
    let remote = Registry::parse("example.com").unwrap();
    assert_eq!(metadata_url(&remote), "https://example.com/.well-known/wasm-pkg/registry.json");
}
