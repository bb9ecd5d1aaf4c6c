use wasm_pkg::config::{Config, RegistryConfig, RegistryMapping};
use wasm_pkg::label::Label;
use wasm_pkg::package::PackageRef;
use wasm_pkg::registry::Registry;
use wasm_pkg::textmap::TextMap;

fn reg(s: &str) -> Registry {
    Registry::parse(s).unwrap()
}

fn pkg(s: &str) -> PackageRef {
    PackageRef::parse(s).unwrap()
}

fn resolved(c: &Config, p: &str) -> Option<String> {
    c.resolve_registry(&pkg(p)).map(|r| r.to_string())
}

#[test]
fn resolution_order() {
    let mut c = Config::with_builtin_defaults();
    assert_eq!(resolved(&c, "wasi:http").as_deref(), Some("bytecodealliance.org"));
    assert_eq!(resolved(&c, "ba:thing").as_deref(), Some("bytecodealliance.org"));
    assert_eq!(resolved(&c, "other:thing"), None);
    c.set_default_registry(Some(reg("default.example")));
    assert_eq!(resolved(&c, "wasi:http").as_deref(), Some("default.example"));
    assert_eq!(resolved(&c, "other:thing").as_deref(), Some("default.example"));
    c.set_namespace_registry(Label::parse("wasi").unwrap(), RegistryMapping::Registry(reg("ns.example")));
    assert_eq!(resolved(&c, "wasi:http").as_deref(), Some("ns.example"));
    c.set_package_registry_override(pkg("wasi:http"), RegistryMapping::Registry(reg("pkg.example")));
    assert_eq!(resolved(&c, "wasi:http").as_deref(), Some("pkg.example"));
    assert_eq!(resolved(&c, "wasi:cli").as_deref(), Some("ns.example"));
}

#[test]
fn unmapped_namespace_resolves_to_none() {
    let c = Config::empty();
    assert_eq!(resolved(&c, "foo:bar"), None);
    let c = Config::with_builtin_defaults();
    assert_eq!(resolved(&c, "foo:bar"), None);
}

#[test]
fn custom_mapping_carries_metadata() {
    let mut c = Config::empty();
    let meta = wasm_pkg::metadata::RegistryMetadata::empty();
    c.set_namespace_registry(
        Label::parse("test").unwrap(),
        RegistryMapping::Custom { registry: reg("localhost:1234"), metadata: meta },
    );
    let m = c.namespace_registry(&Label::parse("test").unwrap()).unwrap();
    assert_eq!(m.registry().as_str(), "localhost:1234");
    assert!(m.metadata().is_some());
    assert_eq!(resolved(&c, "test:pkg").as_deref(), Some("localhost:1234"));
}

fn table(pairs: &[(&str, &str)]) -> TextMap<String> {
    let mut m = TextMap::new();
    for (k, v) in pairs {
        m.insert(k.to_string(), v.to_string());
    }
    m
}

#[test]
fn type_parses_correctly() {
    let mut rc = RegistryConfig::new();
    rc.set_backend_config("oci".to_string(), table(&[("username", "open"), ("password", "sesame")]));
    let mut c = Config::empty();
    c.set_registry_config(&reg("localhost:1234"), rc);
    let got = c.registry_config(&reg("localhost:1234")).expect("Should have config for registry");
    assert_eq!(got.default_backend().expect("Should have a default set"), "oci");

    let mut rc = RegistryConfig::new();
    rc.set_backend_config("oci".to_string(), table(&[("username", "open")]));
    rc.set_backend_config("other".to_string(), table(&[("config", "value")]));
    assert!(rc.default_backend().is_none(), "Should not have a type set when two configs exist");

    rc.set_default_backend(Some("foobar".to_string()));
    assert_eq!(rc.default_backend().as_deref(), Some("foobar"));
}

#[test]
fn registry_config_lookup_ignores_case() {
    let mut c = Config::empty();
    c.set_registry_config(&reg("Example.com"), RegistryConfig::new());
    assert!(c.registry_config(&reg("example.COM")).is_some());
}

#[test]
fn registry_config_merge() {
    let mut a = RegistryConfig::new();
    a.set_default_backend(Some("oci".to_string()));
    a.set_backend_config("oci".to_string(), table(&[("username", "a"), ("password", "p")]));
    let mut b = RegistryConfig::new();
    b.set_backend_config("oci".to_string(), table(&[("username", "b")]));
    b.set_backend_config("local".to_string(), table(&[("root", "/tmp/x")]));
    a.merge(b);
    assert_eq!(a.default_backend().as_deref(), Some("oci"));
    let oci = a.backend_config("oci").unwrap();
    assert_eq!(oci.get("username").map(|s| s.as_str()), Some("b"));
    assert_eq!(oci.get("password").map(|s| s.as_str()), Some("p"));
    assert_eq!(a.configured_backend_types(), vec!["oci".to_string(), "local".to_string()]);
    let mut c = RegistryConfig::new();
    c.set_default_backend(Some("local".to_string()));
    a.merge(c);
    assert_eq!(a.default_backend().as_deref(), Some("local"));
}

#[test]
fn config_merge() {
    let mut a = Config::with_builtin_defaults();
    a.set_namespace_registry(Label::parse("foo").unwrap(), RegistryMapping::Registry(reg("a.example")));
    let mut b = Config::empty();
    b.set_default_registry(Some(reg("b.example")));
    b.set_namespace_registry(Label::parse("foo").unwrap(), RegistryMapping::Registry(reg("c.example")));
    let mut rc = RegistryConfig::new();
    rc.set_default_backend(Some("local".to_string()));
    b.set_registry_config(&reg("b.example"), rc);
    a.merge(b);
    assert_eq!(resolved(&a, "foo:x").as_deref(), Some("c.example"));
    assert_eq!(resolved(&a, "bar:x").as_deref(), Some("b.example"));
    assert_eq!(a.registry_config(&reg("b.example")).unwrap().default_backend().as_deref(), Some("local"));
    let c = Config::empty();
    a.merge(c);
    assert_eq!(a.default_registry().map(|r| r.to_string()).as_deref(), Some("b.example"));
}
