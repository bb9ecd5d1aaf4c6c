use wasm_pkg::error::Error;
use wasm_pkg::label::{InvalidLabel, Label};
use wasm_pkg::package::PackageRef;
use wasm_pkg::registry::Registry;
use wasm_pkg::version::{Version, VersionReq};

#[test]
fn label_accepts_kebab_case() {
    let l = Label::parse("wasm-pkg2-x").unwrap();
    assert_eq!(l.as_str(), "wasm-pkg2-x");
}

#[test]
fn label_errors() {
    assert_eq!(Label::parse("").unwrap_err(), InvalidLabel::Empty);
    assert_eq!(Label::parse("a--b").unwrap_err(), InvalidLabel::EmptyWord);
    assert_eq!(Label::parse("a-").unwrap_err(), InvalidLabel::EmptyWord);
    assert_eq!(Label::parse("-a").unwrap_err(), InvalidLabel::EmptyWord);
    assert_eq!(Label::parse("1a").unwrap_err(), InvalidLabel::InvalidWordFirstChar);
    assert_eq!(Label::parse("Ab").unwrap_err(), InvalidLabel::InvalidWordFirstChar);
    assert_eq!(Label::parse("aB").unwrap_err(), InvalidLabel::InvalidChar);
    assert_eq!(Label::parse("a_b").unwrap_err(), InvalidLabel::InvalidChar);
}

#[test]
fn package_ref_round_trip() {
    let p = PackageRef::parse("wasi:http").unwrap();
    assert_eq!(p.namespace().as_str(), "wasi");
    assert_eq!(p.name().as_str(), "http");
    assert_eq!(p.to_string(), "wasi:http");
}

#[test]
fn package_ref_errors() {
    assert_eq!(PackageRef::parse("wasi").unwrap_err(), Error::InvalidPackageRef);
    assert_eq!(
        PackageRef::parse("Wasi:http").unwrap_err(),
        Error::InvalidLabel(InvalidLabel::InvalidWordFirstChar)
    );
    assert_eq!(
        PackageRef::parse("wasi:").unwrap_err(),
        Error::InvalidLabel(InvalidLabel::Empty)
    );
    assert_eq!(
        PackageRef::parse("a:b:c").unwrap_err(),
        Error::InvalidLabel(InvalidLabel::InvalidChar)
    );
}

#[test]
fn registry_host_and_port() {
    let r = Registry::parse("localhost:1234").unwrap();
    assert_eq!(r.host(), "localhost");
    assert_eq!(r.port(), Some(1234));
    assert_eq!(r.as_str(), "localhost:1234");
    let r = Registry::parse("example.com").unwrap();
    assert_eq!(r.port(), None);
    assert!(Registry::parse("bad host").is_err());
}

#[test]
fn registry_equality_ignores_case() {
    let a = Registry::parse("Example.COM").unwrap();
    let b = Registry::parse("example.com").unwrap();
    assert!(a.same(&b));
    assert_eq!(a.key(), "example.com");
}

#[test]
fn version_parse_and_text() {
    let v = Version::parse("1.2.3-alpha.1+build.5").unwrap();
    assert_eq!((v.major(), v.minor(), v.patch()), (1, 2, 3));
    assert_eq!(v.to_string(), "1.2.3-alpha.1+build.5");
    assert_eq!(Version::new(10, 0, 7).to_string(), "10.0.7");
    assert_eq!(Version::parse("1.2").unwrap_err(), Error::InvalidVersion);
}

#[test]
fn version_order() {
    let a = Version::parse("1.0.0-rc.1").unwrap();
    let b = Version::parse("1.0.0").unwrap();
    let c = Version::parse("1.10.0").unwrap();
    assert_eq!(a.compare(&b), std::cmp::Ordering::Less);
    assert_eq!(c.compare(&b), std::cmp::Ordering::Greater);
    assert_eq!(b.compare(&b.copy()), std::cmp::Ordering::Equal);
}

#[test]
fn version_requirement_matches() {
    let q = VersionReq::parse("^1.0").unwrap();
    assert!(q.matches(&Version::new(1, 2, 0)));
    assert!(!q.matches(&Version::new(2, 0, 0)));
    assert_eq!(q.to_string(), "^1.0");
    assert!(VersionReq::parse("not a req").is_err());
}
