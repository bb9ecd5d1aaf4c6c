use wasm_pkg::digest::ContentDigest;
use wasm_pkg::error::Error;
use wasm_pkg::lock::{LockFile, LockedPackage, LockedPackageVersion, LOCK_FILE_V1};
use wasm_pkg::package::PackageRef;
use wasm_pkg::resolution::{locked_packages, DependencyResolution, DependencyResolver, LocalResolution, RegistryResolution};
use wasm_pkg::version::{Version, VersionReq};

fn locked(name: &str, registry: Option<&str>, req: &str, ver: &str) -> LockedPackage {
    LockedPackage {
        name: PackageRef::parse(name).unwrap(),
        registry: registry.map(String::from),
        versions: vec![LockedPackageVersion {
            requirement: VersionReq::parse(req).unwrap(),
            version: Version::parse(ver).unwrap(),
            digest: ContentDigest::sha256_of(name.as_bytes()),
        }],
    }
}

fn names(lf: &LockFile) -> Vec<(String, Option<String>)> {
    lf.packages().iter().map(|p| (p.name.to_string(), p.registry.clone())).collect()
}

#[test]
fn packages_sorted_by_name_then_registry() {
    let lf = LockFile::new(vec![
        locked("enterprise:holodeck", None, "=0.1.0", "0.1.0"),
        locked("ds9:holosuite", Some("fake"), "=0.1.0", "0.1.0"),
        locked("ds9:holosuite", None, "=0.1.0", "0.1.0"),
        locked("defiant:armor", None, "^1", "1.0.0"),
    ]);
    assert_eq!(lf.version(), LOCK_FILE_V1);
    assert_eq!(
        names(&lf),
        vec![
            ("defiant:armor".to_string(), None),
            ("ds9:holosuite".to_string(), None),
            ("ds9:holosuite".to_string(), Some("fake".to_string())),
            ("enterprise:holodeck".to_string(), None),
        ]
    );
}

#[test]
fn same_key_is_replaced() {
    let mut lf = LockFile::empty();
    lf.insert(locked("a:b", None, "^1", "1.0.0"));
    lf.insert(locked("a:b", None, "^1", "1.5.0"));
    assert_eq!(lf.packages().len(), 1);
    assert_eq!(lf.packages()[0].versions[0].version.to_string(), "1.5.0");
}

#[test]
fn resolve_from_lock() {
    let lf = LockFile::new(vec![locked("wasi:http", Some("wasi.dev"), "^0.2", "0.2.0")]);
    let p = PackageRef::parse("wasi:http").unwrap();
    let hit = lf.resolve(Some("wasi.dev"), &p, &VersionReq::parse("^0.2").unwrap()).unwrap();
    assert_eq!(hit.version.to_string(), "0.2.0");
    assert!(lf.resolve(None, &p, &VersionReq::parse("^0.2").unwrap()).is_none());
    assert!(lf.resolve(Some("wasi.dev"), &p, &VersionReq::parse("^0.3").unwrap()).is_none());
}

#[test]
fn lock_version_checked() {
    assert!(LockFile::from_parsed(1, vec![]).is_ok());
    assert_eq!(LockFile::from_parsed(2, vec![]).unwrap_err(), Error::UnsupportedLockVersion);
}

fn reg_res(name: &str, registry: Option<&str>, req: &str, ver: &str) -> DependencyResolution {
    DependencyResolution::Registry(RegistryResolution {
        name: PackageRef::parse(name).unwrap(),
        package: PackageRef::parse(name).unwrap(),
        registry: registry.map(String::from),
        requirement: VersionReq::parse(req).unwrap(),
        version: Version::parse(ver).unwrap(),
        digest: ContentDigest::sha256_of(ver.as_bytes()),
    })
}

#[test]
fn locked_packages_group_by_package() {
    let rs = vec![
        reg_res("wasi:http", None, "^0.2", "0.2.0"),
        DependencyResolution::Local(LocalResolution { name: PackageRef::parse("my:local").unwrap(), path: "dep".to_string() }),
        reg_res("wasi:http", None, "=0.2.1", "0.2.1"),
        reg_res("wasi:io", None, "^0.2", "0.2.0"),
        reg_res("wasi:http", None, "^0.2", "0.2.3"),
    ];
    let pkgs = locked_packages(&rs);
    assert_eq!(pkgs.len(), 2);
    let http = pkgs.iter().find(|p| p.name.to_string() == "wasi:http").unwrap();
    assert_eq!(http.versions.len(), 2);
    assert_eq!(http.versions[0].version.to_string(), "0.2.3");
    let lf = LockFile::from_dependencies(&rs);
    assert_eq!(names(&lf), vec![("wasi:http".to_string(), None), ("wasi:io".to_string(), None)]);
}

fn dep(name: &str, req: &str) -> wasm_pkg::resolution::RegistryDependency {
    wasm_pkg::resolution::RegistryDependency {
        package: PackageRef::parse(name).unwrap(),
        requirement: VersionReq::parse(req).unwrap(),
        locked: None,
    }
}

#[test]
fn resolver_bookkeeping() {
    assert_eq!(DependencyResolver::new(true, false).err(), Some(Error::InvalidConfig));
    let mut r = DependencyResolver::new(false, false).unwrap();
    let http = PackageRef::parse("wasi:http").unwrap();
    assert!(r.add_registry_dependency(&http, dep("wasi:http", "^0.2"), false));
    assert!(!r.add_registry_dependency(&http, dep("wasi:http", "^0.3"), false));
    assert_eq!(r.pending_at(0).1.requirement.to_string(), "^0.2");
    assert!(r.add_registry_dependency(&http, dep("wasi:http", "^0.3"), true));
    assert_eq!(r.pending_count(), 1);
    assert_eq!(r.pending_at(0).1.requirement.to_string(), "^0.3");
    assert!(r.begin_local(&http, false));
    assert_eq!(r.pending_count(), 0);
    r.finish_local(&http, "deps/http".to_string());
    assert!(!r.begin_local(&http, false));
    assert!(!r.add_registry_dependency(&http, dep("wasi:http", "^0.2"), false));
    let res = r.into_resolutions();
    assert_eq!(res.len(), 1);
    assert!(matches!(&res[0], DependencyResolution::Local(l) if l.path == "deps/http"));
}
