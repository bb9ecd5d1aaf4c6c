use wasm_pkg::digest::ContentDigest;
use wasm_pkg::release::{Release, VersionInfo};
use wasm_pkg::resolver::{check_locked_digest, choose_version, find_latest_release, ResolveError};
use wasm_pkg::version::{Version, VersionReq};

fn info(v: &str, yanked: bool) -> VersionInfo {
    VersionInfo { version: Version::parse(v).unwrap(), yanked }
}

fn req(s: &str) -> VersionReq {
    VersionReq::parse(s).unwrap()
}

fn listing() -> Vec<VersionInfo> {
    vec![info("1.0.0", false), info("1.1.0", true), info("1.2.0", false)]
}

#[test]
fn latest_skips_yanked() {
    let vs = listing();
    let i = find_latest_release(&vs, &req("^1.0")).unwrap();
    assert_eq!(vs[i].version.to_string(), "1.2.0");
    assert_eq!(find_latest_release(&vs, &req("^2")), None);
    let only_yanked = vec![info("1.1.0", true)];
    assert_eq!(find_latest_release(&only_yanked, &req("^1")), None);
}

#[test]
fn picks_latest_unlocked() {
    let vs = listing();
    let (v, d) = choose_version(false, None, Some(&vs), &req("^1.0")).unwrap();
    assert_eq!(v.to_string(), "1.2.0");
    assert!(d.is_none());
}

#[test]
fn locked_version_is_kept() {
    let vs = vec![info("1.0.0", false), info("1.1.0", false), info("1.2.0", false)];
    let locked = Version::parse("1.1.0").unwrap();
    let digest = ContentDigest::sha256_of(b"locked");
    let (v, d) = choose_version(false, Some((&locked, &digest)), Some(&vs), &req("^1.0")).unwrap();
    assert_eq!(v.to_string(), "1.1.0");
    assert_eq!(d, Some(digest));
}

#[test]
fn locked_version_gone_falls_back() {
    let vs = vec![info("1.0.0", false), info("1.2.0", false)];
    let locked = Version::parse("1.1.0").unwrap();
    let digest = ContentDigest::sha256_of(b"locked");
    let (v, d) = choose_version(false, Some((&locked, &digest)), Some(&vs), &req("^1.0")).unwrap();
    assert_eq!(v.to_string(), "1.2.0");
    assert!(d.is_none());
    let (v, _) = choose_version(false, Some((&locked, &digest)), Some(&listing()), &req("^1.0")).unwrap();
    assert_eq!(v.to_string(), "1.2.0");
}

#[test]
fn offline_uses_lock() {
    let locked = Version::parse("0.2.0").unwrap();
    let digest = ContentDigest::sha256_of(b"wasi-http");
    let (v, d) = choose_version(true, Some((&locked, &digest)), None, &req("^0.2")).unwrap();
    assert_eq!(v.to_string(), "0.2.0");
    assert_eq!(d, Some(digest));
    assert!(matches!(choose_version(true, None, None, &req("^0.2")), Err(ResolveError::OfflineWithoutLock)));
}

#[test]
fn resolution_errors() {
    assert!(matches!(choose_version(false, None, None, &req("^1")), Err(ResolveError::PackageNotFound)));
    let vs = listing();
    assert!(matches!(choose_version(false, None, Some(&vs), &req("^3")), Err(ResolveError::NoMatchingRelease)));
}

#[test]
fn digest_mismatch_names_both() {
    let d = ContentDigest::sha256_of(b"one");
    let d2 = ContentDigest::sha256_of(b"two");
    let release = Release { version: Version::parse("1.1.0").unwrap(), content_digest: d2.clone() };
    let err = check_locked_digest(Some(&d), &release).unwrap_err();
    let msg = err.mismatch_message().unwrap();
    assert!(msg.contains(&d.to_string()));
    assert!(msg.contains(&d2.to_string()));
    assert_eq!(msg, format!("locked {} differs from registry {}", d.to_string(), d2.to_string()));
    assert!(check_locked_digest(Some(&d2), &release).is_ok());
    assert!(check_locked_digest(None, &release).is_ok());
}
