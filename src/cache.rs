use vstd::prelude::*;

use crate::digest::{digest_text, ContentDigest};
use crate::error::Error;
use crate::package::{package_ref_text, PackageRef};
use crate::backend::join;
use crate::version::{version_text, Version};

verus! {

/// `.json`.
pub open spec fn json_ext() -> Seq<char> {
    seq!['.', 'j', 's', 'o', 'n']
}

/// A cache directory: content blobs are stored under their digest text,
/// release records under `<namespace>:<name>-<version>.json`.
#[derive(Debug, Clone)]
pub struct FileCache {
    root: String,
}

impl FileCache {
    /// The cache directory.
    pub closed spec fn root_spec(&self) -> Seq<char> {
        self.root@
    }

    /// A cache rooted at a directory.
    pub fn new(root: String) -> (r: FileCache)
        ensures
            r.root_spec() == root@,
    {
        FileCache { root }
    }

    /// The cache directory.
    pub fn root(&self) -> (r: &str)
        ensures
            r@ == self.root_spec(),
    {
        self.root.as_str()
    }

    /// `<root>/sha256:<hex>`: where the content with a digest is kept.
    pub fn data_path(&self, digest: &ContentDigest) -> (r: String)
        ensures
            r@ == join(self.root_spec(), digest_text(digest.hex_spec())),
    {
        proof {
            reveal_strlit("/");
        }
        let s = self.root.clone().concat("/");
        let d = digest.to_string();
        let r = s.concat(d.as_str());
        assert(r@ =~= join(self.root_spec(), digest_text(digest.hex_spec())));
        r
    }

    /// `<root>/<namespace>:<name>-<version>.json`: where a release record is
    /// kept.
    pub fn release_path(&self, package: &PackageRef, version: &Version) -> (r: String)
        ensures
            r@ == join(self.root_spec(), package_ref_text(package@.0, package@.1) + seq!['-'] + version_text(version@) + json_ext()),
    {
        proof {
            reveal_strlit("/");
            reveal_strlit("-");
            reveal_strlit(".json");
        }
        let s = self.root.clone().concat("/");
        let p = package.to_string();
        let s = s.concat(p.as_str());
        let s = s.concat("-");
        let v = version.to_string();
        let s = s.concat(v.as_str());
        let r = s.concat(".json");
        assert(r@ =~= join(self.root_spec(), package_ref_text(package@.0, package@.1) + seq!['-'] + version_text(version@) + json_ext()));
        r
    }
}

/// Where a caching client takes what it was asked for.
#[derive(Debug, Clone, Copy, PartialEq, Eq, Structural)]
pub enum Source {
    /// From the cache.
    Cache,
    /// From the registry, storing it in the cache on the way.
    Upstream,
}

/// Where to serve a request from: the cache on a hit; on a miss the
/// registry, which a client without one (offline) cannot reach.
pub fn serve_from(cached: bool, offline: bool) -> (r: Result<Source, Error>)
    ensures
        cached ==> r == Ok::<Source, Error>(Source::Cache),
        !cached && !offline ==> r == Ok::<Source, Error>(Source::Upstream),
        !cached && offline ==> r == Err::<Source, Error>(Error::CacheError),
{
    if cached {
        Ok(Source::Cache)
    } else if offline {
        Err(Error::CacheError)
    } else {
        Ok(Source::Upstream)
    }
}

/// Listing versions always needs the registry.
pub fn list_versions_allowed(offline: bool) -> (r: Result<(), Error>)
    ensures
        offline <==> r is Err,
        r is Err ==> r->Err_0 == Error::CacheError,
{
    if offline {
        Err(Error::CacheError)
    } else {
        Ok(())
    }
}

/// After content was stored, it is served from the cache; its absence
/// right after storing is a cache error.
pub fn reopen_after_put(found: bool) -> (r: Result<(), Error>)
    ensures
        found <==> r is Ok,
        r is Err ==> r->Err_0 == Error::CacheError,
{
    if found {
        Ok(())
    } else {
        Err(Error::CacheError)
    }
}

} // verus!
