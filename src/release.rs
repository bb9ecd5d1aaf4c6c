use vstd::prelude::*;

use crate::digest::ContentDigest;
use crate::version::{Version, VersionView};

verus! {

/// A release of a package: a version and the digest of its content.
#[derive(Debug, Clone)]
pub struct Release {
    pub version: Version,
    pub content_digest: ContentDigest,
}

impl Release {
    /// A copy of the release.
    pub fn copy(&self) -> (r: Release)
        ensures
            r.version@ == self.version@,
            r.content_digest.hex_spec() == self.content_digest.hex_spec(),
    {
        Release { version: self.version.copy(), content_digest: self.content_digest.copy() }
    }
}

/// A version listed by a registry, and whether it was yanked.
#[derive(Debug, Clone)]
pub struct VersionInfo {
    pub version: Version,
    pub yanked: bool,
}

impl View for VersionInfo {
    type V = (VersionView, bool);

    open spec fn view(&self) -> (VersionView, bool) {
        (self.version@, self.yanked)
    }
}

impl VersionInfo {
    /// A copy of the entry.
    pub fn copy(&self) -> (r: VersionInfo)
        ensures
            r@ == self@,
    {
        VersionInfo { version: self.version.copy(), yanked: self.yanked }
    }

    /// The order of two entries, by version alone.
    pub fn compare(&self, other: &VersionInfo) -> (r: core::cmp::Ordering)
        ensures
            r == crate::version::semver_cmp(self.version@, other.version@),
            crate::version::triple_lt(self.version@, other.version@) ==> r == core::cmp::Ordering::Less,
            crate::version::triple_lt(other.version@, self.version@) ==> r == core::cmp::Ordering::Greater,
    {
        self.version.compare(&other.version)
    }
}

} // verus!
