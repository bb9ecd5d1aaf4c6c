use vstd::prelude::*;

use crate::error::Error;
use semver::Version as SemverVersion;
use semver::VersionReq as SemverReq;

verus! {

#[verifier::external_type_specification]
#[verifier::external_body]
pub struct ExSemverVersion(SemverVersion);

#[verifier::external_type_specification]
#[verifier::external_body]
pub struct ExSemverVersionReq(SemverReq);

/// Relies on `Clone` of `semver::Version`, which is derived.
pub assume_specification[ <SemverVersion as Clone>::clone ](v: &SemverVersion) -> SemverVersion;

/// Relies on `Clone` of `semver::VersionReq`, which is derived.
pub assume_specification[ <SemverReq as Clone>::clone ](q: &SemverReq) -> SemverReq;

/// The plain value of a version: major, minor, patch, pre-release text and
/// build-metadata text.
pub type VersionView = (u64, u64, u64, Seq<char>, Seq<char>);

/// What `semver::Version::parse` makes of a text, if it accepts it.
pub uninterp spec fn parsed_version(s: Seq<char>) -> Option<VersionView>;

/// The canonical text of what `semver::VersionReq::parse` makes of a text,
/// if it accepts it.
pub uninterp spec fn parsed_req(s: Seq<char>) -> Option<Seq<char>>;

/// Whether the requirement with canonical text `req` accepts the version.
pub uninterp spec fn req_matches(req: Seq<char>, v: VersionView) -> bool;

/// The order `semver::Version` gives two versions.
pub uninterp spec fn semver_cmp(a: VersionView, b: VersionView) -> core::cmp::Ordering;

/// The decimal digit for `d < 10`.
pub open spec fn digit_char(d: nat) -> char {
    ((d + 48) as u32) as char
}

/// Decimal text of a number, without leading zeros.
pub open spec fn decimal(n: nat) -> Seq<char>
    decreases n,
{
    if n < 10 {
        seq![digit_char(n)]
    } else {
        decimal(n / 10).push(digit_char(n % 10))
    }
}

/// The text of a version: `major.minor.patch`, then `-pre` and `+build`
/// when present.
pub open spec fn version_text(v: VersionView) -> Seq<char> {
    let core = decimal(v.0 as nat) + seq!['.'] + decimal(v.1 as nat) + seq!['.'] + decimal(v.2 as nat);
    let with_pre = if v.3.len() == 0 { core } else { core + seq!['-'] + v.3 };
    if v.4.len() == 0 { with_pre } else { with_pre + seq!['+'] + v.4 }
}

/// Lexicographic order on (major, minor, patch).
pub open spec fn triple_lt(a: VersionView, b: VersionView) -> bool {
    a.0 < b.0 || (a.0 == b.0 && (a.1 < b.1 || (a.1 == b.1 && a.2 < b.2)))
}

/// Same (major, minor, patch).
pub open spec fn same_triple(a: VersionView, b: VersionView) -> bool {
    a.0 == b.0 && a.1 == b.1 && a.2 == b.2
}

/// What an exact requirement `=v` accepts: the same numbers and the same
/// pre-release; build metadata is ignored.
pub open spec fn exact_match(locked: VersionView, v: VersionView) -> bool {
    same_triple(locked, v) && locked.3 == v.3
}

/// A semantic version.
#[derive(Debug, Clone)]
pub struct Version {
    major: u64,
    minor: u64,
    patch: u64,
    pre: String,
    build: String,
    inner: SemverVersion,
}

impl View for Version {
    type V = VersionView;

    closed spec fn view(&self) -> VersionView {
        (self.major, self.minor, self.patch, self.pre@, self.build@)
    }
}

/// Relies on `semver::Version::parse`; the parts are copied out of the
/// parsed value.
#[verifier::external_body]
fn semver_parse(s: &str) -> (r: Result<Version, Error>)
    ensures
        match r {
            Ok(v) => parsed_version(s@) == Some(v@),
            Err(e) => parsed_version(s@) is None && e == Error::InvalidVersion,
        },
{
    SemverVersion::parse(s).map(|v| Version {
        major: v.major,
        minor: v.minor,
        patch: v.patch,
        pre: v.pre.as_str().to_string(),
        build: v.build.as_str().to_string(),
        inner: v,
    }).map_err(|_| Error::InvalidVersion)
}

/// Relies on `semver::Version::new`: a version with no pre-release and no
/// build metadata.
#[verifier::external_body]
fn semver_new(major: u64, minor: u64, patch: u64) -> (r: Version)
    ensures
        r@ == (major, minor, patch, Seq::<char>::empty(), Seq::<char>::empty()),
{
    Version {
        major,
        minor,
        patch,
        pre: String::new(),
        build: String::new(),
        inner: SemverVersion::new(major, minor, patch),
    }
}

/// Relies on `Display` of `semver::Version`: the numbers in decimal, then
/// `-pre` and `+build` when they are not empty.
#[verifier::external_body]
fn semver_text(v: &Version) -> (r: String)
    ensures
        r@ == version_text(v@),
{
    v.inner.to_string()
}

/// Relies on `Ord` of `semver::Version`, derived over (major, minor, patch,
/// pre, build), where a release orders after any pre-release.
#[verifier::external_body]
fn semver_compare(a: &Version, b: &Version) -> (r: core::cmp::Ordering)
    ensures
        r == semver_cmp(a@, b@),
        triple_lt(a@, b@) ==> r == core::cmp::Ordering::Less,
        triple_lt(b@, a@) ==> r == core::cmp::Ordering::Greater,
        a@ == b@ ==> r == core::cmp::Ordering::Equal,
        same_triple(a@, b@) && a@.3.len() == 0 && b@.3.len() != 0 ==> r == core::cmp::Ordering::Greater,
        same_triple(a@, b@) && a@.3.len() != 0 && b@.3.len() == 0 ==> r == core::cmp::Ordering::Less,
{
    a.inner.cmp(&b.inner)
}

impl Version {
    /// Parses a semantic version.
    pub fn parse(s: &str) -> (r: Result<Version, Error>)
        ensures
            match r {
                Ok(v) => parsed_version(s@) == Some(v@),
                Err(e) => parsed_version(s@) is None && e == Error::InvalidVersion,
            },
    {
        semver_parse(s)
    }

    /// The release version `major.minor.patch`.
    pub fn new(major: u64, minor: u64, patch: u64) -> (r: Version)
        ensures
            r@ == (major, minor, patch, Seq::<char>::empty(), Seq::<char>::empty()),
    {
        semver_new(major, minor, patch)
    }

    /// The major number.
    pub fn major(&self) -> (r: u64)
        ensures
            r == self@.0,
    {
        self.major
    }

    /// The minor number.
    pub fn minor(&self) -> (r: u64)
        ensures
            r == self@.1,
    {
        self.minor
    }

    /// The patch number.
    pub fn patch(&self) -> (r: u64)
        ensures
            r == self@.2,
    {
        self.patch
    }

    /// A copy of the version.
    pub fn copy(&self) -> (r: Version)
        ensures
            r@ == self@,
    {
        Version {
            major: self.major,
            minor: self.minor,
            patch: self.patch,
            pre: self.pre.clone(),
            build: self.build.clone(),
            inner: self.inner.clone(),
        }
    }

    /// The text of the version.
    pub fn to_string(&self) -> (r: String)
        ensures
            r@ == version_text(self@),
    {
        semver_text(self)
    }

    /// The semantic-version order of two versions.
    pub fn compare(&self, other: &Version) -> (r: core::cmp::Ordering)
        ensures
            r == semver_cmp(self@, other@),
            triple_lt(self@, other@) ==> r == core::cmp::Ordering::Less,
            triple_lt(other@, self@) ==> r == core::cmp::Ordering::Greater,
            self@ == other@ ==> r == core::cmp::Ordering::Equal,
    {
        semver_compare(self, other)
    }

    /// Whether the two versions have the same parts.
    pub fn same(&self, other: &Version) -> (r: bool)
        ensures
            r == (self@ == other@),
    {
        self.major == other.major && self.minor == other.minor && self.patch == other.patch
            && self.pre == other.pre && self.build == other.build
    }

    /// Whether `self` is accepted by the exact requirement `=locked`.
    pub fn matches_exactly(&self, locked: &Version) -> (r: bool)
        ensures
            r == exact_match(locked@, self@),
    {
        self.major == locked.major && self.minor == locked.minor && self.patch == locked.patch
            && self.pre == locked.pre
    }
}

/// A version requirement such as `^1.2` or `>=0.3, <0.5`.
#[derive(Debug, Clone)]
pub struct VersionReq {
    text: String,
    inner: SemverReq,
}

impl View for VersionReq {
    type V = Seq<char>;

    /// The canonical text of the requirement.
    closed spec fn view(&self) -> Seq<char> {
        self.text@
    }
}

/// Relies on `semver::VersionReq::parse`; the canonical text is the parsed
/// value's `Display`.
#[verifier::external_body]
fn semver_parse_req(s: &str) -> (r: Result<VersionReq, Error>)
    ensures
        match r {
            Ok(q) => parsed_req(s@) == Some(q@),
            Err(e) => parsed_req(s@) is None && e == Error::InvalidVersion,
        },
{
    SemverReq::parse(s).map(|q| VersionReq { text: q.to_string(), inner: q }).map_err(
        |_| Error::InvalidVersion,
    )
}

/// Relies on `semver::VersionReq::matches`.
#[verifier::external_body]
fn semver_matches(q: &VersionReq, v: &Version) -> (r: bool)
    ensures
        r == req_matches(q@, v@),
{
    q.inner.matches(&v.inner)
}

impl VersionReq {
    /// Parses a version requirement.
    pub fn parse(s: &str) -> (r: Result<VersionReq, Error>)
        ensures
            match r {
                Ok(q) => parsed_req(s@) == Some(q@),
                Err(e) => parsed_req(s@) is None && e == Error::InvalidVersion,
            },
    {
        semver_parse_req(s)
    }

    /// Whether the requirement accepts `v`.
    pub fn matches(&self, v: &Version) -> (r: bool)
        ensures
            r == req_matches(self@, v@),
    {
        semver_matches(self, v)
    }

    /// The canonical text of the requirement.
    pub fn to_string(&self) -> (r: String)
        ensures
            r@ == self@,
    {
        self.text.clone()
    }

    /// Whether two requirements have the same canonical text.
    pub fn same(&self, other: &VersionReq) -> (r: bool)
        ensures
            r == (self@ == other@),
    {
        self.text == other.text
    }

    /// A copy of the requirement.
    pub fn copy(&self) -> (r: VersionReq)
        ensures
            r@ == self@,
    {
        VersionReq { text: self.text.clone(), inner: self.inner.clone() }
    }
}

} // verus!
