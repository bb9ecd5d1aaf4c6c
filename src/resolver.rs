use vstd::prelude::*;

use crate::digest::{digest_text, ContentDigest};
use crate::error::Error;
use crate::release::{Release, VersionInfo};
use crate::version::{exact_match, req_matches, triple_lt, Version, VersionReq, VersionView};

verus! {

/// Whether a listed version may be picked: it is not yanked, and it is
/// accepted by the exact requirement `=l` when `exact` is `Some(l)`, else by
/// the requirement `req`.
pub open spec fn accepts(req: Seq<char>, exact: Option<VersionView>, v: (VersionView, bool)) -> bool {
    !v.1 && match exact {
        Some(l) => exact_match(l, v.0),
        None => req_matches(req, v.0),
    }
}

/// Some listed version may be picked.
pub open spec fn has_candidate(vs: Seq<VersionInfo>, req: Seq<char>, exact: Option<VersionView>) -> bool {
    exists|i: int| 0 <= i < vs.len() && accepts(req, exact, #[trigger] vs[i]@)
}

/// `i` indexes a version that may be picked and that no other such version
/// exceeds in (major, minor, patch).
pub open spec fn is_latest(vs: Seq<VersionInfo>, req: Seq<char>, exact: Option<VersionView>, i: int) -> bool {
    &&& 0 <= i < vs.len()
    &&& accepts(req, exact, vs[i]@)
    &&& forall|j: int| 0 <= j < vs.len() && accepts(req, exact, #[trigger] vs[j]@) ==> !triple_lt(vs[i]@.0, vs[j]@.0)
}

/// The latest version that may be picked, by semantic-version order: the
/// last of the greatest when several compare equal.
fn find_latest(versions: &Vec<VersionInfo>, req: &VersionReq, exact: Option<&Version>) -> (r: Option<usize>)
    ensures
        r is None <==> !has_candidate(versions@, req@, opt_view(exact)),
        r is Some ==> is_latest(versions@, req@, opt_view(exact), r->Some_0 as int),
{
    let mut best: Option<usize> = None;
    let mut i: usize = 0;
    while i < versions.len()
        invariant
            0 <= i <= versions@.len(),
            best is None <==> forall|j: int| 0 <= j < i ==> !accepts(req@, opt_view(exact), #[trigger] versions@[j]@),
            best is Some ==> {
                let b = best->Some_0 as int;
                &&& 0 <= b < i
                &&& accepts(req@, opt_view(exact), versions@[b]@)
                &&& forall|j: int| 0 <= j < i && accepts(req@, opt_view(exact), #[trigger] versions@[j]@) ==> !triple_lt(versions@[b]@.0, versions@[j]@.0)
            },
        decreases versions@.len() - i,
    {
        let v = &versions[i];
        let ok = !v.yanked && match exact {
            Some(l) => v.version.matches_exactly(l),
            None => req.matches(&v.version),
        };
        assert(ok == accepts(req@, opt_view(exact), versions@[i as int]@));
        if ok {
            match best {
                None => {
                    best = Some(i);
                },
                Some(b) => {
                    let not_greater = match versions[b].compare(v) {
                        core::cmp::Ordering::Greater => false,
                        _ => true,
                    };
                    if not_greater {
                        proof {
                            assert forall|j: int| 0 <= j < i && accepts(req@, opt_view(exact), #[trigger] versions@[j]@)
                                implies !triple_lt(versions@[i as int]@.0, versions@[j]@.0) by {
                                assert(!triple_lt(versions@[b as int]@.0, versions@[j]@.0));
                                assert(!triple_lt(versions@[i as int]@.0, versions@[b as int]@.0));
                            }
                        }
                        best = Some(i);
                    }
                },
            }
        }
        i = i + 1;
    }
    proof {
        if best is None {
            assert(!has_candidate(versions@, req@, opt_view(exact)));
        }
    }
    best
}

/// The plain value of an optional version.
pub open spec fn opt_view(v: Option<&Version>) -> Option<VersionView> {
    match v {
        Some(x) => Some(x@),
        None => None,
    }
}

/// The latest release that `req` accepts and that is not yanked.
pub fn find_latest_release(versions: &Vec<VersionInfo>, req: &VersionReq) -> (r: Option<usize>)
    ensures
        r is None <==> !has_candidate(versions@, req@, None),
        r is Some ==> is_latest(versions@, req@, None, r->Some_0 as int),
{
    find_latest(versions, req, None)
}

/// Why a registry dependency could not be resolved.
#[derive(Debug, Clone)]
pub enum ResolveError {
    /// The client is offline and the lock file has no entry for the
    /// dependency.
    OfflineWithoutLock,
    /// The registry does not know the package.
    PackageNotFound,
    /// No listed version that is not yanked satisfies the requirement.
    NoMatchingRelease,
    /// The registry's digest for the locked version differs from the lock
    /// file's.
    DigestMismatch { locked: ContentDigest, actual: ContentDigest },
    /// A backend or cache failure.
    Client(Error),
}

/// The text `locked <d> differs from registry <d'>` naming both digests.
pub open spec fn mismatch_text(locked: Seq<char>, actual: Seq<char>) -> Seq<char> {
    seq!['l', 'o', 'c', 'k', 'e', 'd', ' '] + digest_text(locked) + seq![
        ' ',
        'd',
        'i',
        'f',
        'f',
        'e',
        'r',
        's',
        ' ',
        'f',
        'r',
        'o',
        'm',
        ' ',
        'r',
        'e',
        'g',
        'i',
        's',
        't',
        'r',
        'y',
        ' ',
    ] + digest_text(actual)
}

impl ResolveError {
    /// A description naming both digests of a mismatch.
    pub fn mismatch_message(&self) -> (r: Option<String>)
        ensures
            match self {
                ResolveError::DigestMismatch { locked, actual } => r is Some && r->Some_0@
                    == mismatch_text(locked.hex_spec(), actual.hex_spec()),
                _ => r is None,
            },
    {
        match self {
            ResolveError::DigestMismatch { locked, actual } => {
                let s = String::from_str("locked ");
                let s = s.concat(locked.to_string().as_str());
                let s = s.concat(" differs from registry ");
                let s = s.concat(actual.to_string().as_str());
                proof {
                    reveal_strlit("locked ");
                    reveal_strlit(" differs from registry ");
                }
                Some(s)
            },
            _ => None,
        }
    }
}

/// The plain value of an optional lock entry: its version and digest hex.
pub open spec fn locked_view(locked: Option<(&Version, &ContentDigest)>) -> Option<(VersionView, Seq<char>)> {
    match locked {
        Some((v, d)) => Some((v@, d.hex_spec())),
        None => None,
    }
}

/// Picks the version of a registry dependency.
///
/// Offline (`readonly`), the lock entry is taken as it is, and without one
/// the dependency cannot be resolved. Online, `versions` is the registry's
/// list (`None` when the registry does not know the package): the locked
/// version is kept when the list still offers it, not yanked, and then its
/// locked digest must be checked against the release; otherwise the latest
/// version that satisfies `req` and is not yanked is picked, with no digest
/// to check.
pub fn choose_version(
    readonly: bool,
    locked: Option<(&Version, &ContentDigest)>,
    versions: Option<&Vec<VersionInfo>>,
    req: &VersionReq,
) -> (r: Result<(Version, Option<ContentDigest>), ResolveError>)
    ensures
        readonly ==> match locked_view(locked) {
            Some((v, d)) => r is Ok && r->Ok_0.0@ == v && r->Ok_0.1 is Some && r->Ok_0.1->Some_0.hex_spec() == d,
            None => r is Err && r->Err_0 is OfflineWithoutLock,
        },
        !readonly && versions is None ==> r is Err && r->Err_0 is PackageNotFound,
        !readonly && versions is Some ==> {
            let vs = versions->Some_0@;
            match locked_view(locked) {
                Some((l, d)) if has_candidate(vs, req@, Some(l)) => {
                    &&& r is Ok
                    &&& r->Ok_0.1 is Some && r->Ok_0.1->Some_0.hex_spec() == d
                    &&& exists|i: int| is_latest(vs, req@, Some(l), i) && #[trigger] vs[i].version@ == r->Ok_0.0@
                },
                _ => if has_candidate(vs, req@, None) {
                    &&& r is Ok
                    &&& r->Ok_0.1 is None
                    &&& exists|i: int| is_latest(vs, req@, None, i) && #[trigger] vs[i].version@ == r->Ok_0.0@
                } else {
                    r is Err && r->Err_0 is NoMatchingRelease
                },
            }
        },
{
    if readonly {
        return match locked {
            Some((v, d)) => Ok((v.copy(), Some(d.copy()))),
            None => Err(ResolveError::OfflineWithoutLock),
        };
    }
    let vs = match versions {
        Some(vs) => vs,
        None => {
            return Err(ResolveError::PackageNotFound);
        },
    };
    if let Some((l, d)) = locked {
        if let Some(i) = find_latest(vs, req, Some(l)) {
            let v = vs[i].version.copy();
            assert(vs@[i as int].version@ == v@);
            return Ok((v, Some(d.copy())));
        }
    }
    match find_latest(vs, req, None) {
        Some(i) => {
            let v = vs[i].version.copy();
            assert(vs@[i as int].version@ == v@);
            Ok((v, None))
        },
        None => Err(ResolveError::NoMatchingRelease),
    }
}

/// Checks the registry's release against the digest that the lock file
/// recorded for it, if any.
pub fn check_locked_digest(locked: Option<&ContentDigest>, release: &Release) -> (r: Result<(), ResolveError>)
    ensures
        match locked {
            Some(d) => if d.hex_spec() == release.content_digest.hex_spec() {
                r is Ok
            } else {
                &&& r is Err
                &&& r->Err_0 matches ResolveError::DigestMismatch { locked: a, actual: b }
                &&& a.hex_spec() == d.hex_spec()
                &&& b.hex_spec() == release.content_digest.hex_spec()
            },
            None => r is Ok,
        },
{
    match locked {
        Some(d) => {
            if d.same(&release.content_digest) {
                Ok(())
            } else {
                Err(ResolveError::DigestMismatch { locked: d.copy(), actual: release.content_digest.copy() })
            }
        },
        None => Ok(()),
    }
}

} // verus!
