use vstd::prelude::*;

use crate::digest::ContentDigest;
use crate::error::Error;
use crate::metadata::opt_text;
use crate::package::PackageRef;
use crate::text::{text_compare, text_eq, text_lt};
use crate::version::{Version, VersionReq};

verus! {

/// The lock-file format version this library reads and writes.
pub const LOCK_FILE_V1: u64 = 1;

/// A locked version of a package: the requirement it was resolved for, the
/// version picked and the digest of its content.
#[derive(Debug, Clone)]
pub struct LockedPackageVersion {
    pub requirement: VersionReq,
    pub version: Version,
    pub digest: ContentDigest,
}

/// The locked versions of one package from one registry.
#[derive(Debug, Clone)]
pub struct LockedPackage {
    pub name: PackageRef,
    pub registry: Option<String>,
    pub versions: Vec<LockedPackageVersion>,
}

/// The key a lock file orders packages by: namespace, name, registry.
pub type LockKey = (Seq<char>, Seq<char>, Option<Seq<char>>);

impl LockedPackage {
    /// The ordering key.
    pub open spec fn key(&self) -> LockKey {
        (self.name@.0, self.name@.1, opt_text(self.registry))
    }
}

/// Order on optional texts: none first, then by text.
pub open spec fn opt_text_lt(a: Option<Seq<char>>, b: Option<Seq<char>>) -> bool {
    match (a, b) {
        (None, Some(_)) => true,
        (Some(x), Some(y)) => text_lt(x, y),
        _ => false,
    }
}

/// Lexicographic order on lock keys.
pub open spec fn key_lt(a: LockKey, b: LockKey) -> bool {
    ||| text_lt(a.0, b.0)
    ||| (a.0 == b.0 && text_lt(a.1, b.1))
    ||| (a.0 == b.0 && a.1 == b.1 && opt_text_lt(a.2, b.2))
}

/// The keys of a list of packages.
pub open spec fn keys(v: Seq<LockedPackage>) -> Seq<LockKey> {
    v.map_values(|p: LockedPackage| p.key())
}

/// Each key is strictly before the next.
pub open spec fn keys_ascending(k: Seq<LockKey>) -> bool {
    forall|i: int| 0 <= i < k.len() - 1 ==> key_lt(#[trigger] k[i], k[i + 1])
}

/// The order of two optional texts.
fn opt_text_compare(a: &Option<String>, b: &Option<String>) -> (r: core::cmp::Ordering)
    ensures
        (r == core::cmp::Ordering::Less) == opt_text_lt(opt_text(*a), opt_text(*b)),
        (r == core::cmp::Ordering::Greater) == opt_text_lt(opt_text(*b), opt_text(*a)),
        (r == core::cmp::Ordering::Equal) == (opt_text(*a) == opt_text(*b)),
{
    match (a, b) {
        (None, None) => core::cmp::Ordering::Equal,
        (None, Some(_)) => core::cmp::Ordering::Less,
        (Some(_), None) => core::cmp::Ordering::Greater,
        (Some(x), Some(y)) => text_compare(x.as_str(), y.as_str()),
    }
}

/// The order of two packages' keys.
pub fn key_compare(a: &LockedPackage, b: &LockedPackage) -> (r: core::cmp::Ordering)
    ensures
        (r == core::cmp::Ordering::Less) == key_lt(a.key(), b.key()),
        (r == core::cmp::Ordering::Greater) == key_lt(b.key(), a.key()),
        (r == core::cmp::Ordering::Equal) == (a.key() == b.key()),
{
    let c = text_compare(a.name.namespace().as_str(), b.name.namespace().as_str());
    match c {
        core::cmp::Ordering::Equal => {},
        _ => {
            return c;
        },
    }
    let c = text_compare(a.name.name().as_str(), b.name.name().as_str());
    match c {
        core::cmp::Ordering::Equal => {},
        _ => {
            return c;
        },
    }
    opt_text_compare(&a.registry, &b.registry)
}

/// Whether the package list holds an entry under key `k`.
pub open spec fn has_key(v: Seq<LockedPackage>, k: LockKey) -> bool {
    exists|i: int| 0 <= i < v.len() && v[i].key() == k
}

/// A lock file's contents: the format version and the locked packages,
/// kept in ascending key order with one entry per key.
#[derive(Debug, Clone)]
pub struct LockFile {
    version: u64,
    packages: Vec<LockedPackage>,
}

impl LockFile {
    /// The format version.
    pub closed spec fn version_spec(&self) -> u64 {
        self.version
    }

    /// The format version.
    pub fn version(&self) -> (r: u64)
        ensures
            r == self.version_spec(),
    {
        self.version
    }

    /// The packages, in key order.
    pub closed spec fn packages_spec(&self) -> Seq<LockedPackage> {
        self.packages@
    }

    /// The packages are in strictly ascending key order.
    pub open spec fn wf(&self) -> bool {
        keys_ascending(keys(self.packages_spec()))
    }

    /// An empty lock file of the current format.
    pub fn empty() -> (r: LockFile)
        ensures
            r.wf(),
            r.version_spec() == LOCK_FILE_V1,
            r.packages_spec().len() == 0,
    {
        LockFile { version: LOCK_FILE_V1, packages: Vec::new() }
    }

    /// A lock file of the current format holding the given packages; of
    /// several with one key, the last is kept.
    pub fn new(packages: Vec<LockedPackage>) -> (r: LockFile)
        ensures
            r.wf(),
            r.version_spec() == LOCK_FILE_V1,
            forall|k: LockKey| has_key(r.packages_spec(), k) <==> has_key(packages@, k),
    {
        let mut lf = LockFile::empty();
        let mut rest = packages;
        let ghost all = rest@;
        let ghost mut c: int = 0;
        while rest.len() > 0
            invariant
                lf.wf(),
                lf.version_spec() == LOCK_FILE_V1,
                0 <= c <= all.len(),
                rest@ == all.subrange(c, all.len() as int),
                forall|k: LockKey| has_key(lf.packages_spec(), k) <==> exists|j: int| 0 <= j < c && (#[trigger] all[j]).key() == k,
            decreases rest@.len(),
        {
            let p = rest.remove(0);
            let ghost pre = lf.packages_spec();
            proof {
                assert(p == all[c]);
                assert(rest@ =~= all.subrange(c + 1, all.len() as int));
            }
            lf.insert(p);
            proof {
                assert forall|k: LockKey| has_key(lf.packages_spec(), k) <==> exists|j: int| 0 <= j < c + 1 && (#[trigger] all[j]).key() == k by {
                    if k == all[c].key() {
                        assert(0 <= c < c + 1 && all[c].key() == k);
                    }
                }
                c = c + 1;
            }
        }
        lf
    }

    /// A lock file read from disk: its version must be the current one.
    pub fn from_parsed(version: u64, packages: Vec<LockedPackage>) -> (r: Result<LockFile, Error>)
        ensures
            version != LOCK_FILE_V1 <==> r is Err,
            r is Err ==> r->Err_0 == Error::UnsupportedLockVersion,
            match r {
                Ok(lf) => lf.wf() && lf.version_spec() == version
                    && forall|k: LockKey| has_key(lf.packages_spec(), k) <==> has_key(packages@, k),
                Err(_) => true,
            },
    {
        if version != LOCK_FILE_V1 {
            return Err(Error::UnsupportedLockVersion);
        }
        Ok(LockFile::new(packages))
    }

    /// The locked version for a package from a registry under exactly this
    /// requirement, if the lock file has one: the first such entry.
    pub fn resolve(&self, registry: Option<&str>, package: &PackageRef, requirement: &VersionReq) -> (r: Option<&LockedPackageVersion>)
        ensures
            match r {
                Some(v) => v.requirement@ == requirement@ && exists|i: int, j: int|
                    0 <= i < self.packages_spec().len() && self.packages_spec()[i].key() == lookup_key(registry, package)
                    && 0 <= j < self.packages_spec()[i].versions@.len() && self.packages_spec()[i].versions@[j] == *v,
                None => forall|i: int, j: int|
                    0 <= i < self.packages_spec().len() && self.packages_spec()[i].key() == lookup_key(registry, package)
                    && 0 <= j < self.packages_spec()[i].versions@.len()
                    ==> self.packages_spec()[i].versions@[j].requirement@ != requirement@,
            },
    {
        let ghost key = lookup_key(registry, package);
        let mut i: usize = 0;
        while i < self.packages.len()
            invariant
                0 <= i <= self.packages@.len(),
                key == lookup_key(registry, package),
                forall|a: int, b: int|
                    0 <= a < i && self.packages@[a].key() == key && 0 <= b < self.packages@[a].versions@.len()
                    ==> self.packages@[a].versions@[b].requirement@ != requirement@,
            decreases self.packages@.len() - i,
        {
            let p = &self.packages[i];
            let same_registry = match (&p.registry, registry) {
                (None, None) => true,
                (Some(a), Some(b)) => text_eq(a.as_str(), b),
                _ => false,
            };
            if same_registry && p.name.same(package) {
                assert(p.key() == key);
                let mut j: usize = 0;
                while j < p.versions.len()
                    invariant
                        0 <= i < self.packages@.len(),
                        *p == self.packages@[i as int],
                        p.key() == key,
                        key == lookup_key(registry, package),
                        0 <= j <= p.versions@.len(),
                        forall|b: int| 0 <= b < j ==> p.versions@[b].requirement@ != requirement@,
                    decreases p.versions@.len() - j,
                {
                    if p.versions[j].requirement.same(requirement) {
                        assert(self.packages_spec()[i as int].key() == lookup_key(registry, package));
                        assert(self.packages_spec()[i as int].versions@[j as int] == p.versions@[j as int]);
                        return Some(&p.versions[j]);
                    }
                    j = j + 1;
                }
            }
            i = i + 1;
        }
        None
    }

    /// The packages, in key order.
    pub fn packages(&self) -> (r: &Vec<LockedPackage>)
        ensures
            r@ == self.packages_spec(),
    {
        &self.packages
    }

    /// Adds a package, replacing the entry with the same key if there is
    /// one.
    pub fn insert(&mut self, package: LockedPackage)
        requires
            old(self).wf(),
        ensures
            final(self).wf(),
            final(self).version_spec() == old(self).version_spec(),
            exists|i: int| 0 <= i < final(self).packages_spec().len() && final(self).packages_spec()[i] == package,
            forall|k: LockKey| has_key(final(self).packages_spec(), k) <==> (has_key(old(self).packages_spec(), k) || k == package.key()),
            forall|q: LockedPackage| q.key() != package.key() ==> (
                (exists|i: int| 0 <= i < final(self).packages_spec().len() && final(self).packages_spec()[i] == q)
                <==> (exists|i: int| 0 <= i < old(self).packages_spec().len() && old(self).packages_spec()[i] == q)),
    {
        let n = self.packages.len();
        let mut p: usize = 0;
        let mut stop = false;
        let mut equal = false;
        let ghost old_p = self.packages@;
        let ghost ks = keys(old_p);
        while p < n && !stop
            invariant
                n == old_p.len(),
                self.packages@ == old_p,
                ks == keys(old_p),
                keys_ascending(ks),
                0 <= p <= n,
                p > 0 ==> key_lt(ks[p - 1], package.key()),
                stop ==> p < n,
                stop && equal ==> ks[p as int] == package.key(),
                stop && !equal ==> key_lt(package.key(), ks[p as int]),
                !stop ==> !equal,
            decreases n - p + (if stop { 0int } else { 1int }),
        {
            assert(ks[p as int] == self.packages@[p as int].key());
            match key_compare(&self.packages[p], &package) {
                core::cmp::Ordering::Less => {
                    p = p + 1;
                },
                core::cmp::Ordering::Equal => {
                    stop = true;
                    equal = true;
                },
                core::cmp::Ordering::Greater => {
                    stop = true;
                },
            }
        }
        let ghost pkv = package;
        if equal {
            self.packages.set(p, package);
            proof {
                lemma_replace_same_key(old_p, p as int, pkv);
            }
        } else {
            self.packages.insert(p, package);
            proof {
                lemma_insert_key(old_p, p as int, pkv);
            }
        }
    }
}

/// Replacing an entry by a package with the same key keeps the order and
/// the keys, and drops only the replaced entry.
proof fn lemma_replace_same_key(v: Seq<LockedPackage>, p: int, x: LockedPackage)
    requires
        keys_ascending(keys(v)),
        0 <= p < v.len(),
        v[p].key() == x.key(),
    ensures
        keys_ascending(keys(v.update(p, x))),
        v.update(p, x)[p] == x,
        forall|k: LockKey| has_key(v.update(p, x), k) <==> (has_key(v, k) || k == x.key()),
        forall|q: LockedPackage| q.key() != x.key() ==> (
            (exists|i: int| 0 <= i < v.update(p, x).len() && v.update(p, x)[i] == q)
            <==> (exists|i: int| 0 <= i < v.len() && v[i] == q)),
{
    let w = v.update(p, x);
    assert(keys(w) =~= keys(v));
    assert forall|k: LockKey| has_key(w, k) <==> (has_key(v, k) || k == x.key()) by {
        if has_key(w, k) {
            let i = choose|i: int| 0 <= i < w.len() && w[i].key() == k;
            assert(v[i].key() == k);
        }
        if has_key(v, k) {
            let i = choose|i: int| 0 <= i < v.len() && v[i].key() == k;
            assert(w[i].key() == k);
        }
        if k == x.key() {
            assert(w[p].key() == k);
        }
    }
    assert forall|q: LockedPackage| q.key() != x.key() implies (
        (exists|i: int| 0 <= i < w.len() && w[i] == q) <==> (exists|i: int| 0 <= i < v.len() && v[i] == q)) by {
        if exists|i: int| 0 <= i < w.len() && w[i] == q {
            let i = choose|i: int| 0 <= i < w.len() && w[i] == q;
            assert(i != p);
            assert(v[i] == q);
        }
        if exists|i: int| 0 <= i < v.len() && v[i] == q {
            let i = choose|i: int| 0 <= i < v.len() && v[i] == q;
            assert(i != p);
            assert(w[i] == q);
        }
    }
}

/// Putting a package between its neighbours in key order keeps the order,
/// adds its key and keeps every other entry.
proof fn lemma_insert_key(v: Seq<LockedPackage>, p: int, x: LockedPackage)
    requires
        keys_ascending(keys(v)),
        0 <= p <= v.len(),
        p > 0 ==> key_lt(keys(v)[p - 1], x.key()),
        p < v.len() ==> key_lt(x.key(), keys(v)[p]),
    ensures
        keys_ascending(keys(v.insert(p, x))),
        v.insert(p, x)[p] == x,
        forall|k: LockKey| has_key(v.insert(p, x), k) <==> (has_key(v, k) || k == x.key()),
        forall|q: LockedPackage| q.key() != x.key() ==> (
            (exists|i: int| 0 <= i < v.insert(p, x).len() && v.insert(p, x)[i] == q)
            <==> (exists|i: int| 0 <= i < v.len() && v[i] == q)),
{
    let w = v.insert(p, x);
    let ks = keys(v);
    let kw = keys(w);
    assert(kw =~= ks.insert(p, x.key()));
    assert forall|i: int| 0 <= i < kw.len() - 1 implies key_lt(#[trigger] kw[i], kw[i + 1]) by {
        if i < p - 1 {
            assert(kw[i] == ks[i] && kw[i + 1] == ks[i + 1]);
        } else if i == p - 1 {
            assert(kw[i] == ks[i] && kw[i + 1] == x.key());
        } else if i == p {
            assert(kw[i] == x.key() && kw[i + 1] == ks[i]);
        } else {
            assert(kw[i] == ks[i - 1] && kw[i + 1] == ks[i]);
        }
    }
    assert forall|k: LockKey| has_key(w, k) <==> (has_key(v, k) || k == x.key()) by {
        if has_key(w, k) {
            let i = choose|i: int| 0 <= i < w.len() && w[i].key() == k;
            if i < p {
                assert(v[i].key() == k);
            } else if i > p {
                assert(v[i - 1].key() == k);
            }
        }
        if has_key(v, k) {
            let i = choose|i: int| 0 <= i < v.len() && v[i].key() == k;
            if i < p {
                assert(w[i].key() == k);
            } else {
                assert(w[i + 1].key() == k);
            }
        }
        if k == x.key() {
            assert(w[p].key() == k);
        }
    }
    assert forall|q: LockedPackage| q.key() != x.key() implies (
        (exists|i: int| 0 <= i < w.len() && w[i] == q) <==> (exists|i: int| 0 <= i < v.len() && v[i] == q)) by {
        if exists|i: int| 0 <= i < w.len() && w[i] == q {
            let i = choose|i: int| 0 <= i < w.len() && w[i] == q;
            if i < p {
                assert(v[i] == q);
            } else if i > p {
                assert(v[i - 1] == q);
            }
        }
        if exists|i: int| 0 <= i < v.len() && v[i] == q {
            let i = choose|i: int| 0 <= i < v.len() && v[i] == q;
            if i < p {
                assert(w[i] == q);
            } else {
                assert(w[i + 1] == q);
            }
        }
    }
}

/// The key to look a package up under.
pub open spec fn lookup_key(registry: Option<&str>, package: &PackageRef) -> LockKey {
    (package@.0, package@.1, match registry {
        Some(r) => Some(r@),
        None => None,
    })
}

} // verus!
