use vstd::prelude::*;

use crate::digest::ContentDigest;
use crate::lock::{has_key, LockFile, LockKey, LockedPackage, LockedPackageVersion, LOCK_FILE_V1};
use crate::metadata::opt_text;
use crate::package::PackageRef;
use crate::error::Error;
use crate::package::package_ref_text;
use crate::text::text_eq;
use crate::textmap::TextMap;
use crate::version::{Version, VersionReq, VersionView};

verus! {

/// A dependency resolved from a registry.
#[derive(Debug, Clone)]
pub struct RegistryResolution {
    /// The dependency's name.
    pub name: PackageRef,
    /// The registry package it resolved to.
    pub package: PackageRef,
    /// The registry it was resolved from, if one was named.
    pub registry: Option<String>,
    /// The requirement it was resolved for.
    pub requirement: VersionReq,
    /// The version picked.
    pub version: Version,
    /// The digest of the version's content.
    pub digest: ContentDigest,
}

/// A dependency resolved to a local path.
#[derive(Debug, Clone)]
pub struct LocalResolution {
    pub name: PackageRef,
    pub path: String,
}

/// How a dependency was resolved.
#[derive(Debug, Clone)]
pub enum DependencyResolution {
    Registry(RegistryResolution),
    Local(LocalResolution),
}

/// The lock key of a registry resolution.
pub open spec fn resolution_key(r: RegistryResolution) -> LockKey {
    (r.package@.0, r.package@.1, opt_text(r.registry))
}

/// The plain value of a locked version: requirement, version, digest hex.
pub open spec fn locked_view(v: LockedPackageVersion) -> (Seq<char>, VersionView, Seq<char>) {
    (v.requirement@, v.version@, v.digest.hex_spec())
}

/// The plain value a registry resolution locks.
pub open spec fn resolution_locked_view(r: RegistryResolution) -> (Seq<char>, VersionView, Seq<char>) {
    (r.requirement@, r.version@, r.digest.hex_spec())
}

/// Entry `i` is a registry resolution with key `k`.
pub open spec fn registry_at(rs: Seq<DependencyResolution>, i: int, k: LockKey) -> bool {
    0 <= i < rs.len() && match rs[i] {
        DependencyResolution::Registry(r) => resolution_key(r) == k,
        DependencyResolution::Local(_) => false,
    }
}

/// Entry `i` is a registry resolution with key `k` that locks `v`.
pub open spec fn registry_locks(rs: Seq<DependencyResolution>, i: int, k: LockKey, v: (Seq<char>, VersionView, Seq<char>)) -> bool {
    0 <= i < rs.len() && match rs[i] {
        DependencyResolution::Registry(r) => resolution_key(r) == k && resolution_locked_view(r) == v,
        DependencyResolution::Local(_) => false,
    }
}

impl DependencyResolution {
    /// The dependency's name.
    pub fn name(&self) -> (r: &PackageRef)
        ensures
            match self {
                DependencyResolution::Registry(x) => r == &x.name,
                DependencyResolution::Local(x) => r == &x.name,
            },
    {
        match self {
            DependencyResolution::Registry(x) => &x.name,
            DependencyResolution::Local(x) => &x.name,
        }
    }

    /// The version picked, for a registry resolution.
    pub fn version(&self) -> (r: Option<&Version>)
        ensures
            match self {
                DependencyResolution::Registry(x) => r == Some(&x.version),
                DependencyResolution::Local(_) => r is None,
            },
    {
        match self {
            DependencyResolution::Registry(x) => Some(&x.version),
            DependencyResolution::Local(_) => None,
        }
    }
}

/// Whether a locked package has the key of a registry resolution.
fn same_key(p: &LockedPackage, r: &RegistryResolution) -> (b: bool)
    ensures
        b == (p.key() == resolution_key(*r)),
{
    let reg = match (&p.registry, &r.registry) {
        (None, None) => true,
        (Some(a), Some(b)) => text_eq(a.as_str(), b.as_str()),
        _ => false,
    };
    reg && p.name.same(&r.package)
}

/// The locked entry of a registry resolution.
fn locked_entry(r: &RegistryResolution) -> (v: LockedPackageVersion)
    ensures
        locked_view(v) == resolution_locked_view(*r),
{
    LockedPackageVersion { requirement: r.requirement.copy(), version: r.version.copy(), digest: r.digest.copy() }
}

/// The locked packages of a set of resolutions: one per registry package
/// and registry, each holding one entry per requirement; local resolutions
/// are left out. Where two resolutions share a package, registry and
/// requirement, the later one is kept.
pub fn locked_packages(resolutions: &Vec<DependencyResolution>) -> (out: Vec<LockedPackage>)
    ensures
        forall|k: LockKey| has_key(out@, k) <==> exists|i: int| registry_at(resolutions@, i, k),
        forall|a: int| 0 <= a < out@.len() ==> from_first(resolutions@, resolutions@.len() as int, #[trigger] out@[a]),
        forall|i: int| 0 <= i < resolutions@.len() ==> covered(#[trigger] resolutions@[i], out@),
{
    let mut out: Vec<LockedPackage> = Vec::new();
    let mut i: usize = 0;
    while i < resolutions.len()
        invariant
            0 <= i <= resolutions@.len(),
            lock_inv(resolutions@, i as int, out@),
        decreases resolutions@.len() - i,
    {
        match &resolutions[i] {
            DependencyResolution::Local(_) => {
                proof {
                    lemma_local_step(resolutions@, i as int, out@);
                }
            },
            DependencyResolution::Registry(r) => {
                let ghost rk = resolution_key(*r);
                let ghost rv = resolution_locked_view(*r);
                proof {
                    assert(resolutions@[i as int] == DependencyResolution::Registry(*r));
                }
                let mut a: usize = 0;
                let mut found = false;
                while a < out.len() && !found
                    invariant
                        0 <= i < resolutions@.len(),
                        resolutions@[i as int] == DependencyResolution::Registry(*r),
                        rk == resolution_key(*r),
                        lock_inv(resolutions@, i as int, out@),
                        0 <= a <= out@.len(),
                        found ==> a < out@.len() && out@[a as int].key() == rk,
                        !found ==> forall|c: int| 0 <= c < a ==> out@[c].key() != rk,
                    decreases out@.len() - a + (if found { 0int } else { 1int }),
                {
                    if same_key(&out[a], r) {
                        found = true;
                    } else {
                        a = a + 1;
                    }
                }
                let ghost pre = out@;
                if found {
                    let mut pkg = out.remove(a);
                    let mut b: usize = 0;
                    let mut hit = false;
                    while b < pkg.versions.len() && !hit
                        invariant
                            pkg == pre[a as int],
                            0 <= b <= pkg.versions@.len(),
                            hit ==> b < pkg.versions@.len() && pkg.versions@[b as int].requirement@ == r.requirement@,
                        decreases pkg.versions@.len() - b + (if hit { 0int } else { 1int }),
                    {
                        if pkg.versions[b].requirement.same(&r.requirement) {
                            hit = true;
                        } else {
                            b = b + 1;
                        }
                    }
                    let ghost pv = pkg.versions@;
                    let ghost old_pkg = pkg;
                    let e = locked_entry(r);
                    let ghost ev = e;
                    if hit {
                        pkg.versions.set(b, e);
                    } else {
                        pkg.versions.push(e);
                    }
                    let ghost bi: int = if hit { b as int } else { pv.len() as int };
                    assert(out@ == pre.remove(a as int));
                    out.insert(a, pkg);
                    proof {
                        assert(out@ =~= pre.update(a as int, pkg));
                        assert(pkg.key() == pre[a as int].key());
                        assert(0 <= bi < pkg.versions@.len() && pkg.versions@[bi] == ev);
                        assert(forall|c: int| 0 <= c < pkg.versions@.len() && c != bi ==> pkg.versions@[c] == pv[c]);
                        assert(pkg.versions@.len() == pv.len() || (bi == pv.len() && pkg.versions@.len() == bi + 1));
                        assert(pre[a as int].versions@ == pv);
                        lemma_update_step(resolutions@, i as int, *r, pre, a as int, pkg, bi);
                    }
                } else {
                    let mut versions: Vec<LockedPackageVersion> = Vec::new();
                    versions.push(locked_entry(r));
                    let pkg = LockedPackage { name: r.package.copy(), registry: match &r.registry {
                        Some(s) => Some(s.clone()),
                        None => None,
                    }, versions };
                    let ghost pk = pkg;
                    out.push(pkg);
                    proof {
                        assert(pk.versions@.len() == 1);
                        assert(locked_view(pk.versions@[0]) == resolution_locked_view(*r));
                        lemma_new_step(resolutions@, i as int, *r, pre, pk);
                    }
                }
            },
        }
        i = i + 1;
    }
    out
}

impl LockFile {
    /// A lock file of the current format for a set of resolutions: one
    /// package per registry package and registry.
    pub fn from_dependencies(resolutions: &Vec<DependencyResolution>) -> (r: LockFile)
        ensures
            r.wf(),
            r.version_spec() == LOCK_FILE_V1,
            forall|k: LockKey| has_key(r.packages_spec(), k) <==> exists|i: int| registry_at(resolutions@, i, k),
    {
        LockFile::new(locked_packages(resolutions))
    }

    /// Replaces the packages by those of a set of resolutions.
    pub fn update_dependencies(&mut self, resolutions: &Vec<DependencyResolution>)
        ensures
            final(self).wf(),
            final(self).version_spec() == LOCK_FILE_V1,
            forall|k: LockKey| has_key(final(self).packages_spec(), k) <==> exists|i: int| registry_at(resolutions@, i, k),
    {
        *self = LockFile::from_dependencies(resolutions);
    }
}

/// A registry dependency waiting to be resolved.
#[derive(Debug, Clone)]
pub struct RegistryDependency {
    /// The registry package it names.
    pub package: PackageRef,
    /// The version requirement.
    pub requirement: VersionReq,
    /// The version and digest the lock file holds for it, if any.
    pub locked: Option<(Version, ContentDigest)>,
}

/// The key text of a dependency name.
pub open spec fn name_key(name: PackageRef) -> Seq<char> {
    package_ref_text(name@.0, name@.1)
}

/// The bookkeeping of a dependency resolution: registry dependencies still
/// to resolve and resolutions already made, both by dependency name.
pub struct DependencyResolver {
    offline: bool,
    dependencies: TextMap<RegistryDependency>,
    resolutions: TextMap<DependencyResolution>,
}

impl DependencyResolver {
    /// Registry dependencies still to resolve.
    pub closed spec fn pending(&self) -> TextMap<RegistryDependency> {
        self.dependencies
    }

    /// Resolutions made.
    pub closed spec fn resolved(&self) -> TextMap<DependencyResolution> {
        self.resolutions
    }

    /// Whether the resolver works without a registry.
    pub closed spec fn offline_spec(&self) -> bool {
        self.offline
    }

    /// The maps are well formed.
    pub open spec fn wf(&self) -> bool {
        self.pending().wf() && self.resolved().wf()
    }

    /// A resolver; working offline needs a lock file.
    pub fn new(offline: bool, has_lock_file: bool) -> (r: Result<DependencyResolver, Error>)
        ensures
            (offline && !has_lock_file) <==> r is Err,
            r is Err ==> r->Err_0 == Error::InvalidConfig,
            match r {
                Ok(d) => d.wf() && d.offline_spec() == offline && d.pending().size() == 0 && d.resolved().size() == 0,
                Err(_) => true,
            },
    {
        if offline && !has_lock_file {
            return Err(Error::InvalidConfig);
        }
        Ok(DependencyResolver { offline, dependencies: TextMap::new(), resolutions: TextMap::new() })
    }

    /// Whether the resolver works without a registry.
    pub fn is_offline(&self) -> (r: bool)
        ensures
            r == self.offline_spec(),
    {
        self.offline
    }

    /// Adds a registry dependency under `name`. Without `force_override` it
    /// is ignored when the name is already pending or resolved; with it, it
    /// replaces the pending one. Returns whether it was added.
    pub fn add_registry_dependency(&mut self, name: &PackageRef, dependency: RegistryDependency, force_override: bool) -> (r: bool)
        requires
            old(self).wf(),
        ensures
            final(self).wf(),
            r == (force_override || !(old(self).pending().has(name_key(*name)) || old(self).resolved().has(name_key(*name)))),
            r ==> final(self).pending().maps(name_key(*name), dependency),
            r ==> forall|k: Seq<char>, d: RegistryDependency| k != name_key(*name) ==> (final(self).pending().maps(k, d) <==> old(self).pending().maps(k, d)),
            !r ==> final(self).pending() == old(self).pending(),
            final(self).resolved() == old(self).resolved(),
            final(self).offline_spec() == old(self).offline_spec(),
    {
        let key = name.to_string();
        if !force_override && (self.dependencies.get(key.as_str()).is_some() || self.resolutions.get(key.as_str()).is_some()) {
            return false;
        }
        self.dependencies.insert(key, dependency);
        true
    }

    /// Starts replacing `name` by a local dependency: it goes ahead when
    /// overriding, when `name` is a pending registry dependency, or when it
    /// is not resolved yet; the pending registry dependency is then dropped.
    /// Returns whether it goes ahead; the caller then adds the local
    /// package's own dependencies and calls `finish_local`.
    pub fn begin_local(&mut self, name: &PackageRef, force_override: bool) -> (r: bool)
        requires
            old(self).wf(),
        ensures
            final(self).wf(),
            r == (force_override || old(self).pending().has(name_key(*name)) || !old(self).resolved().has(name_key(*name))),
            r ==> !final(self).pending().has(name_key(*name)),
            r ==> forall|k: Seq<char>, d: RegistryDependency| k != name_key(*name) ==> (final(self).pending().maps(k, d) <==> old(self).pending().maps(k, d)),
            !r ==> final(self).pending() == old(self).pending(),
            final(self).resolved() == old(self).resolved(),
            final(self).offline_spec() == old(self).offline_spec(),
    {
        let key = name.to_string();
        let go = force_override || self.dependencies.get(key.as_str()).is_some() || self.resolutions.get(key.as_str()).is_none();
        if go {
            self.dependencies.remove(key.as_str());
        }
        go
    }

    /// Records the local resolution of `name`.
    pub fn finish_local(&mut self, name: &PackageRef, path: String)
        requires
            old(self).wf(),
        ensures
            final(self).wf(),
            exists|x: DependencyResolution| final(self).resolved().maps(name_key(*name), x) && x is Local,
            forall|k: Seq<char>, x: DependencyResolution| k != name_key(*name) ==> (final(self).resolved().maps(k, x) <==> old(self).resolved().maps(k, x)),
            final(self).pending() == old(self).pending(),
            final(self).offline_spec() == old(self).offline_spec(),
    {
        let res = DependencyResolution::Local(LocalResolution { name: name.copy(), path });
        let ghost rv = res;
        self.resolutions.insert(name.to_string(), res);
        assert(self.resolved().maps(name_key(*name), rv));
    }

    /// Records the registry resolution of `name`, which is then no longer
    /// pending.
    pub fn record(&mut self, name: &PackageRef, resolution: RegistryResolution)
        requires
            old(self).wf(),
        ensures
            final(self).wf(),
            final(self).resolved().maps(name_key(*name), DependencyResolution::Registry(resolution)),
            forall|k: Seq<char>, x: DependencyResolution| k != name_key(*name) ==> (final(self).resolved().maps(k, x) <==> old(self).resolved().maps(k, x)),
            !final(self).pending().has(name_key(*name)),
            final(self).offline_spec() == old(self).offline_spec(),
    {
        let key = name.to_string();
        self.dependencies.remove(key.as_str());
        self.resolutions.insert(key, DependencyResolution::Registry(resolution));
    }

    /// The number of pending registry dependencies.
    pub fn pending_count(&self) -> (r: usize)
        requires
            self.wf(),
        ensures
            r == self.pending().size(),
    {
        self.dependencies.len()
    }

    /// The pending registry dependency at position `i`, with its name text.
    pub fn pending_at(&self, i: usize) -> (r: (&str, &RegistryDependency))
        requires
            self.wf(),
            i < self.pending().size(),
        ensures
            r.0@ == self.pending().key_seq()[i as int],
            *r.1 == self.pending().val_seq()[i as int],
    {
        (self.dependencies.key_at(i), self.dependencies.val_at(i))
    }

    /// The resolutions made, in the order their names were first recorded.
    pub fn into_resolutions(self) -> (r: Vec<DependencyResolution>)
        ensures
            r@ == self.resolved().val_seq(),
    {
        self.resolutions.into_vals()
    }
}

/// A registry resolution has an entry for its requirement in the list.
pub open spec fn covered(d: DependencyResolution, out: Seq<LockedPackage>) -> bool {
    match d {
        DependencyResolution::Registry(r) => exists|a: int, b: int| 0 <= a < out.len() && out[a].key() == resolution_key(r)
            && 0 <= b < out[a].versions@.len() && #[trigger] out[a].versions@[b].requirement@ == r.requirement@,
        DependencyResolution::Local(_) => true,
    }
}

/// After the first `n` resolutions: the list has exactly their registry
/// keys, every entry comes from one of them, and each of them is covered.
pub open spec fn lock_inv(rs: Seq<DependencyResolution>, n: int, out: Seq<LockedPackage>) -> bool {
    &&& inv_keys(rs, n, out)
    &&& inv_from(rs, n, out)
    &&& inv_covered(rs, n, out)
}

/// The list has exactly the registry keys of the first `n` resolutions.
pub open spec fn inv_keys(rs: Seq<DependencyResolution>, n: int, out: Seq<LockedPackage>) -> bool {
    forall|k: LockKey| has_key(out, k) <==> exists|j: int| 0 <= j < n && registry_at(rs, j, k)
}

/// Every entry of the list comes from one of the first `n` resolutions.
pub open spec fn inv_from(rs: Seq<DependencyResolution>, n: int, out: Seq<LockedPackage>) -> bool {
    forall|a: int| 0 <= a < out.len() ==> from_first(rs, n, #[trigger] out[a])
}

/// Each of the first `n` resolutions is covered by the list.
pub open spec fn inv_covered(rs: Seq<DependencyResolution>, n: int, out: Seq<LockedPackage>) -> bool {
    forall|j: int| 0 <= j < n ==> covered(#[trigger] rs[j], out)
}

/// Every entry of `p` is locked by one of the first `n` resolutions.
pub open spec fn from_first(rs: Seq<DependencyResolution>, n: int, p: LockedPackage) -> bool {
    forall|b: int| 0 <= b < p.versions@.len() ==> locked_by(rs, n, p.key(), locked_view(#[trigger] p.versions@[b]))
}

/// One of the first `n` resolutions locks `v` under key `k`.
pub open spec fn locked_by(rs: Seq<DependencyResolution>, n: int, k: LockKey, v: (Seq<char>, VersionView, Seq<char>)) -> bool {
    exists|j: int| 0 <= j < n && registry_locks(rs, j, k, v)
}

proof fn lemma_from_first_grows(rs: Seq<DependencyResolution>, n: int, p: LockedPackage)
    requires
        from_first(rs, n, p),
    ensures
        from_first(rs, n + 1, p),
{
    assert forall|b: int| 0 <= b < p.versions@.len() implies locked_by(rs, n + 1, p.key(), locked_view(#[trigger] p.versions@[b])) by {
        assert(locked_by(rs, n, p.key(), locked_view(p.versions@[b])));
        let j = choose|j: int| 0 <= j < n && registry_locks(rs, j, p.key(), locked_view(p.versions@[b]));
        assert(0 <= j < n + 1 && registry_locks(rs, j, p.key(), locked_view(p.versions@[b])));
    }
}

proof fn lemma_local_step(rs: Seq<DependencyResolution>, i: int, out: Seq<LockedPackage>)
    requires
        0 <= i < rs.len(),
        rs[i] is Local,
        lock_inv(rs, i, out),
    ensures
        lock_inv(rs, i + 1, out),
{
    assert forall|k: LockKey| has_key(out, k) <==> exists|j: int| 0 <= j < i + 1 && registry_at(rs, j, k) by {
        if exists|j: int| 0 <= j < i + 1 && registry_at(rs, j, k) {
            let j = choose|j: int| 0 <= j < i + 1 && registry_at(rs, j, k);
            assert(j != i);
        }
    }
    assert forall|a: int| 0 <= a < out.len() implies from_first(rs, i + 1, #[trigger] out[a]) by {
        lemma_from_first_grows(rs, i, out[a]);
    }
}

#[verifier::rlimit(60)]
proof fn lemma_new_step(rs: Seq<DependencyResolution>, i: int, r: RegistryResolution, pre: Seq<LockedPackage>, pk: LockedPackage)
    requires
        0 <= i < rs.len(),
        rs[i] == DependencyResolution::Registry(r),
        lock_inv(rs, i, pre),
        pk.key() == resolution_key(r),
        pk.versions@.len() == 1,
        locked_view(pk.versions@[0]) == resolution_locked_view(r),
    ensures
        lock_inv(rs, i + 1, pre.push(pk)),
{
    let out = pre.push(pk);
    assert(registry_at(rs, i, resolution_key(r)));
    assert forall|k: LockKey| has_key(out, k) <==> exists|j: int| 0 <= j < i + 1 && registry_at(rs, j, k) by {
        if has_key(out, k) {
            let a = choose|a: int| 0 <= a < out.len() && out[a].key() == k;
            if a < pre.len() {
                assert(pre[a].key() == k);
                assert(has_key(pre, k));
            }
        }
        if exists|j: int| 0 <= j < i + 1 && registry_at(rs, j, k) {
            let j = choose|j: int| 0 <= j < i + 1 && registry_at(rs, j, k);
            if j < i {
                let a = choose|a: int| 0 <= a < pre.len() && pre[a].key() == k;
                assert(out[a].key() == k);
            } else {
                assert(out[pre.len() as int].key() == k);
            }
        }
    }
    assert forall|a: int| 0 <= a < out.len() implies from_first(rs, i + 1, #[trigger] out[a]) by {
        if a < pre.len() {
            assert(out[a] == pre[a]);
            lemma_from_first_grows(rs, i, pre[a]);
        } else {
            assert(out[a] == pk);
            assert forall|b: int| 0 <= b < pk.versions@.len() implies locked_by(rs, i + 1, pk.key(), locked_view(#[trigger] pk.versions@[b])) by {
                assert(b == 0);
                assert(registry_locks(rs, i, pk.key(), locked_view(pk.versions@[b])));
            }
        }
    }
    assert forall|j: int| 0 <= j < i + 1 implies covered(#[trigger] rs[j], out) by {
        if j < i {
            match rs[j] {
                DependencyResolution::Registry(q) => {
                    let (a, b) = choose|a: int, b: int| 0 <= a < pre.len() && pre[a].key() == resolution_key(q)
                        && 0 <= b < pre[a].versions@.len() && #[trigger] pre[a].versions@[b].requirement@ == q.requirement@;
                    assert(out[a] == pre[a]);
                },
                DependencyResolution::Local(_) => {},
            }
        } else {
            let a = pre.len() as int;
            assert(out[a] == pk);
            assert(out[a].versions@[0].requirement@ == r.requirement@);
        }
    }
}

proof fn lemma_update_step(
    rs: Seq<DependencyResolution>,
    i: int,
    r: RegistryResolution,
    pre: Seq<LockedPackage>,
    a: int,
    pkg: LockedPackage,
    bi: int,
)
    requires
        0 <= i < rs.len(),
        rs[i] == DependencyResolution::Registry(r),
        lock_inv(rs, i, pre),
        0 <= a < pre.len(),
        pre[a].key() == resolution_key(r),
        pkg.key() == pre[a].key(),
        0 <= bi < pkg.versions@.len(),
        pkg.versions@.len() == pre[a].versions@.len() || (bi == pre[a].versions@.len() && pkg.versions@.len() == bi + 1),
        locked_view(pkg.versions@[bi]) == resolution_locked_view(r),
        bi < pre[a].versions@.len() ==> pre[a].versions@[bi].requirement@ == r.requirement@,
        forall|c: int| 0 <= c < pkg.versions@.len() && c != bi ==> pkg.versions@[c] == pre[a].versions@[c],
    ensures
        lock_inv(rs, i + 1, pre.update(a, pkg)),
{
    lemma_update_keys(rs, i, r, pre, a, pkg, bi);
    lemma_update_from(rs, i, r, pre, a, pkg, bi);
    lemma_update_covered(rs, i, r, pre, a, pkg, bi);
}

proof fn lemma_update_keys(
    rs: Seq<DependencyResolution>,
    i: int,
    r: RegistryResolution,
    pre: Seq<LockedPackage>,
    a: int,
    pkg: LockedPackage,
    bi: int,
)
    requires
        0 <= i < rs.len(),
        rs[i] == DependencyResolution::Registry(r),
        inv_keys(rs, i, pre),
        0 <= a < pre.len(),
        pre[a].key() == resolution_key(r),
        pkg.key() == pre[a].key(),
        0 <= bi < pkg.versions@.len(),
        pkg.versions@.len() == pre[a].versions@.len() || (bi == pre[a].versions@.len() && pkg.versions@.len() == bi + 1),
        locked_view(pkg.versions@[bi]) == resolution_locked_view(r),
        bi < pre[a].versions@.len() ==> pre[a].versions@[bi].requirement@ == r.requirement@,
        forall|c: int| 0 <= c < pkg.versions@.len() && c != bi ==> pkg.versions@[c] == pre[a].versions@[c],
    ensures
        inv_keys(rs, i + 1, pre.update(a, pkg)),
{
    let out = pre.update(a, pkg);
    assert(registry_at(rs, i, resolution_key(r)));
    assert forall|k: LockKey| has_key(out, k) <==> exists|j: int| 0 <= j < i + 1 && registry_at(rs, j, k) by {
        if has_key(out, k) {
            let c = choose|c: int| 0 <= c < out.len() && out[c].key() == k;
            if c != a {
                assert(out[c] == pre[c]);
            }
            assert(pre[c].key() == k);
            assert(has_key(pre, k));
        }
        if exists|j: int| 0 <= j < i + 1 && registry_at(rs, j, k) {
            let j = choose|j: int| 0 <= j < i + 1 && registry_at(rs, j, k);
            if j < i {
                assert(exists|j2: int| 0 <= j2 < i && registry_at(rs, j2, k));
                assert(has_key(pre, k));
                let c = choose|c: int| 0 <= c < pre.len() && pre[c].key() == k;
                if c == a {
                    assert(out[a].key() == k);
                } else {
                    assert(out[c] == pre[c]);
                    assert(out[c].key() == k);
                }
            } else {
                assert(out[a].key() == k);
            }
        }
    }
}

proof fn lemma_update_from(
    rs: Seq<DependencyResolution>,
    i: int,
    r: RegistryResolution,
    pre: Seq<LockedPackage>,
    a: int,
    pkg: LockedPackage,
    bi: int,
)
    requires
        0 <= i < rs.len(),
        rs[i] == DependencyResolution::Registry(r),
        inv_from(rs, i, pre),
        0 <= a < pre.len(),
        pre[a].key() == resolution_key(r),
        pkg.key() == pre[a].key(),
        0 <= bi < pkg.versions@.len(),
        pkg.versions@.len() == pre[a].versions@.len() || (bi == pre[a].versions@.len() && pkg.versions@.len() == bi + 1),
        locked_view(pkg.versions@[bi]) == resolution_locked_view(r),
        bi < pre[a].versions@.len() ==> pre[a].versions@[bi].requirement@ == r.requirement@,
        forall|c: int| 0 <= c < pkg.versions@.len() && c != bi ==> pkg.versions@[c] == pre[a].versions@[c],
    ensures
        inv_from(rs, i + 1, pre.update(a, pkg)),
{
    let out = pre.update(a, pkg);
    assert forall|c: int| 0 <= c < out.len() implies from_first(rs, i + 1, #[trigger] out[c]) by {
        if c != a {
            assert(out[c] == pre[c]);
            lemma_from_first_grows(rs, i, pre[c]);
        } else {
            assert(out[c] == pkg);
            assert(from_first(rs, i, pre[a]));
            assert forall|b: int| 0 <= b < pkg.versions@.len() implies locked_by(rs, i + 1, pkg.key(), locked_view(#[trigger] pkg.versions@[b])) by {
                if b == bi {
                    assert(registry_locks(rs, i, pkg.key(), locked_view(pkg.versions@[b])));
                } else {
                    assert(pkg.versions@[b] == pre[a].versions@[b]);
                    assert(locked_by(rs, i, pre[a].key(), locked_view(pre[a].versions@[b])));
                    let j = choose|j: int| 0 <= j < i && registry_locks(rs, j, pre[a].key(), locked_view(pre[a].versions@[b]));
                    assert(0 <= j < i + 1 && registry_locks(rs, j, pkg.key(), locked_view(pkg.versions@[b])));
                }
            }
        }
    }
}

proof fn lemma_update_covered(
    rs: Seq<DependencyResolution>,
    i: int,
    r: RegistryResolution,
    pre: Seq<LockedPackage>,
    a: int,
    pkg: LockedPackage,
    bi: int,
)
    requires
        0 <= i < rs.len(),
        rs[i] == DependencyResolution::Registry(r),
        inv_covered(rs, i, pre),
        0 <= a < pre.len(),
        pre[a].key() == resolution_key(r),
        pkg.key() == pre[a].key(),
        0 <= bi < pkg.versions@.len(),
        pkg.versions@.len() == pre[a].versions@.len() || (bi == pre[a].versions@.len() && pkg.versions@.len() == bi + 1),
        locked_view(pkg.versions@[bi]) == resolution_locked_view(r),
        bi < pre[a].versions@.len() ==> pre[a].versions@[bi].requirement@ == r.requirement@,
        forall|c: int| 0 <= c < pkg.versions@.len() && c != bi ==> pkg.versions@[c] == pre[a].versions@[c],
    ensures
        inv_covered(rs, i + 1, pre.update(a, pkg)),
{
    let out = pre.update(a, pkg);
    assert forall|j: int| 0 <= j < i + 1 implies covered(#[trigger] rs[j], out) by {
        if j < i {
            match rs[j] {
                DependencyResolution::Registry(q) => {
                    let (c, b) = choose|c: int, b: int| 0 <= c < pre.len() && pre[c].key() == resolution_key(q)
                        && 0 <= b < pre[c].versions@.len() && #[trigger] pre[c].versions@[b].requirement@ == q.requirement@;
                    if c != a {
                        assert(out[c] == pre[c]);
                    } else if b != bi {
                        assert(out[a].versions@[b] == pre[a].versions@[b]);
                        assert(out[a].versions@[b].requirement@ == q.requirement@);
                    } else {
                        assert(out[a].versions@[bi].requirement@ == r.requirement@);
                        assert(pre[a].versions@[bi].requirement@ == r.requirement@);
                    }
                },
                DependencyResolution::Local(_) => {},
            }
        } else {
            assert(out[a].versions@[bi].requirement@ == r.requirement@);
        }
    }
}

} // verus!
