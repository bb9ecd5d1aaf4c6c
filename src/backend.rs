use vstd::prelude::*;

use crate::config::RegistryConfig;
use crate::error::Error;
use crate::metadata::{local_name, oci_name, opt_text, warg_name, RegistryMetadata};
use crate::package::{package_ref_text, PackageRef};
use crate::registry::Registry;
use crate::release::VersionInfo;
use crate::text::text_eq;
use crate::textmap::TextMap;
use crate::version::{parsed_version, version_text, Version, VersionView};

verus! {

/// The kinds of backend a registry can be served by.
#[derive(Debug, Clone, Copy, PartialEq, Eq, Structural)]
pub enum BackendKind {
    /// An OCI artifact registry.
    Oci,
    /// A signed-log registry.
    Warg,
    /// A directory on the local filesystem.
    Local,
}

/// The backend named by a text, if any.
pub open spec fn backend_named(name: Seq<char>) -> Option<BackendKind> {
    if name == oci_name() {
        Some(BackendKind::Oci)
    } else if name == warg_name() {
        Some(BackendKind::Warg)
    } else if name == local_name() {
        Some(BackendKind::Local)
    } else {
        None
    }
}

/// Registry metadata is fetched unless the local configuration picks the
/// local backend.
pub fn should_fetch_metadata(config: &RegistryConfig) -> (r: bool)
    requires
        config.wf(),
    ensures
        r == (config.default_backend_spec() != Some(local_name())),
{
    proof {
        reveal_strlit("local");
    }
    assert("local"@ == local_name());
    match config.default_backend() {
        Some(b) => !text_eq(b.as_str(), "local"),
        None => true,
    }
}

/// The metadata to route by: the mapping's inline metadata when there is
/// some, else what was fetched.
pub fn pick_metadata<'a>(inline: Option<&'a RegistryMetadata>, fetched: &'a RegistryMetadata) -> (r: &'a RegistryMetadata)
    ensures
        match inline {
            Some(m) => r == m,
            None => r == fetched,
        },
{
    match inline {
        Some(m) => m,
        None => fetched,
    }
}

/// The backend name chosen for a registry: the configured default backend,
/// else the metadata's preferred protocol, else `oci`; `Err` when only the
/// metadata asks for the local backend.
pub open spec fn chosen_backend_name(config: RegistryConfig, meta: RegistryMetadata) -> Result<Seq<char>, Error> {
    match config.default_backend_spec() {
        Some(b) => Ok(b),
        None => match meta.preferred_spec() {
            Some(p) => if p == local_name() {
                Err(Error::InvalidRegistryMetadata)
            } else {
                Ok(p)
            },
            None => Ok(oci_name()),
        },
    }
}

/// Picks the backend for a registry from its configuration and metadata.
/// An unknown backend name is a configuration error.
pub fn choose_backend(config: &RegistryConfig, meta: &RegistryMetadata) -> (r: Result<BackendKind, Error>)
    requires
        config.wf(),
        meta.wf(),
    ensures
        match chosen_backend_name(*config, *meta) {
            Err(e) => r == Err::<BackendKind, Error>(e),
            Ok(name) => match backend_named(name) {
                Some(k) => r == Ok::<BackendKind, Error>(k),
                None => r == Err::<BackendKind, Error>(Error::InvalidConfig),
            },
        },
{
    proof {
        reveal_strlit("local");
        reveal_strlit("oci");
        reveal_strlit("warg");
    }
    assert("local"@ == local_name());
    assert("oci"@ == oci_name());
    assert("warg"@ == warg_name());
    let name = match config.default_backend() {
        Some(b) => b,
        None => match meta.preferred_protocol() {
            Some(p) => {
                if text_eq(p.as_str(), "local") {
                    return Err(Error::InvalidRegistryMetadata);
                }
                p
            },
            None => String::from_str("oci"),
        },
    };
    if text_eq(name.as_str(), "oci") {
        Ok(BackendKind::Oci)
    } else if text_eq(name.as_str(), "warg") {
        Ok(BackendKind::Warg)
    } else if text_eq(name.as_str(), "local") {
        Ok(BackendKind::Local)
    } else {
        Err(Error::InvalidConfig)
    }
}

/// The backend kind of each registry for which a driver was made. At most
/// one entry per registry, matched ignoring ASCII case.
pub struct DriverMap {
    drivers: TextMap<BackendKind>,
}

impl DriverMap {
    /// The entries by registry key.
    pub closed spec fn entries(&self) -> TextMap<BackendKind> {
        self.drivers
    }

    /// The map is well formed.
    pub open spec fn wf(&self) -> bool {
        self.entries().wf()
    }

    /// An empty map.
    pub fn new() -> (r: DriverMap)
        ensures
            r.wf(),
            r.entries().size() == 0,
    {
        DriverMap { drivers: TextMap::new() }
    }

    /// The number of drivers.
    pub fn len(&self) -> (r: usize)
        requires
            self.wf(),
        ensures
            r == self.entries().size(),
    {
        self.drivers.len()
    }

    /// The driver kind of a registry, if one was made.
    pub fn get(&self, registry: &Registry) -> (r: Option<BackendKind>)
        requires
            self.wf(),
        ensures
            match r {
                Some(k) => self.entries().maps(registry.key_spec(), k),
                None => !self.entries().has(registry.key_spec()),
            },
    {
        let key = registry.key();
        match self.drivers.get(key.as_str()) {
            Some(k) => Some(*k),
            None => None,
        }
    }

    /// Records a driver for the registry unless one is already there, in
    /// which case the new one is discarded. Returns the kind that stays.
    pub fn insert_if_absent(&mut self, registry: &Registry, kind: BackendKind) -> (r: BackendKind)
        requires
            old(self).wf(),
        ensures
            final(self).wf(),
            final(self).entries().maps(registry.key_spec(), r),
            old(self).entries().has(registry.key_spec()) ==> final(self).entries() == old(self).entries(),
            !old(self).entries().has(registry.key_spec()) ==> r == kind && final(self).entries().size() == old(self).entries().size() + 1,
            forall|k: Seq<char>, v: BackendKind| k != registry.key_spec() ==> (final(self).entries().maps(k, v) <==> old(self).entries().maps(k, v)),
    {
        let key = registry.key();
        match self.drivers.get(key.as_str()) {
            Some(k) => *k,
            None => {
                self.drivers.insert(key, kind);
                kind
            },
        }
    }
}

/// Settings of the local-filesystem backend: its root directory.
#[derive(Debug, Clone)]
pub struct LocalConfig {
    pub root: String,
}

/// A local-filesystem backend rooted at a directory, laid out as
/// `<root>/<namespace>/<name>/<version>.wasm`.
#[derive(Debug, Clone)]
pub struct LocalBackend {
    root: String,
}

/// `<dir>/<part>`.
pub open spec fn join(dir: Seq<char>, part: Seq<char>) -> Seq<char> {
    dir + seq!['/'] + part
}

/// `.wasm`.
pub open spec fn wasm_ext() -> Seq<char> {
    seq!['.', 'w', 'a', 's', 'm']
}

impl LocalBackend {
    /// The root directory.
    pub closed spec fn root_spec(&self) -> Seq<char> {
        self.root@
    }

    /// A local backend from the `root` field of the registry's `local`
    /// settings; a configuration error when there is none.
    pub fn new(config: &RegistryConfig) -> (r: Result<LocalBackend, Error>)
        requires
            config.wf(),
        ensures
            match r {
                Ok(b) => config.setting(local_name(), seq!['r', 'o', 'o', 't'], b.root_spec()),
                Err(e) => e == Error::InvalidConfig && forall|t: Seq<char>| !config.setting(local_name(), seq!['r', 'o', 'o', 't'], t),
            },
    {
        proof {
            reveal_strlit("local");
            reveal_strlit("root");
        }
        assert("local"@ == local_name());
        assert("root"@ == seq!['r', 'o', 'o', 't']);
        match config.backend_config("local") {
            Some(c) => {
                proof {
                    config.lemma_setting_of(local_name(), *c);
                }
                match c.get("root") {
                    Some(root) => {
                        proof {
                            assert(c.maps_text(seq!['r', 'o', 'o', 't'], root@));
                        }
                        Ok(LocalBackend { root: root.clone() })
                    },
                    None => {
                        proof {
                            assert forall|t: Seq<char>| !c.maps_text(seq!['r', 'o', 'o', 't'], t) by {
                                if c.maps_text(seq!['r', 'o', 'o', 't'], t) {
                                    let i = choose|i: int| 0 <= i < c.key_seq().len() && c.key_seq()[i] == seq!['r', 'o', 'o', 't'] && c.val_seq()[i]@ == t;
                                }
                            }
                        }
                        Err(Error::InvalidConfig)
                    },
                }
            },
            None => {
                proof {
                    config.lemma_no_setting(local_name());
                }
                Err(Error::InvalidConfig)
            },
        }
    }

    /// A local backend with the given settings.
    pub fn from_config(config: LocalConfig) -> (r: LocalBackend)
        ensures
            r.root_spec() == config.root@,
    {
        LocalBackend { root: config.root }
    }

    /// `<root>/<namespace>/<name>`.
    pub fn package_dir(&self, package: &PackageRef) -> (r: String)
        ensures
            r@ == join(join(self.root_spec(), package@.0), package@.1),
    {
        proof {
            reveal_strlit("/");
        }
        let s = self.root.clone().concat("/");
        let s = s.concat(package.namespace().as_str());
        let s = s.concat("/");
        let r = s.concat(package.name().as_str());
        assert(r@ =~= join(join(self.root_spec(), package@.0), package@.1));
        r
    }

    /// `<root>/<namespace>/<name>/<version>.wasm`.
    pub fn version_path(&self, package: &PackageRef, version: &Version) -> (r: String)
        ensures
            r@ == join(join(join(self.root_spec(), package@.0), package@.1), version_text(version@)) + wasm_ext(),
    {
        proof {
            reveal_strlit("/");
            reveal_strlit(".wasm");
        }
        let dir = self.package_dir(package);
        let s = dir.concat("/");
        let v = version.to_string();
        let s = s.concat(v.as_str());
        let r = s.concat(".wasm");
        assert(r@ =~= join(join(join(self.root_spec(), package@.0), package@.1), version_text(version@)) + wasm_ext());
        r
    }
}

/// The versions of a package directory's file names: each name ending in
/// `.wasm` whose stem parses as a version, in order.
pub open spec fn wasm_file_versions(names: Seq<Seq<char>>) -> Seq<VersionView>
    decreases names.len(),
{
    if names.len() == 0 {
        Seq::empty()
    } else {
        let prefix = wasm_file_versions(names.drop_last());
        let n = names.last();
        if n.len() >= 5 && n.subrange(n.len() - 5, n.len() as int) == wasm_ext() {
            match parsed_version(n.subrange(0, n.len() - 5)) {
                Some(v) => prefix.push(v),
                None => prefix,
            }
        } else {
            prefix
        }
    }
}

/// The versions of a list of entries.
pub open spec fn version_views(v: Seq<VersionInfo>) -> Seq<VersionView> {
    v.map_values(|x: VersionInfo| x.version@)
}

/// Whether a file name ends in `.wasm`.
fn ends_with_wasm(name: &str) -> (r: bool)
    ensures
        r == (name@.len() >= 5 && name@.subrange(name@.len() - 5, name@.len() as int) == wasm_ext()),
{
    proof {
        reveal_strlit(".wasm");
    }
    assert(".wasm"@ == wasm_ext());
    let n = name.unicode_len();
    if n < 5 {
        return false;
    }
    let ext = name.substring_char(n - 5, n);
    text_eq(ext, ".wasm")
}

/// The versions in a local package directory, from its file names. Names
/// that end in `.wasm` but whose stem is no version are returned apart.
pub fn versions_from_file_names(names: &Vec<String>) -> (r: (Vec<VersionInfo>, Vec<String>))
    ensures
        version_views(r.0@) == wasm_file_versions(names@.map_values(|s: String| s@)),
        forall|i: int| 0 <= i < r.0@.len() ==> !(#[trigger] r.0@[i]).yanked,
{
    let ghost all = names@.map_values(|s: String| s@);
    let mut out: Vec<VersionInfo> = Vec::new();
    let mut bad: Vec<String> = Vec::new();
    let mut i: usize = 0;
    proof {
        reveal_strlit(".wasm");
    }
    assert(".wasm"@ == wasm_ext());
    while i < names.len()
        invariant
            0 <= i <= names@.len(),
            all == names@.map_values(|s: String| s@),
            version_views(out@) == wasm_file_versions(all.subrange(0, i as int)),
            forall|j: int| 0 <= j < out@.len() ==> !(#[trigger] out@[j]).yanked,
        decreases names@.len() - i,
    {
        let name = names[i].as_str();
        proof {
            assert(all.subrange(0, i + 1).drop_last() == all.subrange(0, i as int));
            assert(all.subrange(0, i + 1).last() == name@);
        }
        let n = name.unicode_len();
        if ends_with_wasm(name) {
            let stem = name.substring_char(0, n - 5);
            match Version::parse(stem) {
                Ok(v) => {
                    let ghost before = out@;
                    out.push(VersionInfo { version: v, yanked: false });
                    assert(version_views(out@) == version_views(before).push(v@));
                },
                Err(_) => {
                    bad.push(String::from_str(name));
                },
            }
        }
        i = i + 1;
    }
    assert(all.subrange(0, names@.len() as int) == all);
    (out, bad)
}

/// `sha256-`, the start of a signature artifact's tag.
pub open spec fn signature_tag_prefix() -> Seq<char> {
    seq!['s', 'h', 'a', '2', '5', '6', '-']
}

/// Whether a tag names a signature artifact.
pub open spec fn is_signature_tag(t: Seq<char>) -> bool {
    t.len() >= 7 && t.subrange(0, 7) == signature_tag_prefix()
}

/// The versions of an OCI tag list: signature tags are dropped, and each
/// other tag that parses as a version gives that version, in order.
pub open spec fn tag_versions(tags: Seq<Seq<char>>) -> Seq<VersionView>
    decreases tags.len(),
{
    if tags.len() == 0 {
        Seq::empty()
    } else {
        let prefix = tag_versions(tags.drop_last());
        let t = tags.last();
        if is_signature_tag(t) {
            prefix
        } else {
            match parsed_version(t) {
                Some(v) => prefix.push(v),
                None => prefix,
            }
        }
    }
}

/// The tags of an OCI tag list that are neither signature tags nor
/// versions, in order.
pub open spec fn ignored_tags(tags: Seq<Seq<char>>) -> Seq<Seq<char>>
    decreases tags.len(),
{
    if tags.len() == 0 {
        Seq::empty()
    } else {
        let prefix = ignored_tags(tags.drop_last());
        let t = tags.last();
        if !is_signature_tag(t) && parsed_version(t) is None {
            prefix.push(t)
        } else {
            prefix
        }
    }
}

/// Whether a tag names a signature artifact.
fn is_signature(tag: &str) -> (r: bool)
    ensures
        r == is_signature_tag(tag@),
{
    proof {
        reveal_strlit("sha256-");
    }
    assert("sha256-"@ == signature_tag_prefix());
    let n = tag.unicode_len();
    if n < 7 {
        return false;
    }
    text_eq(tag.substring_char(0, 7), "sha256-")
}

/// The versions an OCI registry's tags stand for, none of them yanked, and
/// apart the tags to warn about: those that are neither versions nor
/// signature tags.
pub fn versions_from_tags(tags: &Vec<String>) -> (r: (Vec<VersionInfo>, Vec<String>))
    ensures
        version_views(r.0@) == tag_versions(tags@.map_values(|s: String| s@)),
        forall|i: int| 0 <= i < r.0@.len() ==> !(#[trigger] r.0@[i]).yanked,
        r.1@.map_values(|s: String| s@) == ignored_tags(tags@.map_values(|s: String| s@)),
{
    let ghost all = tags@.map_values(|s: String| s@);
    let mut out: Vec<VersionInfo> = Vec::new();
    let mut bad: Vec<String> = Vec::new();
    let mut i: usize = 0;
    proof {
        reveal_strlit("sha256-");
    }
    assert("sha256-"@ == signature_tag_prefix());
    while i < tags.len()
        invariant
            0 <= i <= tags@.len(),
            all == tags@.map_values(|s: String| s@),
            version_views(out@) == tag_versions(all.subrange(0, i as int)),
            forall|j: int| 0 <= j < out@.len() ==> !(#[trigger] out@[j]).yanked,
            bad@.map_values(|s: String| s@) == ignored_tags(all.subrange(0, i as int)),
        decreases tags@.len() - i,
    {
        let tag = tags[i].as_str();
        proof {
            assert(all.subrange(0, i + 1).drop_last() == all.subrange(0, i as int));
            assert(all.subrange(0, i + 1).last() == tag@);
        }
        if !is_signature(tag) {
            match Version::parse(tag) {
                Ok(v) => {
                    let ghost before = out@;
                    out.push(VersionInfo { version: v, yanked: false });
                    assert(version_views(out@) == version_views(before).push(v@));
                },
                Err(_) => {
                    let ghost before = bad@;
                    bad.push(String::from_str(tag));
                    assert(bad@.map_values(|s: String| s@) == before.map_values(|s: String| s@).push(tag@));
                },
            }
        }
        i = i + 1;
    }
    assert(all.subrange(0, tags@.len() as int) == all);
    (out, bad)
}

} // verus!
