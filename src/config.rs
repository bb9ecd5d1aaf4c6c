use vstd::prelude::*;

use crate::label::Label;
use crate::metadata::RegistryMetadata;
use crate::package::{package_ref_text, PackageRef};
use crate::registry::Registry;
use crate::text::ascii_lower;
use crate::textmap::TextMap;

verus! {

/// Where a namespace or package is routed: a registry, or a registry with
/// metadata given inline in the configuration.
#[derive(Debug, Clone)]
pub enum RegistryMapping {
    Registry(Registry),
    Custom { registry: Registry, metadata: RegistryMetadata },
}

impl RegistryMapping {
    /// The registry a mapping routes to.
    pub open spec fn registry_spec(&self) -> Seq<char> {
        match self {
            RegistryMapping::Registry(r) => r@,
            RegistryMapping::Custom { registry, .. } => registry@,
        }
    }

    /// The registry a mapping routes to.
    pub fn registry(&self) -> (r: &Registry)
        ensures
            r@ == self.registry_spec(),
    {
        match self {
            RegistryMapping::Registry(r) => r,
            RegistryMapping::Custom { registry, .. } => registry,
        }
    }

    /// The inline metadata, if any.
    pub fn metadata(&self) -> (r: Option<&RegistryMetadata>)
        ensures
            match self {
                RegistryMapping::Registry(_) => r is None,
                RegistryMapping::Custom { metadata, .. } => r == Some(metadata),
            },
    {
        match self {
            RegistryMapping::Registry(_) => None,
            RegistryMapping::Custom { metadata, .. } => Some(metadata),
        }
    }
}

/// Configuration of one registry: a default backend and per-backend
/// settings, each a map of string fields.
#[derive(Debug, Clone)]
pub struct RegistryConfig {
    default_backend: Option<String>,
    backend_configs: TextMap<TextMap<String>>,
}

impl RegistryConfig {
    /// The explicit default backend.
    pub closed spec fn default_backend_field(&self) -> Option<Seq<char>> {
        match self.default_backend {
            Some(b) => Some(b@),
            None => None,
        }
    }

    /// The per-backend settings.
    pub closed spec fn backends(&self) -> TextMap<TextMap<String>> {
        self.backend_configs
    }

    /// Settings of backend `ty` send field `k` to `t`.
    pub open spec fn setting(&self, ty: Seq<char>, k: Seq<char>, t: Seq<char>) -> bool {
        exists|c: TextMap<String>| self.backends().maps(ty, c) && c.maps_text(k, t)
    }

    /// The maps are well formed.
    pub open spec fn wf(&self) -> bool {
        &&& self.backends().wf()
        &&& forall|ty: Seq<char>, c: TextMap<String>| self.backends().maps(ty, c) ==> c.wf()
    }

    /// The effective default backend: the explicit one, else the only
    /// configured backend, else none.
    pub open spec fn default_backend_spec(&self) -> Option<Seq<char>> {
        match self.default_backend_field() {
            Some(b) => Some(b),
            None => if self.backends().size() == 1 {
                Some(self.backends().key_seq()[0])
            } else {
                None
            },
        }
    }

    /// A configuration with nothing set.
    pub fn new() -> (r: RegistryConfig)
        ensures
            r.wf(),
            r.default_backend_field() is None,
            r.backends().size() == 0,
            forall|ty: Seq<char>| !r.backends().has(ty),
    {
        RegistryConfig { default_backend: None, backend_configs: TextMap::new() }
    }

    /// The effective default backend.
    pub fn default_backend(&self) -> (r: Option<String>)
        requires
            self.wf(),
        ensures
            match r {
                Some(s) => self.default_backend_spec() == Some(s@),
                None => self.default_backend_spec() is None,
            },
    {
        match &self.default_backend {
            Some(b) => Some(b.clone()),
            None => if self.backend_configs.len() == 1 {
                Some(String::from_str(self.backend_configs.key_at(0)))
            } else {
                None
            },
        }
    }

    /// Sets or clears the explicit default backend.
    pub fn set_default_backend(&mut self, default_backend: Option<String>)
        ensures
            final(self).default_backend_field() == match default_backend {
                Some(b) => Some(b@),
                None => None::<Seq<char>>,
            },
            final(self).backends() == old(self).backends(),
    {
        self.default_backend = default_backend;
    }

    /// The configured backend types, in the order they were added.
    pub fn configured_backend_types(&self) -> (r: Vec<String>)
        requires
            self.wf(),
        ensures
            r@.len() == self.backends().size(),
            forall|i: int| 0 <= i < r@.len() ==> #[trigger] r@[i]@ == self.backends().key_seq()[i],
    {
        let mut out: Vec<String> = Vec::new();
        let n = self.backend_configs.len();
        let mut i: usize = 0;
        while i < n
            invariant
                self.wf(),
                n == self.backends().size(),
                0 <= i <= n,
                out@.len() == i,
                forall|j: int| 0 <= j < i ==> #[trigger] out@[j]@ == self.backends().key_seq()[j],
            decreases n - i,
        {
            out.push(String::from_str(self.backend_configs.key_at(i)));
            i = i + 1;
        }
        out
    }

    /// The settings of backend `ty`, if any.
    pub fn backend_config(&self, ty: &str) -> (r: Option<&TextMap<String>>)
        requires
            self.wf(),
        ensures
            match r {
                Some(c) => self.backends().maps(ty@, *c) && c.wf(),
                None => !self.backends().has(ty@),
            },
    {
        self.backend_configs.get(ty)
    }

    /// Replaces the settings of backend `ty`.
    pub fn set_backend_config(&mut self, ty: String, config: TextMap<String>)
        requires
            old(self).wf(),
            config.wf(),
        ensures
            final(self).wf(),
            final(self).backends().maps(ty@, config),
            forall|t2: Seq<char>, c: TextMap<String>| t2 != ty@ ==> (final(self).backends().maps(t2, c) <==> old(self).backends().maps(t2, c)),
            final(self).default_backend_field() == old(self).default_backend_field(),
    {
        let ghost tv = ty@;
        let ghost cv = config;
        self.backend_configs.insert(ty, config);
        proof {
            assert forall|t2: Seq<char>, c: TextMap<String>| self.backends().maps(t2, c) implies c.wf() by {
                if t2 == tv {
                    self.backends().lemma_maps_unique(t2, c, cv);
                }
            }
        }
    }

    /// Merges `other` into this configuration: its default backend replaces
    /// this one when set, and its settings extend this one's per backend.
    pub fn merge(&mut self, other: RegistryConfig)
        requires
            old(self).wf(),
            other.wf(),
        ensures
            final(self).wf(),
            final(self).default_backend_field() == match other.default_backend_field() {
                Some(b) => Some(b),
                None => old(self).default_backend_field(),
            },
            forall|ty: Seq<char>| final(self).backends().has(ty) <==> (old(self).backends().has(ty) || other.backends().has(ty)),
            forall|ty: Seq<char>, k: Seq<char>, t: Seq<char>| final(self).setting(ty, k, t) <==> (
                other.setting(ty, k, t) || (old(self).setting(ty, k, t) && !other.has_field(ty, k))),
    {
        if other.default_backend.is_some() {
            self.default_backend = other.default_backend;
        }
        let n = other.backend_configs.len();
        let mut i: usize = 0;
        while i < n
            invariant
                self.wf(),
                other.wf(),
                n == other.backends().size(),
                0 <= i <= n,
                self.default_backend_field() == match other.default_backend_field() {
                    Some(b) => Some(b),
                    None => old(self).default_backend_field(),
                },
                forall|ty: Seq<char>| self.backends().has(ty) <==> (old(self).backends().has(ty) || exists|j: int| 0 <= j < i && other.backends().key_seq()[j] == ty),
                forall|ty: Seq<char>, k: Seq<char>, t: Seq<char>| self.setting(ty, k, t) <==> (
                    (exists|j: int| 0 <= j < i && other.backends().key_seq()[j] == ty && other.setting(ty, k, t))
                    || (old(self).setting(ty, k, t) && !(exists|j: int| 0 <= j < i && other.backends().key_seq()[j] == ty && other.has_field(ty, k)))),
            decreases n - i,
        {
            let ty = other.backend_configs.key_at(i);
            let add = other.backend_configs.val_at(i);
            let ghost tyv = ty@;
            proof {
                assert(other.backends().maps(tyv, *add));
                assert(add.wf());
                other.lemma_setting_of(tyv, *add);
                assert forall|j: int| 0 <= j < i implies other.backends().key_seq()[j] != tyv by {
                    assert(other.backends().key_seq()[j] != other.backends().key_seq()[i as int]);
                }
            }
            let ghost pre = *self;
            let cur_opt = self.backend_configs.get(ty);
            let merged = match cur_opt {
                Some(cur) => {
                    let mut m = cur.copy();
                    m.extend_from(add);
                    assert(forall|k: Seq<char>, t: Seq<char>| m.maps_text(k, t) <==> (add.maps_text(k, t) || (cur.maps_text(k, t) && !add.has(k))));
                    m
                },
                None => {
                    let m = add.copy();
                    assert(forall|k: Seq<char>, t: Seq<char>| m.maps_text(k, t) <==> add.maps_text(k, t));
                    m
                },
            };
            proof {
                match cur_opt {
                    Some(cur) => {
                        pre.lemma_setting_of(tyv, *cur);
                    },
                    None => {
                        pre.lemma_no_setting(tyv);
                    },
                }
            }
            self.backend_configs.insert(String::from_str(ty), merged);
            proof {
                assert forall|t2: Seq<char>, c: TextMap<String>| self.backends().maps(t2, c) implies c.wf() by {
                    if t2 == tyv {
                        self.backends().lemma_maps_unique(t2, c, merged);
                    } else {
                        assert(pre.backends().maps(t2, c));
                    }
                }
                self.lemma_setting_of(tyv, merged);
                assert forall|ty2: Seq<char>, k: Seq<char>, t: Seq<char>| self.setting(ty2, k, t) <==> (
                    (exists|j: int| 0 <= j < i + 1 && other.backends().key_seq()[j] == ty2 && other.setting(ty2, k, t))
                    || (old(self).setting(ty2, k, t) && !(exists|j: int| 0 <= j < i + 1 && other.backends().key_seq()[j] == ty2 && other.has_field(ty2, k)))) by {
                    if ty2 != tyv {
                        if self.setting(ty2, k, t) {
                            let c = choose|c: TextMap<String>| self.backends().maps(ty2, c) && c.maps_text(k, t);
                            assert(pre.backends().maps(ty2, c));
                        }
                        if pre.setting(ty2, k, t) {
                            let c = choose|c: TextMap<String>| pre.backends().maps(ty2, c) && c.maps_text(k, t);
                            assert(self.backends().maps(ty2, c));
                        }
                        assert(self.setting(ty2, k, t) == pre.setting(ty2, k, t));
                    } else {
                        assert(!(exists|j: int| 0 <= j < i && other.backends().key_seq()[j] == ty2));
                        assert(other.backends().key_seq()[i as int] == ty2);
                        assert(pre.setting(ty2, k, t) == old(self).setting(ty2, k, t));
                        assert(self.setting(ty2, k, t) == merged.maps_text(k, t));
                        assert(other.setting(ty2, k, t) == add.maps_text(k, t));
                        assert(other.has_field(ty2, k) == add.has(k));
                        match cur_opt {
                            Some(cur) => {
                                assert(pre.setting(ty2, k, t) == cur.maps_text(k, t));
                            },
                            None => {
                                assert(!pre.setting(ty2, k, t));
                            },
                        }
                    }
                }
                assert forall|ty2: Seq<char>| self.backends().has(ty2) <==> (old(self).backends().has(ty2) || exists|j: int| 0 <= j < i + 1 && other.backends().key_seq()[j] == ty2) by {
                    if ty2 == tyv {
                        assert(self.backends().maps(ty2, merged));
                    }
                }
            }
            i = i + 1;
        }
    }

    /// Settings of a backend that the map sends to `c` are those of `c`.
    pub proof fn lemma_setting_of(&self, ty: Seq<char>, c: TextMap<String>)
        requires
            self.wf(),
            self.backends().maps(ty, c),
        ensures
            c.wf(),
            forall|k: Seq<char>, t: Seq<char>| self.setting(ty, k, t) <==> c.maps_text(k, t),
            forall|k: Seq<char>| self.has_field(ty, k) <==> c.has(k),
    {
        assert forall|k: Seq<char>, t: Seq<char>| self.setting(ty, k, t) implies c.maps_text(k, t) by {
            let d = choose|d: TextMap<String>| self.backends().maps(ty, d) && d.maps_text(k, t);
            self.backends().lemma_maps_unique(ty, c, d);
        }
        assert forall|k: Seq<char>| self.has_field(ty, k) implies c.has(k) by {
            let d = choose|d: TextMap<String>| self.backends().maps(ty, d) && d.has(k);
            self.backends().lemma_maps_unique(ty, c, d);
        }
    }

    /// A backend without settings has no fields.
    pub proof fn lemma_no_setting(&self, ty: Seq<char>)
        requires
            !self.backends().has(ty),
        ensures
            forall|k: Seq<char>, t: Seq<char>| !self.setting(ty, k, t),
            forall|k: Seq<char>| !self.has_field(ty, k),
    {
        assert forall|k: Seq<char>, t: Seq<char>| !self.setting(ty, k, t) by {
            if self.setting(ty, k, t) {
                let d = choose|d: TextMap<String>| self.backends().maps(ty, d) && d.maps_text(k, t);
                let i = choose|i: int| 0 <= i < self.backends().key_seq().len() && self.backends().key_seq()[i] == ty && self.backends().val_seq()[i] == d;
            }
        }
        assert forall|k: Seq<char>| !self.has_field(ty, k) by {
            if self.has_field(ty, k) {
                let d = choose|d: TextMap<String>| self.backends().maps(ty, d) && d.has(k);
                let i = choose|i: int| 0 <= i < self.backends().key_seq().len() && self.backends().key_seq()[i] == ty && self.backends().val_seq()[i] == d;
            }
        }
    }

    /// Settings of backend `ty` have field `k`.
    pub open spec fn has_field(&self, ty: Seq<char>, k: Seq<char>) -> bool {
        exists|c: TextMap<String>| self.backends().maps(ty, c) && c.has(k)
    }
}

/// The registry a map of mappings sends `k` to, if any.
pub open spec fn mapped_registry(m: TextMap<RegistryMapping>, k: Seq<char>, r: Seq<char>) -> bool {
    exists|x: RegistryMapping| m.maps(k, x) && x.registry_spec() == r
}

/// Package-registry configuration: where each package is routed, and the
/// settings of each registry.
#[derive(Debug, Clone)]
pub struct Config {
    default_registry: Option<Registry>,
    namespace_registries: TextMap<RegistryMapping>,
    package_registry_overrides: TextMap<RegistryMapping>,
    fallback_namespace_registries: TextMap<RegistryMapping>,
    registry_configs: TextMap<RegistryConfig>,
}

impl Config {
    /// The default registry's text.
    pub closed spec fn default_spec(&self) -> Option<Seq<char>> {
        match self.default_registry {
            Some(r) => Some(r@),
            None => None,
        }
    }

    /// Mappings by namespace text.
    pub closed spec fn namespaces(&self) -> TextMap<RegistryMapping> {
        self.namespace_registries
    }

    /// Mappings by package text `namespace:name`.
    pub closed spec fn overrides(&self) -> TextMap<RegistryMapping> {
        self.package_registry_overrides
    }

    /// Built-in mappings by namespace text, used last.
    pub closed spec fn fallbacks(&self) -> TextMap<RegistryMapping> {
        self.fallback_namespace_registries
    }

    /// Registry settings by the registry's lowercase text.
    pub closed spec fn registry_configs_spec(&self) -> TextMap<RegistryConfig> {
        self.registry_configs
    }

    /// The maps are well formed.
    pub open spec fn wf(&self) -> bool {
        &&& self.namespaces().wf()
        &&& self.overrides().wf()
        &&& self.fallbacks().wf()
        &&& self.registry_configs_spec().wf()
        &&& forall|k: Seq<char>, c: RegistryConfig| self.registry_configs_spec().maps(k, c) ==> c.wf()
    }

    /// What resolving a package gives: the package's override, else its
    /// namespace's mapping, else the default registry, else the built-in
    /// mapping of its namespace, else nothing.
    pub open spec fn resolves_to(&self, ns: Seq<char>, name: Seq<char>, r: Option<Seq<char>>) -> bool {
        let pkg = package_ref_text(ns, name);
        if self.overrides().has(pkg) {
            r is Some && mapped_registry(self.overrides(), pkg, r->Some_0)
        } else if self.namespaces().has(ns) {
            r is Some && mapped_registry(self.namespaces(), ns, r->Some_0)
        } else if self.default_spec() is Some {
            r == self.default_spec()
        } else if self.fallbacks().has(ns) {
            r is Some && mapped_registry(self.fallbacks(), ns, r->Some_0)
        } else {
            r is None
        }
    }

    /// A configuration with nothing set.
    pub fn empty() -> (r: Config)
        ensures
            r.wf(),
            r.default_spec() is None,
            forall|k: Seq<char>| !r.namespaces().has(k) && !r.overrides().has(k) && !r.fallbacks().has(k)
                && !r.registry_configs_spec().has(k),
    {
        Config {
            default_registry: None,
            namespace_registries: TextMap::new(),
            package_registry_overrides: TextMap::new(),
            fallback_namespace_registries: TextMap::new(),
            registry_configs: TextMap::new(),
        }
    }

    /// A configuration with nothing set but the built-in mappings of the
    /// `wasi` and `ba` namespaces to `bytecodealliance.org`.
    pub fn with_builtin_defaults() -> (r: Config)
        ensures
            r.wf(),
            r.default_spec() is None,
            forall|k: Seq<char>| !r.namespaces().has(k) && !r.overrides().has(k) && !r.registry_configs_spec().has(k),
            mapped_registry(r.fallbacks(), seq!['w', 'a', 's', 'i'], builtin_registry()),
            mapped_registry(r.fallbacks(), seq!['b', 'a'], builtin_registry()),
    {
        let mut c = Config::empty();
        let wasi = RegistryMapping::Registry(builtin());
        let ba = RegistryMapping::Registry(builtin());
        proof {
            reveal_strlit("wasi");
            reveal_strlit("ba");
        }
        let ghost wv = wasi;
        let ghost bv = ba;
        assert("wasi"@ == seq!['w', 'a', 's', 'i']);
        assert("ba"@ == seq!['b', 'a']);
        c.fallback_namespace_registries.insert(String::from_str("wasi"), wasi);
        assert(c.fallbacks().maps(seq!['w', 'a', 's', 'i'], wv));
        c.fallback_namespace_registries.insert(String::from_str("ba"), ba);
        proof {
            assert(seq!['w', 'a', 's', 'i'] != seq!['b', 'a']) by {
                assert(seq!['w', 'a', 's', 'i'].len() != seq!['b', 'a'].len());
            }
            assert(c.fallbacks().maps(seq!['w', 'a', 's', 'i'], wv));
            assert(wv.registry_spec() == builtin_registry());
            assert(c.fallbacks().maps(seq!['b', 'a'], bv));
            assert(bv.registry_spec() == builtin_registry());
        }
        c
    }

    /// The registry for a package: its override, else its namespace's
    /// registry, else the default registry, else a built-in registry for
    /// its namespace; none when all four miss.
    pub fn resolve_registry(&self, package: &PackageRef) -> (r: Option<&Registry>)
        requires
            self.wf(),
        ensures
            self.resolves_to(package@.0, package@.1, match r {
                Some(x) => Some(x@),
                None => None,
            }),
    {
        let key = package.to_string();
        if let Some(m) = self.package_registry_overrides.get(key.as_str()) {
            return Some(m.registry());
        }
        let ns = package.namespace().as_str();
        if let Some(m) = self.namespace_registries.get(ns) {
            return Some(m.registry());
        }
        if let Some(d) = &self.default_registry {
            return Some(d);
        }
        if let Some(m) = self.fallback_namespace_registries.get(ns) {
            return Some(m.registry());
        }
        None
    }

    /// Merges `other` into this configuration: its default registry
    /// replaces this one when set, its mappings replace those of the same
    /// keys, and the settings of each of its registries are merged into
    /// this one's.
    pub fn merge(&mut self, other: Config)
        requires
            old(self).wf(),
            other.wf(),
        ensures
            final(self).wf(),
            final(self).default_spec() == match other.default_spec() {
                Some(d) => Some(d),
                None => old(self).default_spec(),
            },
            forall|k: Seq<char>, m: RegistryMapping| final(self).namespaces().maps(k, m) <==> (other.namespaces().maps(k, m)
                || (old(self).namespaces().maps(k, m) && !other.namespaces().has(k))),
            forall|k: Seq<char>, m: RegistryMapping| final(self).overrides().maps(k, m) <==> (other.overrides().maps(k, m)
                || (old(self).overrides().maps(k, m) && !other.overrides().has(k))),
            forall|k: Seq<char>, m: RegistryMapping| final(self).fallbacks().maps(k, m) <==> (other.fallbacks().maps(k, m)
                || (old(self).fallbacks().maps(k, m) && !other.fallbacks().has(k))),
    {
        let Config {
            default_registry,
            namespace_registries,
            package_registry_overrides,
            fallback_namespace_registries,
            registry_configs,
        } = other;
        if default_registry.is_some() {
            self.default_registry = default_registry;
        }
        self.namespace_registries.absorb(namespace_registries);
        self.package_registry_overrides.absorb(package_registry_overrides);
        self.fallback_namespace_registries.absorb(fallback_namespace_registries);
        let mut rest = registry_configs;
        while rest.len() > 0
            invariant
                self.wf(),
                rest.wf(),
                forall|k: Seq<char>, c: RegistryConfig| rest.maps(k, c) ==> c.wf(),
                self.default_spec() == match other.default_spec() {
                    Some(d) => Some(d),
                    None => old(self).default_spec(),
                },
                forall|k: Seq<char>, m: RegistryMapping| self.namespaces().maps(k, m) <==> (other.namespaces().maps(k, m)
                    || (old(self).namespaces().maps(k, m) && !other.namespaces().has(k))),
                forall|k: Seq<char>, m: RegistryMapping| self.overrides().maps(k, m) <==> (other.overrides().maps(k, m)
                    || (old(self).overrides().maps(k, m) && !other.overrides().has(k))),
                forall|k: Seq<char>, m: RegistryMapping| self.fallbacks().maps(k, m) <==> (other.fallbacks().maps(k, m)
                    || (old(self).fallbacks().maps(k, m) && !other.fallbacks().has(k))),
            decreases rest.size(),
        {
            let ghost before_rest = rest;
            match rest.pop_entry() {
                None => {
                    assert(before_rest.size() == 0);
                },
                Some((k, cfg)) => {
                    let ghost kv = k@;
                    assert(before_rest.maps(kv, cfg));
                    assert(cfg.wf());
                    let ghost pre = self.registry_configs;
                    let merged = match self.registry_configs.take(k.as_str()) {
                        Some(mut cur) => {
                            assert(pre.maps(kv, cur));
                            cur.merge(cfg);
                            cur
                        },
                        None => cfg,
                    };
                    let ghost mv = merged;
                    self.registry_configs.insert(k, merged);
                    proof {
                        assert forall|k2: Seq<char>, c: RegistryConfig| self.registry_configs_spec().maps(k2, c) implies c.wf() by {
                            if k2 == kv {
                                self.registry_configs_spec().lemma_maps_unique(k2, c, mv);
                            } else {
                                assert(pre.maps(k2, c));
                            }
                        }
                        assert forall|k2: Seq<char>, c: RegistryConfig| rest.maps(k2, c) implies c.wf() by {
                            let j = choose|j: int| 0 <= j < rest.key_seq().len() && rest.key_seq()[j] == k2 && rest.val_seq()[j] == c;
                            assert(rest.has(k2));
                            assert(k2 != kv);
                            assert(before_rest.maps(k2, c));
                        }
                    }
                },
            }
        }
    }

    /// The default registry.
    pub fn default_registry(&self) -> (r: Option<&Registry>)
        ensures
            match r {
                Some(x) => self.default_spec() == Some(x@),
                None => self.default_spec() is None,
            },
    {
        match &self.default_registry {
            Some(d) => Some(d),
            None => None,
        }
    }

    /// Sets or clears the default registry.
    pub fn set_default_registry(&mut self, registry: Option<Registry>)
        ensures
            final(self).default_spec() == match registry {
                Some(x) => Some(x@),
                None => None::<Seq<char>>,
            },
            final(self).namespaces() == old(self).namespaces(),
            final(self).overrides() == old(self).overrides(),
            final(self).fallbacks() == old(self).fallbacks(),
            final(self).registry_configs_spec() == old(self).registry_configs_spec(),
    {
        self.default_registry = registry;
    }

    /// The mapping of a namespace, without falling back.
    pub fn namespace_registry(&self, namespace: &Label) -> (r: Option<&RegistryMapping>)
        requires
            self.wf(),
        ensures
            match r {
                Some(m) => self.namespaces().maps(namespace@, *m),
                None => !self.namespaces().has(namespace@),
            },
    {
        self.namespace_registries.get(namespace.as_str())
    }

    /// Routes a namespace.
    pub fn set_namespace_registry(&mut self, namespace: Label, mapping: RegistryMapping)
        requires
            old(self).wf(),
        ensures
            final(self).wf(),
            final(self).namespaces().maps(namespace@, mapping),
            forall|k: Seq<char>, m: RegistryMapping| k != namespace@ ==> (final(self).namespaces().maps(k, m) <==> old(self).namespaces().maps(k, m)),
            forall|k: Seq<char>| k != namespace@ ==> (final(self).namespaces().has(k) <==> old(self).namespaces().has(k)),
            final(self).default_spec() == old(self).default_spec(),
            final(self).overrides() == old(self).overrides(),
            final(self).fallbacks() == old(self).fallbacks(),
            final(self).registry_configs_spec() == old(self).registry_configs_spec(),
    {
        self.namespace_registries.insert(namespace.to_string(), mapping);
    }

    /// The override of a package, without falling back.
    pub fn package_registry_override(&self, package: &PackageRef) -> (r: Option<&RegistryMapping>)
        requires
            self.wf(),
        ensures
            match r {
                Some(m) => self.overrides().maps(package_ref_text(package@.0, package@.1), *m),
                None => !self.overrides().has(package_ref_text(package@.0, package@.1)),
            },
    {
        let key = package.to_string();
        self.package_registry_overrides.get(key.as_str())
    }

    /// Routes a package, ahead of its namespace.
    pub fn set_package_registry_override(&mut self, package: PackageRef, mapping: RegistryMapping)
        requires
            old(self).wf(),
        ensures
            final(self).wf(),
            final(self).overrides().maps(package_ref_text(package@.0, package@.1), mapping),
            forall|k: Seq<char>, m: RegistryMapping| k != package_ref_text(package@.0, package@.1) ==> (final(self).overrides().maps(k, m) <==> old(self).overrides().maps(k, m)),
            forall|k: Seq<char>| k != package_ref_text(package@.0, package@.1) ==> (final(self).overrides().has(k) <==> old(self).overrides().has(k)),
            final(self).default_spec() == old(self).default_spec(),
            final(self).namespaces() == old(self).namespaces(),
            final(self).fallbacks() == old(self).fallbacks(),
            final(self).registry_configs_spec() == old(self).registry_configs_spec(),
    {
        self.package_registry_overrides.insert(package.to_string(), mapping);
    }

    /// The settings of a registry, matched ignoring ASCII case.
    pub fn registry_config(&self, registry: &Registry) -> (r: Option<&RegistryConfig>)
        requires
            self.wf(),
        ensures
            match r {
                Some(c) => self.registry_configs_spec().maps(registry.key_spec(), *c) && c.wf(),
                None => !self.registry_configs_spec().has(registry.key_spec()),
            },
    {
        let key = registry.key();
        self.registry_configs.get(key.as_str())
    }

    /// Replaces the settings of a registry.
    pub fn set_registry_config(&mut self, registry: &Registry, config: RegistryConfig)
        requires
            old(self).wf(),
            config.wf(),
        ensures
            final(self).wf(),
            final(self).registry_configs_spec().maps(registry.key_spec(), config),
            forall|k: Seq<char>, c: RegistryConfig| k != registry.key_spec() ==> (final(self).registry_configs_spec().maps(k, c) <==> old(self).registry_configs_spec().maps(k, c)),
            final(self).default_spec() == old(self).default_spec(),
            final(self).namespaces() == old(self).namespaces(),
            final(self).overrides() == old(self).overrides(),
            final(self).fallbacks() == old(self).fallbacks(),
    {
        let ghost kv = registry.key_spec();
        let ghost cv = config;
        self.registry_configs.insert(registry.key(), config);
        proof {
            assert forall|k: Seq<char>, c: RegistryConfig| self.registry_configs_spec().maps(k, c) implies c.wf() by {
                if k == kv {
                    self.registry_configs_spec().lemma_maps_unique(k, c, cv);
                } else {
                    assert(old(self).registry_configs_spec().maps(k, c));
                }
            }
        }
    }
}

/// The built-in registry's text.
pub open spec fn builtin_registry() -> Seq<char> {
    seq!['b', 'y', 't', 'e', 'c', 'o', 'd', 'e', 'a', 'l', 'l', 'i', 'a', 'n', 'c', 'e', '.', 'o', 'r', 'g']
}

/// The built-in registry, `bytecodealliance.org`.
fn builtin() -> (r: Registry)
    ensures
        r@ == builtin_registry(),
{
    proof {
        reveal_strlit("bytecodealliance.org");
    }
    Registry::known(String::from_str("bytecodealliance.org"), None)
}

/// Resolution never invents a registry: with no override, no namespace
/// mapping, no default and no built-in mapping for the namespace, a package
/// resolves to nothing.
pub proof fn lemma_unmapped_package_resolves_to_nothing(c: Config, ns: Seq<char>, name: Seq<char>, r: Option<Seq<char>>)
    requires
        !c.overrides().has(package_ref_text(ns, name)),
        !c.namespaces().has(ns),
        c.default_spec() is None,
        !c.fallbacks().has(ns),
        c.resolves_to(ns, name, r),
    ensures
        r is None,
{
}

} // verus!
