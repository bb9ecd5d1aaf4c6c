use vstd::prelude::*;

use crate::registry::Registry;
use crate::text::{ascending, holds_text, insert_sorted, text_eq, texts};
use crate::textmap::TextMap;

verus! {

/// The name of the OCI protocol.
pub open spec fn oci_name() -> Seq<char> {
    seq!['o', 'c', 'i']
}

/// The name of the signed-log protocol.
pub open spec fn warg_name() -> Seq<char> {
    seq!['w', 'a', 'r', 'g']
}

/// The name of the local-filesystem backend.
pub open spec fn local_name() -> Seq<char> {
    seq!['l', 'o', 'c', 'a', 'l']
}

/// Text of an optional string.
pub open spec fn opt_text(s: Option<String>) -> Option<Seq<char>> {
    match s {
        Some(x) => Some(x@),
        None => None,
    }
}

/// Registry metadata: the protocols a registry speaks and their settings.
///
/// Besides the protocol-keyed settings it accepts three older single-string
/// fields (`ociRegistry`, `ociNamespacePrefix`, `wargUrl`), which stand for
/// settings of the OCI and signed-log protocols.
#[derive(Debug, Clone)]
pub struct RegistryMetadata {
    /// The registry's preferred protocol.
    pub preferred_protocol: Option<String>,
    /// Settings per protocol, each a map of string fields.
    pub protocol_configs: TextMap<TextMap<String>>,
    /// Older field: the OCI registry host.
    pub oci_registry: Option<String>,
    /// Older field: the OCI namespace prefix.
    pub oci_namespace_prefix: Option<String>,
    /// Older field: the signed-log registry URL.
    pub warg_url: Option<String>,
}

impl RegistryMetadata {
    /// The older `ociRegistry` field.
    pub open spec fn oci_registry_spec(&self) -> Option<Seq<char>> {
        opt_text(self.oci_registry)
    }

    /// The older `ociNamespacePrefix` field.
    pub open spec fn oci_namespace_prefix_spec(&self) -> Option<Seq<char>> {
        opt_text(self.oci_namespace_prefix)
    }

    /// The older `wargUrl` field.
    pub open spec fn warg_url_spec(&self) -> Option<Seq<char>> {
        opt_text(self.warg_url)
    }

    /// The protocol the registry prefers: the explicit field; else the only
    /// configured protocol; else, with no configured protocol, the one that
    /// the older fields point at when only one of them does.
    pub open spec fn preferred_spec(&self) -> Option<Seq<char>> {
        match self.preferred_protocol {
            Some(p) => Some(p@),
            None => if self.protocol_configs.size() == 1 {
                Some(self.protocol_configs.key_seq()[0])
            } else if self.protocol_configs.size() == 0 {
                if self.oci_registry_spec() is Some && self.warg_url_spec() is None {
                    Some(oci_name())
                } else if self.oci_registry_spec() is None && self.warg_url_spec() is Some {
                    Some(warg_name())
                } else {
                    None
                }
            } else {
                None
            },
        }
    }

    /// The protocols the registry configures, the older fields included.
    pub open spec fn configured_spec(&self, p: Seq<char>) -> bool {
        ||| self.protocol_configs.has(p)
        ||| (p == oci_name() && (self.oci_registry_spec() is Some || self.oci_namespace_prefix_spec() is Some))
        ||| (p == warg_name() && self.warg_url_spec() is Some)
    }

    /// The value an older field gives to field `k` of protocol `p`, if any.
    pub open spec fn alias_value(&self, p: Seq<char>, k: Seq<char>) -> Option<Seq<char>> {
        if p == oci_name() && k == seq!['r', 'e', 'g', 'i', 's', 't', 'r', 'y'] {
            self.oci_registry_spec()
        } else if p == oci_name() && k == seq![
            'n',
            'a',
            'm',
            'e',
            's',
            'p',
            'a',
            'c',
            'e',
            'P',
            'r',
            'e',
            'f',
            'i',
            'x',
        ] {
            self.oci_namespace_prefix_spec()
        } else if p == warg_name() && k == seq!['u', 'r', 'l'] {
            self.warg_url_spec()
        } else {
            None
        }
    }

    /// The protocol settings map `p` to settings that send `k` to `t`.
    pub open spec fn base_maps(&self, p: Seq<char>, k: Seq<char>, t: Seq<char>) -> bool {
        exists|c: TextMap<String>| self.protocol_configs.maps(p, c) && c.maps_text(k, t)
    }

    /// The settings are well formed.
    pub open spec fn wf(&self) -> bool {
        &&& self.protocol_configs.wf()
        &&& forall|p: Seq<char>, c: TextMap<String>| self.protocol_configs.maps(p, c) ==> c.wf()
    }

    /// Metadata with nothing set.
    pub fn empty() -> (r: RegistryMetadata)
        ensures
            r.wf(),
            r.preferred_protocol is None,
            r.protocol_configs.size() == 0,
            r.oci_registry_spec() is None,
            r.oci_namespace_prefix_spec() is None,
            r.warg_url_spec() is None,
    {
        RegistryMetadata {
            preferred_protocol: None,
            protocol_configs: TextMap::new(),
            oci_registry: None,
            oci_namespace_prefix: None,
            warg_url: None,
        }
    }

    /// Metadata with the given fields, the older ones included.
    pub fn from_parts(
        preferred_protocol: Option<String>,
        protocol_configs: TextMap<TextMap<String>>,
        oci_registry: Option<String>,
        oci_namespace_prefix: Option<String>,
        warg_url: Option<String>,
    ) -> (r: RegistryMetadata)
        ensures
            r.preferred_protocol == preferred_protocol,
            r.protocol_configs == protocol_configs,
            r.oci_registry_spec() == opt_text(oci_registry),
            r.oci_namespace_prefix_spec() == opt_text(oci_namespace_prefix),
            r.warg_url_spec() == opt_text(warg_url),
    {
        RegistryMetadata { preferred_protocol, protocol_configs, oci_registry, oci_namespace_prefix, warg_url }
    }

    /// The preferred protocol.
    pub fn preferred_protocol(&self) -> (r: Option<String>)
        requires
            self.wf(),
        ensures
            opt_text(r) == self.preferred_spec(),
    {
        match &self.preferred_protocol {
            Some(p) => {
                return Some(p.clone());
            },
            None => {},
        }
        let n = self.protocol_configs.len();
        if n == 1 {
            return Some(String::from_str(self.protocol_configs.key_at(0)));
        }
        if n == 0 {
            proof {
                reveal_strlit("oci");
                reveal_strlit("warg");
            }
            match (&self.oci_registry, &self.warg_url) {
                (Some(_), None) => {
                    return Some(String::from_str("oci"));
                },
                (None, Some(_)) => {
                    return Some(String::from_str("warg"));
                },
                _ => {},
            }
        }
        None
    }

    /// Field `key` of the settings of `protocol`, where an older field,
    /// when set, takes precedence over the protocol-keyed settings.
    pub fn protocol_field(&self, protocol: &str, key: &str) -> (r: Option<String>)
        requires
            self.wf(),
        ensures
            self.alias_value(protocol@, key@) is Some ==> opt_text(r) == self.alias_value(protocol@, key@),
            self.alias_value(protocol@, key@) is None ==> match r {
                Some(t) => self.base_maps(protocol@, key@, t@),
                None => forall|t: Seq<char>| !self.base_maps(protocol@, key@, t),
            },
    {
        proof {
            reveal_strlit("oci");
            reveal_strlit("warg");
            reveal_strlit("registry");
            reveal_strlit("namespacePrefix");
            reveal_strlit("url");
        }
        assert("oci"@ == oci_name());
        assert("warg"@ == warg_name());
        assert("registry"@ == seq!['r', 'e', 'g', 'i', 's', 't', 'r', 'y']);
        assert("namespacePrefix"@ == seq!['n', 'a', 'm', 'e', 's', 'p', 'a', 'c', 'e', 'P', 'r', 'e', 'f', 'i', 'x']);
        assert("url"@ == seq!['u', 'r', 'l']);
        let is_oci = text_eq(protocol, "oci");
        let is_warg = text_eq(protocol, "warg");
        if is_oci && text_eq(key, "registry") {
            if let Some(v) = &self.oci_registry {
                return Some(v.clone());
            }
        } else if is_oci && text_eq(key, "namespacePrefix") {
            if let Some(v) = &self.oci_namespace_prefix {
                return Some(v.clone());
            }
        } else if is_warg && text_eq(key, "url") {
            if let Some(v) = &self.warg_url {
                return Some(v.clone());
            }
        }
        match self.protocol_configs.get(protocol) {
            Some(c) => {
                proof {
                    assert(c.wf());
                }
                match c.get(key) {
                    Some(v) => {
                        proof {
                            assert(c.maps_text(key@, v@));
                        }
                        Some(v.clone())
                    },
                    None => {
                        proof {
                            assert forall|t: Seq<char>| !self.base_maps(protocol@, key@, t) by {
                                if self.base_maps(protocol@, key@, t) {
                                    let d = choose|d: TextMap<String>| self.protocol_configs.maps(protocol@, d) && d.maps_text(key@, t);
                                    self.protocol_configs.lemma_maps_unique(protocol@, *c, d);
                                    let i = choose|i: int| 0 <= i < d.key_seq().len() && d.key_seq()[i] == key@ && d.val_seq()[i]@ == t;
                                }
                            }
                        }
                        None
                    },
                }
            },
            None => {
                proof {
                    assert forall|t: Seq<char>| !self.base_maps(protocol@, key@, t) by {
                        if self.base_maps(protocol@, key@, t) {
                            let d = choose|d: TextMap<String>| self.protocol_configs.maps(protocol@, d) && d.maps_text(key@, t);
                            let i = choose|i: int| 0 <= i < self.protocol_configs.key_seq().len() && self.protocol_configs.key_seq()[i] == protocol@ && self.protocol_configs.val_seq()[i] == d;
                        }
                    }
                }
                None
            },
        }
    }

    /// The configured protocols, ascending and without repeats.
    pub fn configured_protocols(&self) -> (r: Vec<String>)
        requires
            self.wf(),
        ensures
            ascending(texts(r@)),
            forall|p: Seq<char>| holds_text(texts(r@), p) <==> self.configured_spec(p),
    {
        let mut out: Vec<String> = Vec::new();
        let n = self.protocol_configs.len();
        let mut i: usize = 0;
        while i < n
            invariant
                self.wf(),
                n == self.protocol_configs.size(),
                0 <= i <= n,
                ascending(texts(out@)),
                forall|p: Seq<char>| holds_text(texts(out@), p) <==> exists|j: int| 0 <= j < i && self.protocol_configs.key_seq()[j] == p,
            decreases n - i,
        {
            let k = String::from_str(self.protocol_configs.key_at(i));
            insert_sorted(&mut out, k);
            i = i + 1;
        }
        proof {
            reveal_strlit("oci");
            reveal_strlit("warg");
            assert forall|p: Seq<char>| holds_text(texts(out@), p) <==> self.protocol_configs.has(p) by {
                if holds_text(texts(out@), p) {
                    let j = choose|j: int| 0 <= j < i && self.protocol_configs.key_seq()[j] == p;
                }
            }
        }
        assert("oci"@ == oci_name());
        assert("warg"@ == warg_name());
        if self.oci_registry.is_some() || self.oci_namespace_prefix.is_some() {
            insert_sorted(&mut out, String::from_str("oci"));
        }
        assert(forall|p: Seq<char>| holds_text(texts(out@), p) <==> (self.protocol_configs.has(p) || (p
            == oci_name() && (self.oci_registry_spec() is Some || self.oci_namespace_prefix_spec() is Some))));
        if self.warg_url.is_some() {
            insert_sorted(&mut out, String::from_str("warg"));
        }
        out
    }
}

/// Whether a host is served over plain HTTP: `localhost` and `127.0.0.1`.
pub open spec fn plain_http_host(h: Seq<char>) -> bool {
    h == seq!['l', 'o', 'c', 'a', 'l', 'h', 'o', 's', 't'] || h == seq!['1', '2', '7', '.', '0', '.', '0', '.', '1']
}

/// The well-known path of the metadata document.
pub open spec fn metadata_path() -> Seq<char> {
    seq![
        '/',
        '.',
        'w',
        'e',
        'l',
        'l',
        '-',
        'k',
        'n',
        'o',
        'w',
        'n',
        '/',
        'w',
        'a',
        's',
        'm',
        '-',
        'p',
        'k',
        'g',
        '/',
        'r',
        'e',
        'g',
        'i',
        's',
        't',
        'r',
        'y',
        '.',
        'j',
        's',
        'o',
        'n',
    ]
}

/// The URL of a registry's metadata document.
pub open spec fn metadata_url_spec(host: Seq<char>, authority: Seq<char>) -> Seq<char> {
    let scheme = if plain_http_host(host) {
        seq!['h', 't', 't', 'p', ':', '/', '/']
    } else {
        seq!['h', 't', 't', 'p', 's', ':', '/', '/']
    };
    scheme + authority + metadata_path()
}

/// The URL of a registry's metadata document: `http` for `localhost` and
/// `127.0.0.1`, `https` otherwise.
pub fn metadata_url(registry: &Registry) -> (r: String)
    ensures
        r@ == metadata_url_spec(registry.host_spec(), registry@),
{
    proof {
        reveal_strlit("localhost");
        reveal_strlit("127.0.0.1");
        reveal_strlit("http://");
        reveal_strlit("https://");
        reveal_strlit("/.well-known/wasm-pkg/registry.json");
    }
    let host = registry.host();
    let plain = text_eq(host, "localhost") || text_eq(host, "127.0.0.1");
    assert("localhost"@ == seq!['l', 'o', 'c', 'a', 'l', 'h', 'o', 's', 't']);
    assert("127.0.0.1"@ == seq!['1', '2', '7', '.', '0', '.', '0', '.', '1']);
    assert(plain == plain_http_host(registry.host_spec()));
    assert("http://"@ == seq!['h', 't', 't', 'p', ':', '/', '/']);
    assert("https://"@ == seq!['h', 't', 't', 'p', 's', ':', '/', '/']);
    assert("/.well-known/wasm-pkg/registry.json"@ == metadata_path());
    let s = if plain {
        String::from_str("http://")
    } else {
        String::from_str("https://")
    };
    let s = s.concat(registry.as_str());
    let r = s.concat("/.well-known/wasm-pkg/registry.json");
    assert(r@ =~= metadata_url_spec(registry.host_spec(), registry@));
    r
}

} // verus!
