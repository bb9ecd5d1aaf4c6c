use vstd::prelude::*;

use crate::digest::{is_digest_text, parsed_hex, ContentDigest};
use crate::error::Error;
use crate::metadata::{opt_text, RegistryMetadata};
use crate::package::PackageRef;
use crate::registry::Registry;
use crate::release::Release;
use crate::version::{version_text, Version, VersionView};

verus! {

/// The OCI location a registry's packages live at: the OCI registry host and
/// an optional prefix for repository names.
#[derive(Debug, Clone)]
pub struct OciLocation {
    pub oci_registry: String,
    pub namespace_prefix: Option<String>,
}

/// `registry`.
pub open spec fn registry_field() -> Seq<char> {
    seq!['r', 'e', 'g', 'i', 's', 't', 'r', 'y']
}

/// `namespacePrefix`.
pub open spec fn prefix_field() -> Seq<char> {
    seq!['n', 'a', 'm', 'e', 's', 'p', 'a', 'c', 'e', 'P', 'r', 'e', 'f', 'i', 'x']
}

/// The text of the OCI field `k` that the metadata gives, if it gives one.
pub open spec fn oci_field_given(meta: RegistryMetadata, k: Seq<char>, r: Option<Seq<char>>) -> bool {
    let p = seq!['o', 'c', 'i'];
    if meta.alias_value(p, k) is Some {
        r == meta.alias_value(p, k)
    } else {
        match r {
            Some(t) => meta.base_maps(p, k, t),
            None => forall|t: Seq<char>| !meta.base_maps(p, k, t),
        }
    }
}

impl OciLocation {
    /// The location of a registry's packages: the metadata's OCI `registry`
    /// and `namespacePrefix` fields, the registry itself when the first is
    /// missing.
    pub fn new(registry: &Registry, meta: &RegistryMetadata) -> (r: OciLocation)
        requires
            meta.wf(),
        ensures
            oci_field_given(*meta, prefix_field(), opt_text(r.namespace_prefix)),
            oci_field_given(*meta, registry_field(), Some(r.oci_registry@))
                || (oci_field_given(*meta, registry_field(), None) && r.oci_registry@ == registry@),
    {
        proof {
            reveal_strlit("oci");
            reveal_strlit("registry");
            reveal_strlit("namespacePrefix");
        }
        assert("oci"@ == seq!['o', 'c', 'i']);
        assert("registry"@ == registry_field());
        assert("namespacePrefix"@ == prefix_field());
        let host = meta.protocol_field("oci", "registry");
        let namespace_prefix = meta.protocol_field("oci", "namespacePrefix");
        let oci_registry = match host {
            Some(h) => h,
            None => registry.to_string(),
        };
        OciLocation { oci_registry, namespace_prefix }
    }

    /// The repository of a package: the prefix, the namespace, `/`, the
    /// name.
    pub open spec fn repository_spec(&self, pkg: (Seq<char>, Seq<char>)) -> Seq<char> {
        let prefix = match self.namespace_prefix {
            Some(p) => p@,
            None => Seq::<char>::empty(),
        };
        prefix + pkg.0 + seq!['/'] + pkg.1
    }

    /// The image reference of a package version, or of its `latest` tag:
    /// `<registry>/<repository>:<tag>`.
    pub open spec fn reference_spec(&self, pkg: (Seq<char>, Seq<char>), version: Option<VersionView>) -> Seq<char> {
        let tag = match version {
            Some(v) => version_text(v),
            None => seq!['l', 'a', 't', 'e', 's', 't'],
        };
        self.oci_registry@ + seq!['/'] + self.repository_spec(pkg) + seq![':'] + tag
    }

    /// The image reference of a package version, or of its `latest` tag.
    pub fn make_reference(&self, package: &PackageRef, version: Option<&Version>) -> (r: String)
        ensures
            r@ == self.reference_spec(package@, match version {
                Some(v) => Some(v@),
                None => None,
            }),
    {
        proof {
            reveal_strlit("/");
            reveal_strlit(":");
            reveal_strlit("latest");
        }
        let s = self.oci_registry.clone().concat("/");
        let s = match &self.namespace_prefix {
            Some(p) => s.concat(p.as_str()),
            None => s,
        };
        let s = s.concat(package.namespace().as_str());
        let s = s.concat("/");
        let s = s.concat(package.name().as_str());
        let s = s.concat(":");
        let tag = match version {
            Some(v) => v.to_string(),
            None => String::from_str("latest"),
        };
        let r = s.concat(tag.as_str());
        assert(r@ =~= self.reference_spec(package@, match version {
            Some(v) => Some(v@),
            None => None,
        }));
        r
    }
}

/// The release a manifest describes: the version asked for, with the digest
/// of the manifest's first layer. No layer, or a first layer whose digest
/// does not parse, is an error.
pub fn release_from_layers(version: &Version, layer_digests: &Vec<String>) -> (r: Result<Release, Error>)
    ensures
        layer_digests@.len() == 0 ==> r == Err::<Release, Error>(Error::InvalidPackageManifest),
        layer_digests@.len() > 0 ==> match r {
            Ok(rel) => is_digest_text(layer_digests@[0]@) && rel.version@ == version@
                && rel.content_digest.hex_spec() == parsed_hex(layer_digests@[0]@),
            Err(e) => !is_digest_text(layer_digests@[0]@) && e == Error::InvalidContentDigest,
        },
{
    if layer_digests.len() == 0 {
        return Err(Error::InvalidPackageManifest);
    }
    match ContentDigest::parse(layer_digests[0].as_str()) {
        Ok(d) => Ok(Release { version: version.copy(), content_digest: d }),
        Err(e) => Err(e),
    }
}

/// Where the credentials tried first come from.
#[derive(Debug, Clone, Copy, PartialEq, Eq, Structural)]
pub enum AuthSource {
    /// A username and password from the configuration.
    Basic,
    /// The host's container credential helper.
    Helper,
    /// No credentials.
    Anonymous,
}

/// Credentials are taken from the configuration, else from the credential
/// helper, else none are used.
pub fn auth_source(configured: bool, helper_found: bool) -> (r: AuthSource)
    ensures
        configured ==> r == AuthSource::Basic,
        !configured && helper_found ==> r == AuthSource::Helper,
        !configured && !helper_found ==> r == AuthSource::Anonymous,
{
    if configured {
        AuthSource::Basic
    } else if helper_found {
        AuthSource::Helper
    } else {
        AuthSource::Anonymous
    }
}

/// What the registry said to a credentials check.
#[derive(Debug, Clone, Copy, PartialEq, Eq, Structural)]
pub enum Preflight {
    Accepted,
    AuthenticationFailure,
    OtherFailure,
}

/// What to do after a credentials check.
#[derive(Debug, Clone, Copy, PartialEq, Eq, Structural)]
pub enum AuthStep {
    /// Keep and cache these credentials.
    Keep(AuthSource),
    /// Check anonymous access once.
    RetryAnonymous,
    /// Give up with a credentials error.
    Fail,
}

/// The decision after checking credentials from `source`: keep them when
/// accepted; for a read whose non-anonymous credentials were refused, try
/// anonymous access once; otherwise fail.
pub fn after_preflight(source: AuthSource, outcome: Preflight, read: bool) -> (r: AuthStep)
    ensures
        outcome == Preflight::Accepted ==> r == AuthStep::Keep(source),
        outcome == Preflight::AuthenticationFailure && read && source != AuthSource::Anonymous ==> r == AuthStep::RetryAnonymous,
        outcome == Preflight::AuthenticationFailure && !(read && source != AuthSource::Anonymous) ==> r == AuthStep::Fail,
        outcome == Preflight::OtherFailure ==> r == AuthStep::Fail,
{
    match outcome {
        Preflight::Accepted => AuthStep::Keep(source),
        Preflight::AuthenticationFailure => {
            if read && source != AuthSource::Anonymous {
                AuthStep::RetryAnonymous
            } else {
                AuthStep::Fail
            }
        },
        Preflight::OtherFailure => AuthStep::Fail,
    }
}

/// The decision after the anonymous retry: downgrade to anonymous access
/// when it was accepted, else fail.
pub fn after_anonymous_retry(accepted: bool) -> (r: AuthStep)
    ensures
        accepted ==> r == AuthStep::Keep(AuthSource::Anonymous),
        !accepted ==> r == AuthStep::Fail,
{
    if accepted {
        AuthStep::Keep(AuthSource::Anonymous)
    } else {
        AuthStep::Fail
    }
}

/// The annotation key `org.opencontainers.image.<suffix>`.
pub open spec fn annotation_key(suffix: Seq<char>) -> Seq<char> {
    seq!['o', 'r', 'g', '.', 'o', 'p', 'e', 'n', 'c', 'o', 'n', 't', 'a', 'i', 'n', 'e', 'r', 's', '.', 'i', 'm', 'a', 'g', 'e', '.'] + suffix
}

/// Package metadata that publishing turns into annotations.
#[derive(Debug, Clone)]
pub struct Metadata {
    /// The author(s) of the package.
    pub authors: Option<String>,
    /// The package description.
    pub description: Option<String>,
    /// The package license.
    pub licenses: Option<String>,
    /// The package source code URL.
    pub source: Option<String>,
    /// The package homepage URL.
    pub homepage: Option<String>,
    /// The package source control revision.
    pub revision: Option<String>,
}

/// The pair `(key, value)` as texts.
pub open spec fn pair_view(p: (String, String)) -> (Seq<char>, Seq<char>) {
    (p.0@, p.1@)
}

/// The annotations of a published image, in key order: `authors`,
/// `description`, `licenses`, `source` and `url` (the homepage) when the
/// metadata gives them, and always `version`.
pub open spec fn annotations_spec(version: Seq<char>, m: Metadata) -> Seq<(Seq<char>, Seq<char>)> {
    let a = match m.authors {
        Some(x) => seq![(annotation_key(seq!['a', 'u', 't', 'h', 'o', 'r', 's']), x@)],
        None => Seq::empty(),
    };
    let d = match m.description {
        Some(x) => seq![(annotation_key(seq!['d', 'e', 's', 'c', 'r', 'i', 'p', 't', 'i', 'o', 'n']), x@)],
        None => Seq::empty(),
    };
    let l = match m.licenses {
        Some(x) => seq![(annotation_key(seq!['l', 'i', 'c', 'e', 'n', 's', 'e', 's']), x@)],
        None => Seq::empty(),
    };
    let s = match m.source {
        Some(x) => seq![(annotation_key(seq!['s', 'o', 'u', 'r', 'c', 'e']), x@)],
        None => Seq::empty(),
    };
    let u = match m.homepage {
        Some(x) => seq![(annotation_key(seq!['u', 'r', 'l']), x@)],
        None => Seq::empty(),
    };
    a + d + l + s + u + seq![(annotation_key(seq!['v', 'e', 'r', 's', 'i', 'o', 'n']), version)]
}

/// Adds `(org.opencontainers.image.<suffix>, value)` when there is a value.
fn push_annotation(out: &mut Vec<(String, String)>, suffix: &str, value: &Option<String>)
    ensures
        final(out)@.map_values(|p: (String, String)| pair_view(p)) == old(out)@.map_values(|p: (String, String)| pair_view(p)) + match value {
            Some(x) => seq![(annotation_key(suffix@), x@)],
            None => Seq::empty(),
        },
{
    proof {
        reveal_strlit("org.opencontainers.image.");
    }
    assert("org.opencontainers.image."@ =~= annotation_key(Seq::empty()));
    match value {
        Some(x) => {
            let key = String::from_str("org.opencontainers.image.").concat(suffix);
            assert(key@ =~= annotation_key(suffix@));
            let ghost before = out@;
            out.push((key, x.clone()));
            assert(out@.map_values(|p: (String, String)| pair_view(p)) =~= before.map_values(|p: (String, String)| pair_view(p)).push((annotation_key(suffix@), x@)));
        },
        None => {
            assert(out@.map_values(|p: (String, String)| pair_view(p)) =~= old(out)@.map_values(|p: (String, String)| pair_view(p)) + Seq::empty());
        },
    }
}

/// The annotations to push with a published image.
pub fn oci_annotations(version: &Version, meta: &Metadata) -> (r: Vec<(String, String)>)
    ensures
        r@.map_values(|p: (String, String)| pair_view(p)) == annotations_spec(version_text(version@), *meta),
{
    proof {
        reveal_strlit("authors");
        reveal_strlit("description");
        reveal_strlit("licenses");
        reveal_strlit("source");
        reveal_strlit("url");
        reveal_strlit("version");
    }
    assert("authors"@ == seq!['a', 'u', 't', 'h', 'o', 'r', 's']);
    assert("description"@ == seq!['d', 'e', 's', 'c', 'r', 'i', 'p', 't', 'i', 'o', 'n']);
    assert("licenses"@ == seq!['l', 'i', 'c', 'e', 'n', 's', 'e', 's']);
    assert("source"@ == seq!['s', 'o', 'u', 'r', 'c', 'e']);
    assert("url"@ == seq!['u', 'r', 'l']);
    assert("version"@ == seq!['v', 'e', 'r', 's', 'i', 'o', 'n']);
    let mut out: Vec<(String, String)> = Vec::new();
    assert(out@.map_values(|p: (String, String)| pair_view(p)) =~= Seq::<(Seq<char>, Seq<char>)>::empty());
    push_annotation(&mut out, "authors", &meta.authors);
    push_annotation(&mut out, "description", &meta.description);
    push_annotation(&mut out, "licenses", &meta.licenses);
    push_annotation(&mut out, "source", &meta.source);
    push_annotation(&mut out, "url", &meta.homepage);
    let v = Some(version.to_string());
    push_annotation(&mut out, "version", &v);
    assert(out@.map_values(|p: (String, String)| pair_view(p)) =~= annotations_spec(version_text(version@), *meta));
    out
}

} // verus!
