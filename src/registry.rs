use vstd::prelude::*;

use crate::error::Error;
use crate::text::{ascii_lower, ascii_lowercase, text_eq};

verus! {

/// What `http::uri::Authority` makes of a text, if it accepts it: the host
/// and the port number.
pub uninterp spec fn parsed_authority(s: Seq<char>) -> Option<(Seq<char>, Option<u16>)>;

/// A registry: an HTTP authority, `host[:port]`. Two registries are the
/// same when their texts agree up to ASCII case.
#[derive(Debug, Clone)]
pub struct Registry {
    text: String,
    host: String,
    port: Option<u16>,
}

/// Relies on `http::uri::Authority`'s `FromStr`, `as_str`, `host` and
/// `port_u16`; the authority keeps the text it was parsed from.
#[verifier::external_body]
fn parse_authority(s: &str) -> (r: Result<Registry, Error>)
    ensures
        match r {
            Ok(g) => parsed_authority(s@) == Some((g.host_spec(), g.port_spec())) && g@ == s@,
            Err(e) => parsed_authority(s@) is None && e == Error::InvalidRegistry,
        },
{
    s.parse::<http::uri::Authority>().map(|a| Registry {
        text: a.as_str().to_string(),
        host: a.host().to_string(),
        port: a.port_u16(),
    }).map_err(|_| Error::InvalidRegistry)
}

impl View for Registry {
    type V = Seq<char>;

    /// The authority text.
    closed spec fn view(&self) -> Seq<char> {
        self.text@
    }
}

impl Registry {
    /// The host part.
    pub closed spec fn host_spec(&self) -> Seq<char> {
        self.host@
    }

    /// The port number, if given.
    pub closed spec fn port_spec(&self) -> Option<u16> {
        self.port
    }

    /// The text under which the registry is keyed: its text in lowercase.
    pub open spec fn key_spec(&self) -> Seq<char> {
        ascii_lower(self@)
    }

    /// A registry whose text is a host with no port, known to be a valid
    /// authority.
    pub(crate) fn known(host: String, port: Option<u16>) -> (r: Registry)
        requires
            port is None,
        ensures
            r@ == host@,
            r.host_spec() == host@,
            r.port_spec() is None,
    {
        Registry { text: host.clone(), host, port }
    }

    /// Parses `host[:port]`.
    pub fn parse(s: &str) -> (r: Result<Registry, Error>)
        ensures
            match r {
                Ok(g) => parsed_authority(s@) == Some((g.host_spec(), g.port_spec())) && g@ == s@,
                Err(e) => parsed_authority(s@) is None && e == Error::InvalidRegistry,
            },
    {
        parse_authority(s)
    }

    /// The host, without port.
    pub fn host(&self) -> (r: &str)
        ensures
            r@ == self.host_spec(),
    {
        self.host.as_str()
    }

    /// The port number, if given.
    pub fn port(&self) -> (r: Option<u16>)
        ensures
            r == self.port_spec(),
    {
        self.port
    }

    /// The authority text.
    pub fn as_str(&self) -> (r: &str)
        ensures
            r@ == self@,
    {
        self.text.as_str()
    }

    /// The authority text, owned.
    pub fn to_string(&self) -> (r: String)
        ensures
            r@ == self@,
    {
        self.text.clone()
    }

    /// The key text: the authority in lowercase.
    pub fn key(&self) -> (r: String)
        ensures
            r@ == self.key_spec(),
    {
        ascii_lowercase(self.text.as_str())
    }

    /// Whether two registries are the same, ignoring ASCII case.
    pub fn same(&self, other: &Registry) -> (r: bool)
        ensures
            r == (self.key_spec() == other.key_spec()),
    {
        let a = self.key();
        let b = other.key();
        text_eq(a.as_str(), b.as_str())
    }

    /// A copy of the registry.
    pub fn copy(&self) -> (r: Registry)
        ensures
            r@ == self@,
            r.host_spec() == self.host_spec(),
            r.port_spec() == self.port_spec(),
    {
        Registry { text: self.text.clone(), host: self.host.clone(), port: self.port }
    }
}

} // verus!
