use vstd::prelude::*;

use crate::error::Error;
use crate::label::{label_error, InvalidLabel, Label};

verus! {

/// Position of the first `:` in `s` at or after `i`, if any.
pub open spec fn colon_from(s: Seq<char>, i: int) -> Option<int>
    decreases s.len() - i,
{
    if i < 0 || i >= s.len() {
        None
    } else if s[i] == ':' {
        Some(i)
    } else {
        colon_from(s, i + 1)
    }
}

/// Position of the first `:` in `s`, if any.
pub open spec fn first_colon(s: Seq<char>) -> Option<int> {
    colon_from(s, 0)
}

/// What parsing `s` as `namespace:name` gives: the two texts split at the
/// first colon, or the error.
pub open spec fn package_ref_result(s: Seq<char>) -> Result<(Seq<char>, Seq<char>), Error> {
    match first_colon(s) {
        None => Err(Error::InvalidPackageRef),
        Some(i) => {
            let ns = s.subrange(0, i);
            let nm = s.subrange(i + 1, s.len() as int);
            match label_error(ns) {
                Some(e) => Err(Error::InvalidLabel(e)),
                None => match label_error(nm) {
                    Some(e) => Err(Error::InvalidLabel(e)),
                    None => Ok((ns, nm)),
                },
            }
        },
    }
}

/// The serialized form `namespace:name`.
pub open spec fn package_ref_text(ns: Seq<char>, name: Seq<char>) -> Seq<char> {
    ns + seq![':'] + name
}

/// A package reference: a namespace label and a name label.
#[derive(Debug, Clone, PartialEq, Eq, Hash, PartialOrd, Ord)]
pub struct PackageRef {
    namespace: Label,
    name: Label,
}

impl View for PackageRef {
    type V = (Seq<char>, Seq<char>);

    closed spec fn view(&self) -> (Seq<char>, Seq<char>) {
        (self.namespace@, self.name@)
    }
}

impl PackageRef {
    /// Both parts are labels.
    pub closed spec fn wf(&self) -> bool {
        self.namespace.wf() && self.name.wf()
    }

    /// A package reference from a namespace and a name.
    pub fn new(namespace: Label, name: Label) -> (r: PackageRef)
        ensures
            r@ == (namespace@, name@),
            namespace.wf() && name.wf() ==> r.wf(),
    {
        PackageRef { namespace, name }
    }

    /// The namespace.
    pub fn namespace(&self) -> (r: &Label)
        ensures
            r@ == self@.0,
            self.wf() ==> r.wf(),
    {
        &self.namespace
    }

    /// The name.
    pub fn name(&self) -> (r: &Label)
        ensures
            r@ == self@.1,
            self.wf() ==> r.wf(),
    {
        &self.name
    }

    /// A copy of the reference.
    pub fn copy(&self) -> (r: PackageRef)
        ensures
            r@ == self@,
            self.wf() ==> r.wf(),
    {
        PackageRef { namespace: self.namespace.copy(), name: self.name.copy() }
    }

    /// Whether two references name the same package.
    pub fn same(&self, other: &PackageRef) -> (r: bool)
        ensures
            r == (self@ == other@),
    {
        self.namespace.same(&other.namespace) && self.name.same(&other.name)
    }

    /// Parses `namespace:name`, splitting at the first colon.
    pub fn parse(s: &str) -> (r: Result<PackageRef, Error>)
        ensures
            match r {
                Ok(p) => package_ref_result(s@) == Ok::<_, Error>(p@) && p.wf(),
                Err(e) => package_ref_result(s@) == Err::<(Seq<char>, Seq<char>), _>(e),
            },
    {
        let n = s.unicode_len();
        let mut i: usize = 0;
        let mut found = false;
        while i < n && !found
            invariant
                n == s@.len(),
                0 <= i <= n,
                found ==> i < n && s@[i as int] == ':' && first_colon(s@) == Some(i as int),
                !found ==> first_colon(s@) == colon_from(s@, i as int),
            decreases n - i + (if found { 0int } else { 1int }),
        {
            if s.get_char(i) == ':' {
                found = true;
            } else {
                i = i + 1;
            }
        }
        if !found {
            return Err(Error::InvalidPackageRef);
        }
        let ns = s.substring_char(0, i);
        let nm = s.substring_char(i + 1, n);
        match Label::parse(ns) {
            Err(e) => Err(Error::InvalidLabel(e)),
            Ok(a) => match Label::parse(nm) {
                Err(e) => Err(Error::InvalidLabel(e)),
                Ok(b) => Ok(PackageRef { namespace: a, name: b }),
            },
        }
    }

    /// The serialized form `namespace:name`.
    pub fn to_string(&self) -> (r: String)
        ensures
            r@ == package_ref_text(self@.0, self@.1),
    {
        let s = self.namespace.to_string();
        let s = s.concat(":");
        proof { reveal_strlit(":"); }
        let r = s.concat(self.name.as_str());
        r
    }
}

} // verus!
