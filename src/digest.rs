use vstd::prelude::*;

use crate::error::Error;
use crate::text::{ascii_lower, ascii_lowercase};

verus! {

/// A running SHA-256 computation. The hasher itself is not visible to the
/// verifier; `hashed_bytes` names what it has consumed.
#[verifier::external_body]
pub struct Sha256State {
    inner: sha2::Sha256,
}

/// The bytes fed so far into a running SHA-256 computation.
pub uninterp spec fn hashed_bytes(h: Sha256State) -> Seq<u8>;

/// The lowercase hexadecimal SHA-256 digest of `data`.
pub uninterp spec fn sha256_hex(data: Seq<u8>) -> Seq<char>;

/// Relies on `sha2::Sha256::new` (through `Digest`): a fresh hasher has
/// consumed nothing.
#[verifier::external_body]
fn new_hasher() -> (h: Sha256State)
    ensures
        hashed_bytes(h) == Seq::<u8>::empty(),
{
    Sha256State { inner: <sha2::Sha256 as sha2::Digest>::new() }
}

/// Relies on `sha2::Sha256::update` (through `Digest`): the data is
/// appended to what the hasher has consumed.
#[verifier::external_body]
fn hasher_update(h: &mut Sha256State, data: &[u8])
    ensures
        hashed_bytes(*final(h)) == hashed_bytes(*old(h)) + data@,
{
    sha2::Digest::update(&mut h.inner, data)
}

/// Relies on `sha2::Sha256::finalize` (through `Digest`) and the `LowerHex`
/// format of its output: the lowercase hex digest of everything consumed.
#[verifier::external_body]
fn hasher_finish(h: Sha256State) -> (r: String)
    ensures
        r@ == sha256_hex(hashed_bytes(h)),
{
    format!("{:x}", sha2::Digest::finalize(h.inner))
}

/// An ASCII hexadecimal digit, in either case.
pub open spec fn is_hex_char(c: char) -> bool {
    ('0' <= c && c <= '9') || ('a' <= c && c <= 'f') || ('A' <= c && c <= 'F')
}

/// The tag that starts a digest's text.
pub open spec fn sha256_prefix() -> Seq<char> {
    seq!['s', 'h', 'a', '2', '5', '6', ':']
}

/// The text of a SHA-256 digest with the given hex.
pub open spec fn digest_text(hex: Seq<char>) -> Seq<char> {
    sha256_prefix() + hex
}

/// `s` is a digest text: the tag followed by exactly 64 hex digits.
pub open spec fn is_digest_text(s: Seq<char>) -> bool {
    &&& s.len() == 71
    &&& s.subrange(0, 7) == sha256_prefix()
    &&& forall|i: int| 7 <= i < 71 ==> is_hex_char(#[trigger] s[i])
}

/// The hex kept when `s` is parsed as a digest, normalized to lowercase.
pub open spec fn parsed_hex(s: Seq<char>) -> Seq<char> {
    ascii_lower(s.subrange(7, s.len() as int))
}

/// A content digest. Only SHA-256 is defined; `hex` is normally 64
/// lowercase hex digits, and equality is exact.
#[derive(Debug, Clone, PartialEq, Eq)]
pub enum ContentDigest {
    Sha256 { hex: String },
}

impl ContentDigest {
    /// The digest's hex text.
    pub open spec fn hex_spec(&self) -> Seq<char> {
        match self {
            ContentDigest::Sha256 { hex } => hex@,
        }
    }

    /// Parses `sha256:<64 hex digits>`, lowercasing the hex.
    pub fn parse(s: &str) -> (r: Result<ContentDigest, Error>)
        ensures
            is_digest_text(s@) <==> r is Ok,
            r is Ok ==> r->Ok_0.hex_spec() == parsed_hex(s@),
            r is Err ==> r->Err_0 == Error::InvalidContentDigest,
    {
        let n = s.unicode_len();
        if n != 71 {
            return Err(Error::InvalidContentDigest);
        }
        let tag = "sha256:";
        proof {
            reveal_strlit("sha256:");
        }
        let mut i: usize = 0;
        while i < 7
            invariant
                n == s@.len() == 71,
                tag@ == sha256_prefix(),
                0 <= i <= 7,
                forall|j: int| 0 <= j < i ==> s@[j] == sha256_prefix()[j],
            decreases 7 - i,
        {
            if s.get_char(i) != tag.get_char(i) {
                assert(s@.subrange(0, 7)[i as int] != sha256_prefix()[i as int]);
                return Err(Error::InvalidContentDigest);
            }
            i = i + 1;
        }
        assert(s@.subrange(0, 7) == sha256_prefix());
        while i < 71
            invariant
                n == s@.len() == 71,
                s@.subrange(0, 7) == sha256_prefix(),
                7 <= i <= 71,
                forall|j: int| 7 <= j < i ==> is_hex_char(#[trigger] s@[j]),
            decreases 71 - i,
        {
            let c = s.get_char(i);
            if !(('0' <= c && c <= '9') || ('a' <= c && c <= 'f') || ('A' <= c && c <= 'F')) {
                return Err(Error::InvalidContentDigest);
            }
            i = i + 1;
        }
        let rest = s.substring_char(7, n);
        let hex = ascii_lowercase(rest);
        Ok(ContentDigest::Sha256 { hex })
    }

    /// The text form `sha256:<hex>`.
    pub fn to_string(&self) -> (r: String)
        ensures
            r@ == digest_text(self.hex_spec()),
    {
        match self {
            ContentDigest::Sha256 { hex } => {
                let s = String::from_str("sha256:");
                proof {
                    reveal_strlit("sha256:");
                }
                s.concat(hex.as_str())
            },
        }
    }

    /// Whether two digests are equal.
    pub fn same(&self, other: &ContentDigest) -> (r: bool)
        ensures
            r == (self.hex_spec() == other.hex_spec()),
    {
        match (self, other) {
            (ContentDigest::Sha256 { hex: a }, ContentDigest::Sha256 { hex: b }) => a.eq(b),
        }
    }

    /// A copy of the digest.
    pub fn copy(&self) -> (r: ContentDigest)
        ensures
            r.hex_spec() == self.hex_spec(),
    {
        match self {
            ContentDigest::Sha256 { hex } => ContentDigest::Sha256 { hex: hex.clone() },
        }
    }

    /// The SHA-256 digest of `data`.
    pub fn sha256_of(data: &[u8]) -> (r: ContentDigest)
        ensures
            r.hex_spec() == sha256_hex(data@),
    {
        let mut h = new_hasher();
        hasher_update(&mut h, data);
        assert(hashed_bytes(h) == data@);
        ContentDigest::from_hasher(h)
    }

    /// The digest of what a hasher has consumed.
    pub fn from_hasher(h: Sha256State) -> (r: ContentDigest)
        ensures
            r.hex_spec() == sha256_hex(hashed_bytes(h)),
    {
        ContentDigest::Sha256 { hex: hasher_finish(h) }
    }

    /// A validator for content that should have this digest.
    pub fn validator(&self) -> (r: Validator)
        ensures
            r.wf(),
            r.expected_hex() == self.hex_spec(),
            r.seen() == Seq::<u8>::empty(),
    {
        Validator { expected: self.copy(), hasher: new_hasher(), seen: Ghost(Seq::empty()) }
    }

    /// Passes every item of `items` through, hashing the chunks, and adds a
    /// final `InvalidContent` error when the hash of the chunks differs
    /// from this digest. Errors in the input are passed through as they are.
    pub fn validating_stream(&self, items: Vec<Result<Vec<u8>, Error>>) -> (r: Vec<Result<Vec<u8>, Error>>)
        ensures
            r@.len() == items@.len() + (if sha256_hex(ok_bytes(items@)) == self.hex_spec() { 0int } else { 1int }),
            forall|i: int| 0 <= i < items@.len() ==> #[trigger] item_view(r@[i]) == item_view(items@[i]),
            sha256_hex(ok_bytes(items@)) != self.hex_spec() ==> r@.last() == Err::<Vec<u8>, Error>(Error::InvalidContent),
    {
        let mut v = self.validator();
        let mut out: Vec<Result<Vec<u8>, Error>> = Vec::new();
        let mut i: usize = 0;
        while i < items.len()
            invariant
                0 <= i <= items@.len(),
                v.wf(),
                v.expected_hex() == self.hex_spec(),
                v.seen() == ok_bytes(items@.subrange(0, i as int)),
                out@.len() == i,
                forall|j: int| 0 <= j < i ==> #[trigger] item_view(out@[j]) == item_view(items@[j]),
            decreases items@.len() - i,
        {
            let item = &items[i];
            proof {
                let pre = items@.subrange(0, i as int);
                assert(items@.subrange(0, i + 1) == pre.push(items@[i as int]));
                assert(items@.subrange(0, i + 1).drop_last() == pre);
            }
            match item {
                Ok(chunk) => {
                    v.feed(chunk.as_slice());
                    out.push(Ok(chunk.clone()));
                },
                Err(e) => {
                    out.push(Err(*e));
                },
            }
            i = i + 1;
        }
        assert(items@.subrange(0, items@.len() as int) == items@);
        match v.finish() {
            Ok(()) => {},
            Err(e) => {
                out.push(Err(e));
            },
        }
        out
    }
}

/// The value of one item of a stream: its bytes, or its error.
pub open spec fn item_view(item: Result<Vec<u8>, Error>) -> Result<Seq<u8>, Error> {
    match item {
        Ok(c) => Ok(c@),
        Err(e) => Err(e),
    }
}

/// The bytes of the chunks of a stream, in order, ignoring error items.
pub open spec fn ok_bytes(items: Seq<Result<Vec<u8>, Error>>) -> Seq<u8>
    decreases items.len(),
{
    if items.len() == 0 {
        Seq::empty()
    } else {
        let prefix = ok_bytes(items.drop_last());
        match items.last() {
            Ok(c) => prefix + c@,
            Err(_) => prefix,
        }
    }
}

/// Checks streamed content against an expected digest: every chunk is fed
/// through and hashed, and `finish` compares the hash with the expectation.
pub struct Validator {
    expected: ContentDigest,
    hasher: Sha256State,
    seen: Ghost<Seq<u8>>,
}

impl Validator {
    /// The hasher has consumed exactly the chunks fed so far.
    pub closed spec fn wf(&self) -> bool {
        hashed_bytes(self.hasher) == self.seen@
    }

    /// The bytes fed so far.
    pub closed spec fn seen(&self) -> Seq<u8> {
        self.seen@
    }

    /// The expected hex digest.
    pub closed spec fn expected_hex(&self) -> Seq<char> {
        self.expected.hex_spec()
    }

    /// Feeds one chunk into the hash.
    pub fn feed(&mut self, chunk: &[u8])
        requires
            old(self).wf(),
        ensures
            final(self).wf(),
            final(self).seen() == old(self).seen() + chunk@,
            final(self).expected_hex() == old(self).expected_hex(),
    {
        hasher_update(&mut self.hasher, chunk);
        self.seen = Ghost(self.seen@ + chunk@);
    }

    /// The terminal check: `Ok` exactly when the bytes fed have the
    /// expected digest, else `InvalidContent`.
    pub fn finish(self) -> (r: Result<(), Error>)
        requires
            self.wf(),
        ensures
            r is Ok <==> sha256_hex(self.seen()) == self.expected_hex(),
            r is Err ==> r->Err_0 == Error::InvalidContent,
    {
        let got = ContentDigest::from_hasher(self.hasher);
        if got.same(&self.expected) {
            Ok(())
        } else {
            Err(Error::InvalidContent)
        }
    }
}

/// A digest parsed from text prints back as that text in lowercase.
pub proof fn lemma_digest_text_round_trip(s: Seq<char>)
    requires
        is_digest_text(s),
    ensures
        digest_text(parsed_hex(s)) == ascii_lower(s),
{
    let p = sha256_prefix();
    assert(s == p + s.subrange(7, s.len() as int));
    assert(ascii_lower(p) == p);
    assert(ascii_lower(s) == ascii_lower(p) + ascii_lower(s.subrange(7, s.len() as int)));
}

} // verus!
