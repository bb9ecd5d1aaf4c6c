use vstd::prelude::*;

verus! {

/// Lexicographic order on texts, by character code.
pub open spec fn text_lt(a: Seq<char>, b: Seq<char>) -> bool
    decreases a.len(),
{
    if a.len() == 0 {
        b.len() > 0
    } else if b.len() == 0 {
        false
    } else if a[0] != b[0] {
        (a[0] as u32) < (b[0] as u32)
    } else {
        text_lt(a.drop_first(), b.drop_first())
    }
}

/// Whether two texts are equal.
pub fn text_eq(a: &str, b: &str) -> (r: bool)
    ensures
        r == (a@ == b@),
{
    let n = a.unicode_len();
    if n != b.unicode_len() {
        return false;
    }
    let mut i: usize = 0;
    while i < n
        invariant
            n == a@.len() == b@.len(),
            0 <= i <= n,
            forall|j: int| 0 <= j < i ==> a@[j] == b@[j],
        decreases n - i,
    {
        if a.get_char(i) != b.get_char(i) {
            return false;
        }
        i = i + 1;
    }
    assert(a@ == b@);
    true
}

/// The lexicographic order of two texts.
pub fn text_compare(a: &str, b: &str) -> (r: core::cmp::Ordering)
    ensures
        (r == core::cmp::Ordering::Less) == text_lt(a@, b@),
        (r == core::cmp::Ordering::Greater) == text_lt(b@, a@),
        (r == core::cmp::Ordering::Equal) == (a@ == b@),
{
    let n = a.unicode_len();
    let m = b.unicode_len();
    let mut i: usize = 0;
    while i < n && i < m
        invariant
            n == a@.len(),
            m == b@.len(),
            0 <= i <= n,
            i <= m,
            forall|j: int| 0 <= j < i ==> a@[j] == b@[j],
        decreases n - i,
    {
        let x = a.get_char(i);
        let y = b.get_char(i);
        if x != y {
            proof {
                lemma_text_lt_at(a@, b@, i as int);
                lemma_text_lt_at(b@, a@, i as int);
            }
            if (x as u32) < (y as u32) {
                return core::cmp::Ordering::Less;
            } else {
                return core::cmp::Ordering::Greater;
            }
        }
        i = i + 1;
    }
    proof {
        lemma_text_lt_prefix(a@, b@, i as int);
        lemma_text_lt_prefix(b@, a@, i as int);
    }
    if n < m {
        core::cmp::Ordering::Less
    } else if m < n {
        core::cmp::Ordering::Greater
    } else {
        assert(a@ == b@);
        core::cmp::Ordering::Equal
    }
}

/// Texts that agree before `i` and differ at `i` are ordered by that
/// character.
proof fn lemma_text_lt_at(a: Seq<char>, b: Seq<char>, i: int)
    requires
        0 <= i < a.len(),
        i < b.len(),
        forall|j: int| 0 <= j < i ==> a[j] == b[j],
        a[i] != b[i],
    ensures
        text_lt(a, b) == ((a[i] as u32) < (b[i] as u32)),
    decreases i,
{
    if i > 0 {
        lemma_text_lt_at(a.drop_first(), b.drop_first(), i - 1);
    }
}

/// Texts that agree on their first `i` characters, where one of them ends,
/// are ordered by length.
proof fn lemma_text_lt_prefix(a: Seq<char>, b: Seq<char>, i: int)
    requires
        0 <= i <= a.len(),
        i <= b.len(),
        i == a.len() || i == b.len(),
        forall|j: int| 0 <= j < i ==> a[j] == b[j],
    ensures
        text_lt(a, b) == (a.len() < b.len()),
    decreases i,
{
    if i > 0 {
        lemma_text_lt_prefix(a.drop_first(), b.drop_first(), i - 1);
    }
}

/// Relies on `str::to_ascii_lowercase`: ASCII capitals become lowercase,
/// every other character is kept.
#[verifier::external_body]
pub(crate) fn ascii_lowercase(s: &str) -> (r: String)
    ensures
        r@ == ascii_lower(s@),
{
    s.to_ascii_lowercase()
}

/// A character in lowercase, for ASCII capitals.
pub open spec fn lower_char(c: char) -> char {
    if 'A' <= c && c <= 'Z' {
        ((c as u32) + 32) as char
    } else {
        c
    }
}

/// ASCII lowercasing of a text.
pub open spec fn ascii_lower(s: Seq<char>) -> Seq<char> {
    s.map_values(|c: char| lower_char(c))
}

/// The texts of a list of strings.
pub open spec fn texts(v: Seq<String>) -> Seq<Seq<char>> {
    v.map_values(|x: String| x@)
}

/// Each text is strictly before the next.
pub open spec fn ascending(v: Seq<Seq<char>>) -> bool {
    forall|i: int| 0 <= i < v.len() - 1 ==> text_lt(#[trigger] v[i], v[i + 1])
}

/// `x` is one of the texts.
pub open spec fn holds_text(v: Seq<Seq<char>>, x: Seq<char>) -> bool {
    exists|i: int| 0 <= i < v.len() && v[i] == x
}

/// Adds `s` to an ascending list of strings, unless it is already there.
pub fn insert_sorted(v: &mut Vec<String>, s: String)
    requires
        ascending(texts(old(v)@)),
    ensures
        ascending(texts(final(v)@)),
        forall|x: Seq<char>| holds_text(texts(final(v)@), x) <==> (holds_text(texts(old(v)@), x) || x == s@),
{
    let ghost old_t = texts(v@);
    let n = v.len();
    let mut p: usize = 0;
    let mut stop = false;
    while p < n && !stop
        invariant
            n == v@.len(),
            v@ == old(v)@,
            old_t == texts(v@),
            ascending(old_t),
            0 <= p <= n,
            p > 0 ==> text_lt(old_t[p - 1], s@),
            stop ==> p < n && text_lt(s@, old_t[p as int]),
        decreases n - p + (if stop { 0int } else { 1int }),
    {
        assert(old_t[p as int] == v@[p as int]@);
        match text_compare(v[p].as_str(), s.as_str()) {
            core::cmp::Ordering::Less => {
                p = p + 1;
            },
            core::cmp::Ordering::Equal => {
                assert(holds_text(old_t, s@));
                return;
            },
            core::cmp::Ordering::Greater => {
                stop = true;
            },
        }
    }
    let ghost sv = s@;
    v.insert(p, s);
    proof {
        assert(texts(v@) == old_t.insert(p as int, sv));
        lemma_insert_ascending(old_t, p as int, sv);
    }
}

/// Putting `x` between its neighbours keeps a list ascending, and adds
/// exactly `x` to its texts.
proof fn lemma_insert_ascending(old_t: Seq<Seq<char>>, p: int, x: Seq<char>)
    requires
        ascending(old_t),
        0 <= p <= old_t.len(),
        p > 0 ==> text_lt(old_t[p - 1], x),
        p < old_t.len() ==> text_lt(x, old_t[p]),
    ensures
        ascending(old_t.insert(p, x)),
        forall|y: Seq<char>| holds_text(old_t.insert(p, x), y) <==> (holds_text(old_t, y) || y == x),
{
    let t = old_t.insert(p, x);
    assert forall|i: int| 0 <= i < t.len() - 1 implies text_lt(#[trigger] t[i], t[i + 1]) by {
        if i < p - 1 {
            assert(t[i] == old_t[i] && t[i + 1] == old_t[i + 1]);
        } else if i == p - 1 {
            assert(t[i] == old_t[i] && t[i + 1] == x);
        } else if i == p {
            assert(t[i] == x && t[i + 1] == old_t[i]);
        } else {
            assert(t[i] == old_t[i - 1] && t[i + 1] == old_t[i]);
        }
    }
    assert forall|y: Seq<char>| holds_text(t, y) <==> (holds_text(old_t, y) || y == x) by {
        if holds_text(t, y) {
            let i = choose|i: int| 0 <= i < t.len() && t[i] == y;
            if i < p {
                assert(old_t[i] == y);
            } else if i > p {
                assert(old_t[i - 1] == y);
            }
        }
        if holds_text(old_t, y) {
            let i = choose|i: int| 0 <= i < old_t.len() && old_t[i] == y;
            if i < p {
                assert(t[i] == y);
            } else {
                assert(t[i + 1] == y);
            }
        }
        if y == x {
            assert(t[p] == y);
        }
    }
}

} // verus!
