use vstd::prelude::*;

use crate::text::text_eq;

verus! {

/// A map keyed by text, with keys kept unique and in insertion order.
#[derive(Debug, Clone)]
pub struct TextMap<V> {
    keys: Vec<String>,
    vals: Vec<V>,
}

impl<V> TextMap<V> {
    /// The keys, in insertion order.
    pub closed spec fn key_seq(&self) -> Seq<Seq<char>> {
        self.keys@.map_values(|k: String| k@)
    }

    /// The values, in the order of their keys.
    pub closed spec fn val_seq(&self) -> Seq<V> {
        self.vals@
    }

    /// Keys and values line up, and no key occurs twice.
    pub open spec fn wf(&self) -> bool {
        &&& self.key_seq().len() == self.val_seq().len()
        &&& forall|i: int, j: int|
            0 <= i < j < self.key_seq().len() ==> self.key_seq()[i] != self.key_seq()[j]
    }

    /// `k` is a key of the map.
    pub open spec fn has(&self, k: Seq<char>) -> bool {
        exists|i: int| 0 <= i < self.key_seq().len() && self.key_seq()[i] == k
    }

    /// The map sends `k` to `v`.
    pub open spec fn maps(&self, k: Seq<char>, v: V) -> bool {
        exists|i: int| 0 <= i < self.key_seq().len() && self.key_seq()[i] == k && self.val_seq()[i] == v
    }

    /// The number of keys.
    pub open spec fn size(&self) -> nat {
        self.key_seq().len()
    }

    /// A key is sent to one value only.
    pub proof fn lemma_maps_unique(&self, k: Seq<char>, a: V, b: V)
        requires
            self.wf(),
            self.maps(k, a),
            self.maps(k, b),
        ensures
            a == b,
    {
        let i = choose|i: int| 0 <= i < self.key_seq().len() && self.key_seq()[i] == k && self.val_seq()[i] == a;
        let j = choose|j: int| 0 <= j < self.key_seq().len() && self.key_seq()[j] == k && self.val_seq()[j] == b;
        if i != j {
            if i < j {
                assert(self.key_seq()[i] != self.key_seq()[j]);
            } else {
                assert(self.key_seq()[j] != self.key_seq()[i]);
            }
        }
    }

    /// A key of the map is sent to some value.
    pub proof fn lemma_has_maps(&self, k: Seq<char>)
        requires
            self.wf(),
            self.has(k),
        ensures
            exists|v: V| self.maps(k, v),
    {
        let i = choose|i: int| 0 <= i < self.key_seq().len() && self.key_seq()[i] == k;
        assert(self.maps(k, self.val_seq()[i]));
    }

    /// An empty map.
    pub fn new() -> (r: TextMap<V>)
        ensures
            r.wf(),
            r.size() == 0,
            forall|k: Seq<char>| !r.has(k),
    {
        let r = TextMap { keys: Vec::new(), vals: Vec::new() };
        assert(r.key_seq().len() == 0);
        r
    }

    /// The number of keys.
    pub fn len(&self) -> (r: usize)
        requires
            self.wf(),
        ensures
            r == self.size(),
    {
        self.keys.len()
    }

    /// The position of `k`, if it is a key.
    fn position(&self, k: &str) -> (r: Option<usize>)
        requires
            self.wf(),
        ensures
            match r {
                Some(i) => i < self.size() && self.key_seq()[i as int] == k@,
                None => !self.has(k@),
            },
    {
        let mut i: usize = 0;
        while i < self.keys.len()
            invariant
                self.wf(),
                0 <= i <= self.size(),
                forall|j: int| 0 <= j < i ==> self.key_seq()[j] != k@,
            decreases self.size() - i,
        {
            if text_eq(self.keys[i].as_str(), k) {
                assert(self.key_seq()[i as int] == self.keys@[i as int]@);
                return Some(i);
            }
            assert(self.key_seq()[i as int] == self.keys@[i as int]@);
            i = i + 1;
        }
        None
    }

    /// The value under `k`, if any.
    pub fn get(&self, k: &str) -> (r: Option<&V>)
        requires
            self.wf(),
        ensures
            match r {
                Some(v) => self.maps(k@, *v),
                None => !self.has(k@),
            },
    {
        match self.position(k) {
            Some(i) => Some(&self.vals[i]),
            None => None,
        }
    }

    /// The key at position `i`.
    pub fn key_at(&self, i: usize) -> (r: &str)
        requires
            self.wf(),
            i < self.size(),
        ensures
            r@ == self.key_seq()[i as int],
    {
        self.keys[i].as_str()
    }

    /// The value at position `i`.
    pub fn val_at(&self, i: usize) -> (r: &V)
        requires
            self.wf(),
            i < self.size(),
        ensures
            *r == self.val_seq()[i as int],
    {
        &self.vals[i]
    }

    /// The values, in the order of their keys.
    pub fn into_vals(self) -> (r: Vec<V>)
        ensures
            r@ == self.val_seq(),
    {
        self.vals
    }

    /// Removes `k` and its value; other keys keep theirs.
    pub fn remove(&mut self, k: &str)
        requires
            old(self).wf(),
        ensures
            final(self).wf(),
            !final(self).has(k@),
            forall|k2: Seq<char>| k2 != k@ ==> (final(self).has(k2) <==> old(self).has(k2)),
            forall|k2: Seq<char>, v2: V| k2 != k@ ==> (final(self).maps(k2, v2) <==> old(self).maps(k2, v2)),
    {
        let _ = self.take(k);
    }

    /// Removes `k` and returns its value, if it had one; other keys keep
    /// theirs.
    pub fn take(&mut self, k: &str) -> (r: Option<V>)
        requires
            old(self).wf(),
        ensures
            final(self).wf(),
            match r {
                Some(v) => old(self).maps(k@, v) && final(self).size() + 1 == old(self).size(),
                None => !old(self).has(k@) && final(self).size() == old(self).size(),
            },
            !final(self).has(k@),
            forall|k2: Seq<char>| k2 != k@ ==> (final(self).has(k2) <==> old(self).has(k2)),
            forall|k2: Seq<char>, v2: V| k2 != k@ ==> (final(self).maps(k2, v2) <==> old(self).maps(k2, v2)),
    {
        match self.position(k) {
            None => None,
            Some(i) => {
                let ghost ok = self.key_seq();
                let ghost ov = self.val_seq();
                assert(old(self).maps(k@, ov[i as int]));
                self.keys.remove(i);
                let v = self.vals.remove(i);
                proof {
                    assert(self.key_seq() =~= ok.remove(i as int));
                    assert(self.val_seq() =~= ov.remove(i as int));
                    assert forall|a: int, b: int| 0 <= a < b < self.key_seq().len() implies self.key_seq()[a] != self.key_seq()[b] by {
                        let a0 = if a < i { a } else { a + 1 };
                        let b0 = if b < i { b } else { b + 1 };
                        assert(ok[a0] != ok[b0]);
                    }
                    assert forall|k2: Seq<char>| !(k2 == k@ && self.has(k2)) by {
                        if k2 == k@ && self.has(k2) {
                            let j = choose|j: int| 0 <= j < self.key_seq().len() && self.key_seq()[j] == k2;
                            let j0 = if j < i { j } else { j + 1 };
                            assert(ok[j0] == ok[i as int]);
                        }
                    }
                    assert forall|k2: Seq<char>| k2 != k@ implies (self.has(k2) <==> old(self).has(k2)) by {
                        if self.has(k2) {
                            let j = choose|j: int| 0 <= j < self.key_seq().len() && self.key_seq()[j] == k2;
                            let j0 = if j < i { j } else { j + 1 };
                            assert(ok[j0] == k2);
                        }
                        if old(self).has(k2) {
                            let j = choose|j: int| 0 <= j < ok.len() && ok[j] == k2;
                            assert(j != i);
                            let j1 = if j < i { j } else { j - 1 };
                            assert(self.key_seq()[j1] == k2);
                        }
                    }
                    assert forall|k2: Seq<char>, v2: V| k2 != k@ implies (self.maps(k2, v2) <==> old(self).maps(k2, v2)) by {
                        if self.maps(k2, v2) {
                            let j = choose|j: int| 0 <= j < self.key_seq().len() && self.key_seq()[j] == k2 && self.val_seq()[j] == v2;
                            let j0 = if j < i { j } else { j + 1 };
                            assert(ok[j0] == k2 && ov[j0] == v2);
                        }
                        if old(self).maps(k2, v2) {
                            let j = choose|j: int| 0 <= j < ok.len() && ok[j] == k2 && ov[j] == v2;
                            assert(j != i);
                            let j1 = if j < i { j } else { j - 1 };
                            assert(self.key_seq()[j1] == k2 && self.val_seq()[j1] == v2);
                        }
                    }
                }
                Some(v)
            },
        }
    }

    /// Removes and returns the last entry, if any.
    pub fn pop_entry(&mut self) -> (r: Option<(String, V)>)
        requires
            old(self).wf(),
        ensures
            final(self).wf(),
            match r {
                Some((k, v)) => old(self).maps(k@, v) && !final(self).has(k@)
                    && final(self).size() + 1 == old(self).size()
                    && (forall|k2: Seq<char>| k2 != k@ ==> (final(self).has(k2) <==> old(self).has(k2)))
                    && (forall|k2: Seq<char>, v2: V| k2 != k@ ==> (final(self).maps(k2, v2) <==> old(self).maps(k2, v2))),
                None => old(self).size() == 0 && final(self).size() == 0,
            },
    {
        let n = self.keys.len();
        if n == 0 {
            return None;
        }
        let k = String::from_str(self.keys[n - 1].as_str());
        let ghost kv = k@;
        assert(kv == self.key_seq()[n - 1]);
        match self.take(k.as_str()) {
            Some(v) => Some((k, v)),
            None => {
                assert(self.has(kv));
                None
            },
        }
    }

    /// Moves every entry of `other` into this map, replacing the values of
    /// keys that both have.
    pub fn absorb(&mut self, other: TextMap<V>)
        requires
            old(self).wf(),
            other.wf(),
        ensures
            final(self).wf(),
            forall|k: Seq<char>| final(self).has(k) <==> (old(self).has(k) || other.has(k)),
            forall|k: Seq<char>, v: V| final(self).maps(k, v) <==> (other.maps(k, v) || (old(self).maps(k, v) && !other.has(k))),
    {
        let ghost ok = other.key_seq();
        let ghost ov = other.val_seq();
        let mut rest = other;
        while rest.keys.len() > 0
            invariant
                self.wf(),
                rest.wf(),
                ok.len() == ov.len(),
                forall|a: int, b: int| 0 <= a < b < ok.len() ==> ok[a] != ok[b],
                rest.key_seq().len() <= ok.len(),
                rest.key_seq() == ok.subrange(0, rest.key_seq().len() as int),
                rest.val_seq() == ov.subrange(0, rest.key_seq().len() as int),
                forall|k: Seq<char>| self.has(k) <==> (old(self).has(k) || exists|j: int| rest.key_seq().len() <= j < ok.len() && ok[j] == k),
                forall|k: Seq<char>, v: V| self.maps(k, v) <==> (
                    (exists|j: int| rest.key_seq().len() <= j < ok.len() && ok[j] == k && ov[j] == v)
                    || (old(self).maps(k, v) && forall|j: int| rest.key_seq().len() <= j < ok.len() ==> ok[j] != k)),
            decreases rest.keys@.len(),
        {
            let n = rest.keys.len();
            let ghost m = n as int - 1;
            let ghost rk = rest.key_seq();
            let ghost rv = rest.val_seq();
            let ghost rkeys = rest.keys@;
            assert(rk.len() == rkeys.len() && rkeys.len() == n);
            assert(rk == ok.subrange(0, n as int));
            assert(rk[m] == ok[m]);
            assert(rv[m] == ov[m]);
            assert(rk[m] == rkeys[m]@);
            let k = rest.keys.pop().unwrap();
            let v = rest.vals.pop().unwrap();
            proof {
                assert(k@ == ok[m]);
                assert(v == ov[m]);
                assert(rest.keys@ == rkeys.drop_last());
                assert(rest.key_seq() =~= rk.subrange(0, m));
                assert(rest.key_seq() =~= ok.subrange(0, m));
                assert(rest.val_seq() =~= ov.subrange(0, m));
                assert forall|a: int, b: int| 0 <= a < b < rest.key_seq().len() implies rest.key_seq()[a] != rest.key_seq()[b] by {
                    assert(ok[a] != ok[b]);
                }
            }
            let ghost pre = *self;
            self.insert(k, v);
            proof {
                assert forall|k2: Seq<char>| self.has(k2) <==> (old(self).has(k2) || exists|j: int| m <= j < ok.len() && ok[j] == k2) by {
                    if k2 == ok[m] {
                        assert(self.maps(k2, ov[m]));
                    }
                    if exists|j: int| m <= j < ok.len() && ok[j] == k2 {
                        let j = choose|j: int| m <= j < ok.len() && ok[j] == k2;
                        if j != m {
                            assert(exists|j2: int| m + 1 <= j2 < ok.len() && ok[j2] == k2);
                        }
                    }
                    if k2 != ok[m] && (exists|j: int| m + 1 <= j < ok.len() && ok[j] == k2) {
                        let j = choose|j: int| m + 1 <= j < ok.len() && ok[j] == k2;
                        assert(exists|j2: int| m <= j2 < ok.len() && ok[j2] == k2);
                    }
                }
                assert forall|k2: Seq<char>, v2: V| self.maps(k2, v2) <==> (
                    (exists|j: int| m <= j < ok.len() && ok[j] == k2 && ov[j] == v2)
                    || (old(self).maps(k2, v2) && forall|j: int| m <= j < ok.len() ==> ok[j] != k2)) by {
                    if k2 == ok[m] {
                        if self.maps(k2, v2) {
                            self.lemma_maps_unique(k2, v2, ov[m]);
                        }
                        assert(!(forall|j: int| m <= j < ok.len() ==> ok[j] != k2));
                        if exists|j: int| m <= j < ok.len() && ok[j] == k2 && ov[j] == v2 {
                            let j = choose|j: int| m <= j < ok.len() && ok[j] == k2 && ov[j] == v2;
                            if j != m {
                                assert(ok[m] != ok[j]);
                            }
                        }
                    } else {
                        assert(self.maps(k2, v2) == pre.maps(k2, v2));
                        if exists|j: int| m + 1 <= j < ok.len() && ok[j] == k2 && ov[j] == v2 {
                            let j = choose|j: int| m + 1 <= j < ok.len() && ok[j] == k2 && ov[j] == v2;
                            assert(exists|j2: int| m <= j2 < ok.len() && ok[j2] == k2 && ov[j2] == v2);
                        }
                        if exists|j: int| m <= j < ok.len() && ok[j] == k2 && ov[j] == v2 {
                            let j = choose|j: int| m <= j < ok.len() && ok[j] == k2 && ov[j] == v2;
                            assert(j != m);
                            assert(exists|j2: int| m + 1 <= j2 < ok.len() && ok[j2] == k2 && ov[j2] == v2);
                        }
                        if forall|j: int| m + 1 <= j < ok.len() ==> ok[j] != k2 {
                            assert(forall|j: int| m <= j < ok.len() ==> ok[j] != k2);
                        }
                    }
                }
            }
        }
        proof {
            assert forall|k: Seq<char>| other.has(k) <==> exists|j: int| 0 <= j < ok.len() && ok[j] == k by {}
            assert forall|k: Seq<char>, v: V| other.maps(k, v) <==> exists|j: int| 0 <= j < ok.len() && ok[j] == k && ov[j] == v by {}
        }
    }

    /// Sends `k` to `v`, replacing any value it had; other keys keep theirs.
    pub fn insert(&mut self, k: String, v: V)
        requires
            old(self).wf(),
        ensures
            final(self).wf(),
            final(self).maps(k@, v),
            forall|k2: Seq<char>| k2 != k@ ==> (final(self).has(k2) <==> old(self).has(k2)),
            forall|k2: Seq<char>, v2: V| k2 != k@ ==> (final(self).maps(k2, v2) <==> old(self).maps(k2, v2)),
            old(self).has(k@) ==> final(self).size() == old(self).size(),
            !old(self).has(k@) ==> final(self).size() == old(self).size() + 1,
    {
        let ghost old_keys = self.key_seq();
        let ghost kv = k@;
        match self.position(k.as_str()) {
            Some(i) => {
                self.vals.set(i, v);
                assert(self.key_seq() == old_keys);
                assert(self.maps(kv, v)) by {
                    assert(self.key_seq()[i as int] == kv && self.val_seq()[i as int] == v);
                }
                assert forall|k2: Seq<char>, v2: V| k2 != kv implies (self.maps(k2, v2) <==> old(self).maps(k2, v2)) by {
                    if self.maps(k2, v2) {
                        let j = choose|j: int| 0 <= j < self.key_seq().len() && self.key_seq()[j] == k2 && self.val_seq()[j] == v2;
                        assert(old(self).key_seq()[j] == k2 && old(self).val_seq()[j] == v2);
                    }
                    if old(self).maps(k2, v2) {
                        let j = choose|j: int| 0 <= j < old(self).key_seq().len() && old(self).key_seq()[j] == k2 && old(self).val_seq()[j] == v2;
                        assert(self.key_seq()[j] == k2 && self.val_seq()[j] == v2);
                    }
                }
            },
            None => {
                self.keys.push(k);
                self.vals.push(v);
                assert(self.key_seq() == old_keys.push(kv));
                let ghost n = old_keys.len() as int;
                assert(self.key_seq()[n] == kv && self.val_seq()[n] == v);
                assert forall|k2: Seq<char>| k2 != kv implies (self.has(k2) <==> old(self).has(k2)) by {
                    if self.has(k2) {
                        let j = choose|j: int| 0 <= j < self.key_seq().len() && self.key_seq()[j] == k2;
                        assert(old(self).key_seq()[j] == k2);
                    }
                    if old(self).has(k2) {
                        let j = choose|j: int| 0 <= j < old(self).key_seq().len() && old(self).key_seq()[j] == k2;
                        assert(self.key_seq()[j] == k2);
                    }
                }
                assert forall|k2: Seq<char>, v2: V| k2 != kv implies (self.maps(k2, v2) <==> old(self).maps(k2, v2)) by {
                    if self.maps(k2, v2) {
                        let j = choose|j: int| 0 <= j < self.key_seq().len() && self.key_seq()[j] == k2 && self.val_seq()[j] == v2;
                        assert(old(self).key_seq()[j] == k2 && old(self).val_seq()[j] == v2);
                    }
                    if old(self).maps(k2, v2) {
                        let j = choose|j: int| 0 <= j < old(self).key_seq().len() && old(self).key_seq()[j] == k2 && old(self).val_seq()[j] == v2;
                        assert(self.key_seq()[j] == k2 && self.val_seq()[j] == v2);
                    }
                }
            },
        }
    }
}

impl TextMap<String> {
    /// The map sends `k` to a string with text `t`.
    pub open spec fn maps_text(&self, k: Seq<char>, t: Seq<char>) -> bool {
        exists|i: int| 0 <= i < self.key_seq().len() && self.key_seq()[i] == k && self.val_seq()[i]@ == t
    }

    /// Sends every key of `other` to its value there; other keys keep
    /// theirs.
    pub fn extend_from(&mut self, other: &TextMap<String>)
        requires
            old(self).wf(),
            other.wf(),
        ensures
            final(self).wf(),
            forall|k: Seq<char>| final(self).has(k) <==> (old(self).has(k) || other.has(k)),
            forall|k: Seq<char>, t: Seq<char>|
                final(self).maps_text(k, t) <==> (other.maps_text(k, t) || (old(self).maps_text(k, t) && !other.has(k))),
    {
        let n = other.len();
        let mut i: usize = 0;
        while i < n
            invariant
                self.wf(),
                other.wf(),
                n == other.size(),
                0 <= i <= n,
                forall|k: Seq<char>| self.has(k) <==> (old(self).has(k) || exists|j: int| 0 <= j < i && other.key_seq()[j] == k),
                forall|k: Seq<char>, t: Seq<char>| self.maps_text(k, t) <==> (
                    (exists|j: int| 0 <= j < i && other.key_seq()[j] == k && other.val_seq()[j]@ == t)
                    || (old(self).maps_text(k, t) && forall|j: int| 0 <= j < i ==> other.key_seq()[j] != k)),
            decreases n - i,
        {
            let k = String::from_str(other.key_at(i));
            let v = other.val_at(i).clone();
            let ghost pre = *self;
            self.insert(k, v);
            proof {
                let ki = other.key_seq()[i as int];
                let vi = other.val_seq()[i as int]@;
                assert forall|k2: Seq<char>, t: Seq<char>| self.maps_text(k2, t) <==> (
                    (exists|j: int| 0 <= j < i + 1 && other.key_seq()[j] == k2 && other.val_seq()[j]@ == t)
                    || (old(self).maps_text(k2, t) && forall|j: int| 0 <= j < i + 1 ==> other.key_seq()[j] != k2)) by {
                    if k2 == ki {
                        if self.maps_text(k2, t) {
                            let a = choose|a: int| 0 <= a < self.key_seq().len() && self.key_seq()[a] == k2 && self.val_seq()[a]@ == t;
                            assert(self.maps(k2, self.val_seq()[a]));
                            self.lemma_maps_unique(k2, self.val_seq()[a], other.val_seq()[i as int]);
                            assert(other.key_seq()[i as int] == k2 && other.val_seq()[i as int]@ == t);
                        }
                        if exists|j: int| 0 <= j < i + 1 && other.key_seq()[j] == k2 && other.val_seq()[j]@ == t {
                            let j = choose|j: int| 0 <= j < i + 1 && other.key_seq()[j] == k2 && other.val_seq()[j]@ == t;
                            if j != i {
                                assert(other.key_seq()[j] != other.key_seq()[i as int]);
                            }
                            let a = choose|a: int| 0 <= a < self.key_seq().len() && self.key_seq()[a] == k2 && self.val_seq()[a] == other.val_seq()[i as int];
                            assert(self.val_seq()[a]@ == t);
                        }
                        assert(!(forall|j: int| 0 <= j < i + 1 ==> other.key_seq()[j] != k2));
                    } else {
                        if self.maps_text(k2, t) {
                            let a = choose|a: int| 0 <= a < self.key_seq().len() && self.key_seq()[a] == k2 && self.val_seq()[a]@ == t;
                            assert(self.maps(k2, self.val_seq()[a]));
                            assert(pre.maps(k2, self.val_seq()[a]));
                            assert(pre.maps_text(k2, t));
                        }
                        if pre.maps_text(k2, t) {
                            let a = choose|a: int| 0 <= a < pre.key_seq().len() && pre.key_seq()[a] == k2 && pre.val_seq()[a]@ == t;
                            assert(pre.maps(k2, pre.val_seq()[a]));
                            assert(self.maps(k2, pre.val_seq()[a]));
                            let b = choose|b: int| 0 <= b < self.key_seq().len() && self.key_seq()[b] == k2 && self.val_seq()[b] == pre.val_seq()[a];
                            assert(self.maps_text(k2, t));
                        }
                    }
                }
                assert forall|k2: Seq<char>| self.has(k2) <==> (old(self).has(k2) || exists|j: int| 0 <= j < i + 1 && other.key_seq()[j] == k2) by {
                    if k2 == ki {
                        assert(self.maps(k2, other.val_seq()[i as int]));
                    }
                }
            }
            i = i + 1;
        }
        proof {
            assert forall|k: Seq<char>, t: Seq<char>|
                self.maps_text(k, t) <==> (other.maps_text(k, t) || (old(self).maps_text(k, t) && !other.has(k))) by {
            }
        }
    }

    /// A copy of the map.
    pub fn copy(&self) -> (r: TextMap<String>)
        requires
            self.wf(),
        ensures
            r.key_seq() == self.key_seq(),
            r.val_seq() == self.val_seq(),
    {
        let mut keys: Vec<String> = Vec::new();
        let mut vals: Vec<String> = Vec::new();
        let mut i: usize = 0;
        while i < self.keys.len()
            invariant
                0 <= i <= self.keys@.len(),
                self.keys@.len() == self.vals@.len(),
                keys@ == self.keys@.subrange(0, i as int),
                vals@.len() == i,
                forall|j: int| 0 <= j < i ==> vals@[j] == self.vals@[j],
            decreases self.keys@.len() - i,
        {
            keys.push(self.keys[i].clone());
            vals.push(self.vals[i].clone());
            i = i + 1;
        }
        let r = TextMap { keys, vals };
        assert(r.keys@ == self.keys@);
        assert(r.vals@ == self.vals@);
        r
    }
}

} // verus!
