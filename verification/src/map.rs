use vstd::prelude::*;

use crate::error::{Error, NifResult};
use crate::term::{Term, TermV, entries_view, lemma_entries_view, term_view};
use crate::types::{Encoder, Modeled};

verus! {

/// The position of the first entry of `s` whose key is `k`, or -1.
pub open spec fn key_index(s: Seq<(TermV, TermV)>, k: TermV) -> int
    decreases s.len(),
{
    if s.len() == 0 {
        -1
    } else if s[0].0 == k {
        0
    } else {
        let r = key_index(s.drop_first(), k);
        if r < 0 { -1 } else { r + 1 }
    }
}

/// Some entry of `s` has key `k`.
pub open spec fn has_key(s: Seq<(TermV, TermV)>, k: TermV) -> bool {
    exists|i: int| 0 <= i < s.len() && #[trigger] s[i].0 == k
}

/// No two entries of `s` have the same key.
pub open spec fn distinct_keys(s: Seq<(TermV, TermV)>) -> bool {
    forall|i: int, j: int| 0 <= i < j < s.len() ==> #[trigger] s[i].0 != #[trigger] s[j].0
}

/// The value stored under `k`.
pub open spec fn lookup(s: Seq<(TermV, TermV)>, k: TermV) -> Option<TermV> {
    let i = key_index(s, k);
    if i < 0 { None } else { Some(s[i].1) }
}

/// The entries with `k` set to `v`: an existing entry is overwritten in place, a new one
/// is added at the end.
pub open spec fn put_entries(s: Seq<(TermV, TermV)>, k: TermV, v: TermV) -> Seq<(TermV, TermV)> {
    let i = key_index(s, k);
    if i < 0 { s.push((k, v)) } else { s.update(i, (k, v)) }
}

/// The entries without the one whose key is `k`.
pub open spec fn remove_entries(s: Seq<(TermV, TermV)>, k: TermV) -> Seq<(TermV, TermV)> {
    let i = key_index(s, k);
    if i < 0 { s } else { s.remove(i) }
}

/// The entries pairing `keys[i]` with `values[i]`.
pub open spec fn zip_entries(keys: Seq<TermV>, values: Seq<TermV>) -> Seq<(TermV, TermV)> {
    Seq::new(keys.len(), |i: int| (keys[i], values[i]))
}

/// `key_index` finds the first entry with the key, and only finds entries with the key.
pub proof fn lemma_key_index(s: Seq<(TermV, TermV)>, k: TermV)
    ensures
        -1 <= key_index(s, k) < s.len(),
        key_index(s, k) >= 0 <==> has_key(s, k),
        key_index(s, k) >= 0 ==> s[key_index(s, k)].0 == k,
        forall|j: int| 0 <= j < key_index(s, k) ==> s[j].0 != k,
        key_index(s, k) < 0 ==> forall|j: int| 0 <= j < s.len() ==> s[j].0 != k,
    decreases s.len(),
{
    if s.len() > 0 {
        let t = s.drop_first();
        lemma_key_index(t, k);
        if s[0].0 != k {
            assert forall|j: int| 1 <= j < s.len() implies s[j] == t[j - 1] by {}
            if has_key(s, k) {
                let i = choose|i: int| 0 <= i < s.len() && #[trigger] s[i].0 == k;
                assert(t[i - 1].0 == k);
            }
            if has_key(t, k) {
                let i = choose|i: int| 0 <= i < t.len() && #[trigger] t[i].0 == k;
                assert(s[i + 1].0 == k);
            }
        } else {
            assert(s[0].0 == k);
        }
    }
}

/// In a map whose keys are distinct, the entry with key `k` is at `key_index`.
pub proof fn lemma_key_index_distinct(s: Seq<(TermV, TermV)>, k: TermV, i: int)
    requires
        distinct_keys(s),
        0 <= i < s.len(),
        s[i].0 == k,
    ensures
        key_index(s, k) == i,
{
    lemma_key_index(s, k);
    let j = key_index(s, k);
    if j != i {
        if j < i {
            assert(s[j].0 != s[i].0);
        } else {
            assert(s[i].0 != k);
        }
    }
}

/// Reading a key gives back what was last written under it; other keys are untouched.
pub proof fn lemma_lookup_put(s: Seq<(TermV, TermV)>, k: TermV, v: TermV, k2: TermV)
    ensures
        lookup(put_entries(s, k, v), k) == Some(v),
        k2 != k ==> lookup(put_entries(s, k, v), k2) == lookup(s, k2),
        distinct_keys(s) ==> distinct_keys(put_entries(s, k, v)),
        has_key(put_entries(s, k, v), k),
{
    let p = put_entries(s, k, v);
    lemma_key_index(s, k);
    lemma_key_index(p, k);
    lemma_key_index(s, k2);
    lemma_key_index(p, k2);
    let i = key_index(s, k);
    if i < 0 {
        assert(p[s.len() as int].0 == k);
        assert forall|j: int| 0 <= j < s.len() implies p[j] == s[j] by {}
        assert(key_index(p, k) == s.len());
    } else {
        assert forall|j: int| 0 <= j < s.len() && j != i implies p[j] == s[j] by {}
        assert(p[i].0 == k);
        assert(key_index(p, k) == i);
    }
    if k2 != k {
        let a = key_index(s, k2);
        let b = key_index(p, k2);
        if a >= 0 {
            assert(p[a].0 == k2);
            assert(b == a) by {
                if b < a {
                    if b >= 0 {
                        assert(s[b].0 == k2 || b == i);
                    }
                }
            }
        } else {
            if b >= 0 {
                assert(s[b].0 == k2 || b == i || b == s.len());
            }
        }
    }
    if distinct_keys(s) {
        assert forall|a: int, b: int| 0 <= a < b < p.len() implies #[trigger] p[a].0 != #[trigger] p[b].0 by {
            if i < 0 {
                if b == s.len() {
                    assert(s[a].0 != k);
                }
            } else {
                if a == i {
                    assert(s[b].0 != s[i].0);
                } else if b == i {
                    assert(s[a].0 != s[i].0);
                }
            }
        }
    }
}

/// After removing a key, the map no longer holds it; other keys are untouched in a map
/// whose keys are distinct.
pub proof fn lemma_lookup_remove(s: Seq<(TermV, TermV)>, k: TermV, k2: TermV)
    requires
        distinct_keys(s),
    ensures
        lookup(remove_entries(s, k), k) is None,
        k2 != k ==> lookup(remove_entries(s, k), k2) == lookup(s, k2),
        distinct_keys(remove_entries(s, k)),
{
    let r = remove_entries(s, k);
    lemma_key_index(s, k);
    lemma_key_index(r, k);
    lemma_key_index(s, k2);
    lemma_key_index(r, k2);
    let i = key_index(s, k);
    if i >= 0 {
        assert forall|j: int| 0 <= j < r.len() implies #[trigger] r[j] == (if j < i { s[j] } else { s[j + 1] }) by {}
        assert forall|j: int| 0 <= j < r.len() implies r[j].0 != k by {
            if j >= i {
                assert(s[j + 1].0 != s[i].0);
            }
        }
        assert forall|a: int, b: int| 0 <= a < b < r.len() implies #[trigger] r[a].0 != #[trigger] r[b].0 by {
            let sa = if a < i { a } else { a + 1 };
            let sb = if b < i { b } else { b + 1 };
            assert(s[sa].0 != s[sb].0);
        }
        if k2 != k {
            let a = key_index(s, k2);
            if a >= 0 {
                let ra = if a < i { a } else { a - 1 };
                assert(r[ra].0 == k2);
                lemma_key_index_distinct(r, k2, ra);
            } else {
                assert forall|j: int| 0 <= j < r.len() implies r[j].0 != k2 by {}
            }
        }
    }
}

/// Writing keeps the map size when the key was there and adds one otherwise.
pub proof fn lemma_put_size(s: Seq<(TermV, TermV)>, k: TermV, v: TermV)
    ensures
        put_entries(s, k, v).len() == s.len() + (if has_key(s, k) { 0int } else { 1int }),
{
    lemma_key_index(s, k);
}

/// Writing a key keeps the keys of a map distinct.
pub proof fn lemma_put_keeps_keys_distinct(s: Seq<(TermV, TermV)>, k: TermV, v: TermV)
    requires
        distinct_keys(s),
    ensures
        distinct_keys(put_entries(s, k, v)),
{
    lemma_key_index(s, k);
    let t = put_entries(s, k, v);
    let i = key_index(s, k);
    assert forall|a: int, b: int| 0 <= a < b < t.len() implies #[trigger] t[a].0 != #[trigger] t[b].0 by {
        if i >= 0 {
            assert(t[a].0 == s[a].0 && t[b].0 == s[b].0);
        } else if b == s.len() {
            assert(t[a].0 == s[a].0);
        } else {
            assert(t[a] == s[a] && t[b] == s[b]);
        }
    }
}

/// Removing a key keeps the keys of a map distinct.
pub proof fn lemma_remove_keeps_keys_distinct(s: Seq<(TermV, TermV)>, k: TermV)
    requires
        distinct_keys(s),
    ensures
        distinct_keys(remove_entries(s, k)),
{
    lemma_key_index(s, k);
    let t = remove_entries(s, k);
    let i = key_index(s, k);
    if i >= 0 {
        assert forall|a: int, b: int| 0 <= a < b < t.len() implies #[trigger] t[a].0 != #[trigger] t[b].0 by {
            let a0 = if a < i { a } else { a + 1 };
            let b0 = if b < i { b } else { b + 1 };
            assert(t[a] == s[a0] && t[b] == s[b0]);
        }
    }
}

/// What the VM makes of parallel arrays of keys and values: a map when the arrays have the
/// same length and the keys are distinct.
pub fn make_map_from_arrays(keys: Vec<Term>, values: Vec<Term>) -> (r: NifResult<Term>)
    ensures
        r is Ok <==> keys.len() == values.len() && distinct_keys(
            zip_entries(crate::term::terms_view(keys@), crate::term::terms_view(values@)),
        ),
        r matches Ok(t) ==> t@ == TermV::MapTerm(
            zip_entries(crate::term::terms_view(keys@), crate::term::terms_view(values@)),
        ),
        r matches Err(e) ==> e is BadArg,
{
    proof {
        crate::term::lemma_terms_view(keys@);
        crate::term::lemma_terms_view(values@);
    }
    let ghost ks = crate::term::terms_view(keys@);
    let ghost vs = crate::term::terms_view(values@);
    if keys.len() != values.len() {
        return Err(Error::BadArg);
    }
    let n = keys.len();
    let ghost z = zip_entries(ks, vs);
    // every key differs from all the keys before it
    let mut i: usize = 0;
    while i < n
        invariant
            n == keys.len(),
            i <= n,
            ks == crate::term::terms_view(keys@),
            ks.len() == n,
            vs.len() == n,
            vs == crate::term::terms_view(values@),
            z == zip_entries(ks, vs),
            forall|q: int| 0 <= q < n ==> #[trigger] ks[q] == term_view(keys@[q]),
            forall|a: int, b: int| 0 <= a < b < i ==> ks[a] != ks[b],
        decreases n - i,
    {
        let mut j: usize = 0;
        while j < i
            invariant
                n == keys.len(),
                j <= i < n,
                ks.len() == n,
                vs.len() == n,
                ks == crate::term::terms_view(keys@),
                vs == crate::term::terms_view(values@),
                z == zip_entries(ks, vs),
                forall|q: int| 0 <= q < n ==> #[trigger] ks[q] == term_view(keys@[q]),
                forall|a: int| 0 <= a < j ==> ks[a] != ks[i as int],
                forall|a: int, b: int| 0 <= a < b < i ==> ks[a] != ks[b],
            decreases i - j,
        {
            if keys[j].equals(&keys[i]) {
                proof {
                    assert(z[j as int].0 == z[i as int].0);
                    assert(!distinct_keys(z));
                }
                return Err(Error::BadArg);
            }
            j = j + 1;
        }
        i = i + 1;
    }
    assert(distinct_keys(z));
    let mut entries: Vec<(Term, Term)> = Vec::new();
    let mut keys = keys;
    let mut values = values;
    let ghost ks0 = keys@;
    let ghost vs0 = values@;
    // take the pairs from the back, then restore their order
    let mut rev: Vec<(Term, Term)> = Vec::new();
    while keys.len() > 0
        invariant
            keys.len() == values.len(),
            keys.len() <= n,
            ks0.len() == n,
            vs0.len() == n,
            keys@ == ks0.subrange(0, keys.len() as int),
            values@ == vs0.subrange(0, values.len() as int),
            rev.len() == n - keys.len(),
            forall|q: int| 0 <= q < rev.len() ==> (#[trigger] rev@[q]).0 == ks0[n - 1 - q] && rev@[q].1
                == vs0[n - 1 - q],
        decreases keys.len(),
    {
        let k = keys.pop().unwrap();
        let v = values.pop().unwrap();
        rev.push((k, v));
    }
    while rev.len() > 0
        invariant
            ks0.len() == n,
            vs0.len() == n,
            rev.len() + entries.len() == n,
            forall|q: int| 0 <= q < rev.len() ==> (#[trigger] rev@[q]).0 == ks0[n - 1 - q] && rev@[q].1
                == vs0[n - 1 - q],
            forall|q: int| 0 <= q < entries.len() ==> (#[trigger] entries@[q]).0 == ks0[q] && entries@[q].1
                == vs0[q],
        decreases rev.len(),
    {
        let e = rev.pop().unwrap();
        entries.push(e);
    }
    proof {
        lemma_entries_view(entries@);
        assert(entries_view(entries@) =~= z) by {
            assert forall|q: int| 0 <= q < n implies #[trigger] entries_view(entries@)[q] == z[q] by {
                assert(entries@[q].0 == ks0[q]);
                assert(ks[q] == term_view(ks0[q]));
                assert(vs[q] == term_view(vs0[q]));
            }
        }
    }
    Ok(Term::MapTerm(entries))
}

impl Term {
    /// An empty map.
    pub fn map_new() -> (t: Term)
        ensures
            t@ == TermV::MapTerm(Seq::empty()),
    {
        let t = Term::MapTerm(Vec::new());
        proof { assert(entries_view(Seq::<(Term, Term)>::empty()) =~= Seq::empty()); }
        t
    }

    /// A map pairing `keys[i]` with `values[i]`; refused when the slices differ in length
    /// or two keys are the same.
    pub fn map_from_arrays<K: Encoder, V: Encoder>(keys: &[K], values: &[V]) -> (r: NifResult<Term>)
        ensures
            r is Ok <==> keys@.len() == values@.len() && distinct_keys(
                zip_entries(
                    Seq::new(keys@.len(), |i: int| K::encoding(keys@[i].model())),
                    Seq::new(values@.len(), |i: int| V::encoding(values@[i].model())),
                ),
            ),
            r matches Ok(t) ==> t@ == TermV::MapTerm(
                zip_entries(
                    Seq::new(keys@.len(), |i: int| K::encoding(keys@[i].model())),
                    Seq::new(values@.len(), |i: int| V::encoding(values@[i].model())),
                ),
            ),
            r matches Err(e) ==> e is BadArg,
    {
        if keys.len() != values.len() {
            return Err(Error::BadArg);
        }
        let mut k: Vec<Term> = Vec::new();
        let mut v: Vec<Term> = Vec::new();
        let mut i: usize = 0;
        while i < keys.len()
            invariant
                keys@.len() == values@.len(),
                i <= keys@.len(),
                k.len() == i,
                v.len() == i,
                forall|q: int| 0 <= q < i ==> (#[trigger] k@[q])@ == K::encoding(keys@[q].model()),
                forall|q: int| 0 <= q < i ==> (#[trigger] v@[q])@ == V::encoding(values@[q].model()),
            decreases keys@.len() - i,
        {
            k.push(keys[i].encode());
            v.push(values[i].encode());
            i = i + 1;
        }
        proof {
            crate::term::lemma_terms_view(k@);
            crate::term::lemma_terms_view(v@);
            assert(crate::term::terms_view(k@) =~= Seq::new(keys@.len(), |q: int| K::encoding(keys@[q].model())));
            assert(crate::term::terms_view(v@) =~= Seq::new(values@.len(), |q: int| V::encoding(values@[q].model())));
        }
        make_map_from_arrays(k, v)
    }

    /// A map from the pairs' keys to their values, as `maps:from_list/1` builds from a list
    /// of pairs; refused when two keys are the same.
    pub fn map_from_pairs<K: Encoder, V: Encoder>(pairs: &[(K, V)]) -> (r: NifResult<Term>)
        ensures
            r is Ok <==> distinct_keys(
                Seq::new(pairs@.len(), |i: int| (K::encoding(pairs@[i].0.model()), V::encoding(pairs@[i].1.model()))),
            ),
            r matches Ok(t) ==> t@ == TermV::MapTerm(
                Seq::new(pairs@.len(), |i: int| (K::encoding(pairs@[i].0.model()), V::encoding(pairs@[i].1.model()))),
            ),
            r matches Err(e) ==> e is BadArg,
    {
        let mut k: Vec<Term> = Vec::new();
        let mut v: Vec<Term> = Vec::new();
        let mut i: usize = 0;
        while i < pairs.len()
            invariant
                i <= pairs@.len(),
                k.len() == i,
                v.len() == i,
                forall|q: int| 0 <= q < i ==> (#[trigger] k@[q])@ == K::encoding(pairs@[q].0.model()),
                forall|q: int| 0 <= q < i ==> (#[trigger] v@[q])@ == V::encoding(pairs@[q].1.model()),
            decreases pairs@.len() - i,
        {
            k.push(pairs[i].0.encode());
            v.push(pairs[i].1.encode());
            i = i + 1;
        }
        proof {
            crate::term::lemma_terms_view(k@);
            crate::term::lemma_terms_view(v@);
            assert(zip_entries(crate::term::terms_view(k@), crate::term::terms_view(v@)) =~= Seq::new(
                pairs@.len(),
                |q: int| (K::encoding(pairs@[q].0.model()), V::encoding(pairs@[q].1.model())),
            ));
        }
        make_map_from_arrays(k, v)
    }

    /// Like `map_from_arrays`, for keys and values that are terms already.
    pub fn map_from_term_arrays(keys: &[Term], values: &[Term]) -> (r: NifResult<Term>)
        ensures
            r is Ok <==> keys@.len() == values@.len() && distinct_keys(
                zip_entries(
                    Seq::new(keys@.len(), |i: int| keys@[i]@),
                    Seq::new(values@.len(), |i: int| values@[i]@),
                ),
            ),
            r matches Ok(t) ==> t@ == TermV::MapTerm(
                zip_entries(
                    Seq::new(keys@.len(), |i: int| keys@[i]@),
                    Seq::new(values@.len(), |i: int| values@[i]@),
                ),
            ),
            r matches Err(e) ==> e is BadArg,
    {
        proof {
            assert(Seq::new(keys@.len(), |i: int| Term::encoding(keys@[i].model())) =~= Seq::new(keys@.len(), |i: int| keys@[i]@));
            assert(Seq::new(values@.len(), |i: int| Term::encoding(values@[i].model())) =~= Seq::new(values@.len(), |i: int| values@[i]@));
        }
        Term::map_from_arrays(keys, values)
    }

    /// The entries of a map term.
    pub open spec fn map_entries(self) -> Seq<(TermV, TermV)> {
        self@->MapTerm_0
    }

    /// The value stored under `key`; refused when the term is not a map or has no such key.
    pub fn map_get<K: Encoder>(&self, key: K) -> (r: NifResult<Term>)
        ensures
            r is Ok <==> self@ is MapTerm && lookup(self.map_entries(), K::encoding(key.model())) is Some,
            r matches Ok(t) ==> Some(t@) == lookup(self.map_entries(), K::encoding(key.model())),
            r matches Err(e) ==> e is BadArg,
    {
        match self {
            Term::MapTerm(v) => {
                let k = key.encode();
                proof { lemma_entries_view(v@); }
                match Term::find_key(v, &k) {
                    Some(i) => Ok(v[i].1.duplicate()),
                    None => Err(Error::BadArg),
                }
            },
            _ => Err(Error::BadArg),
        }
    }

    /// The number of entries of a map term; refused when the term is not a map.
    pub fn map_size(&self) -> (r: NifResult<usize>)
        ensures
            r is Ok <==> self@ is MapTerm,
            r matches Ok(n) ==> n == self.map_entries().len(),
            r matches Err(e) ==> e is BadArg,
    {
        match self {
            Term::MapTerm(v) => {
                proof { lemma_entries_view(v@); }
                Ok(v.len())
            },
            _ => Err(Error::BadArg),
        }
    }

    /// A copy of the map with `key` set to `value`; refused when the term is not a map.
    pub fn map_put<K: Encoder, V: Encoder>(&self, key: K, value: V) -> (r: NifResult<Term>)
        ensures
            r is Ok <==> self@ is MapTerm,
            r matches Ok(t) ==> t@ == TermV::MapTerm(
                put_entries(self.map_entries(), K::encoding(key.model()), V::encoding(value.model())),
            ),
            r matches Err(e) ==> e is BadArg,
    {
        match self {
            Term::MapTerm(v) => {
                let k = key.encode();
                let val = value.encode();
                let idx = Term::find_key(v, &k);
                let mut entries = Term::duplicate_entries_of(v);
                proof { lemma_entries_view(v@); lemma_entries_view(entries@); }
                match idx {
                    Some(i) => {
                        entries.set(i, (k, val));
                    },
                    None => {
                        entries.push((k, val));
                    },
                }
                proof {
                    lemma_entries_view(entries@);
                    assert(entries_view(entries@) =~= put_entries(entries_view(v@), k@, val@));
                }
                Ok(Term::MapTerm(entries))
            },
            _ => Err(Error::BadArg),
        }
    }

    /// A copy of the map without `key` (unchanged when the key is absent); refused when the
    /// term is not a map.
    pub fn map_remove<K: Encoder>(&self, key: K) -> (r: NifResult<Term>)
        ensures
            r is Ok <==> self@ is MapTerm,
            r matches Ok(t) ==> t@ == TermV::MapTerm(
                remove_entries(self.map_entries(), K::encoding(key.model())),
            ),
            r matches Err(e) ==> e is BadArg,
    {
        match self {
            Term::MapTerm(v) => {
                let k = key.encode();
                let idx = Term::find_key(v, &k);
                let mut entries = Term::duplicate_entries_of(v);
                proof { lemma_entries_view(v@); lemma_entries_view(entries@); }
                match idx {
                    Some(i) => {
                        let _removed = entries.remove(i);
                    },
                    None => {},
                }
                proof {
                    lemma_entries_view(entries@);
                    assert(entries_view(entries@) =~= remove_entries(entries_view(v@), k@));
                }
                Ok(Term::MapTerm(entries))
            },
            _ => Err(Error::BadArg),
        }
    }

    /// A copy of the map with the existing `key` set to `new_value`; refused when the term is
    /// not a map or has no such key.
    pub fn map_update<K: Encoder, V: Encoder>(&self, key: K, new_value: V) -> (r: NifResult<Term>)
        ensures
            r is Ok <==> self@ is MapTerm && has_key(self.map_entries(), K::encoding(key.model())),
            r matches Ok(t) ==> t@ == TermV::MapTerm(
                put_entries(self.map_entries(), K::encoding(key.model()), V::encoding(new_value.model())),
            ),
            r matches Err(e) ==> e is BadArg,
    {
        match self {
            Term::MapTerm(v) => {
                let k = key.encode();
                let idx = Term::find_key(v, &k);
                proof { lemma_key_index(entries_view(v@), k@); }
                match idx {
                    Some(_) => self.map_put(k, new_value),
                    None => Err(Error::BadArg),
                }
            },
            _ => Err(Error::BadArg),
        }
    }

    /// The position of the first entry whose key is `k`.
    fn find_key(v: &Vec<(Term, Term)>, k: &Term) -> (r: Option<usize>)
        ensures
            r is Some <==> key_index(entries_view(v@), k@) >= 0,
            r matches Some(i) ==> i == key_index(entries_view(v@), k@) && i < v.len(),
    {
        proof {
            lemma_entries_view(v@);
            lemma_key_index(entries_view(v@), k@);
        }
        let ghost s = entries_view(v@);
        let mut i: usize = 0;
        while i < v.len()
            invariant
                i <= v.len(),
                s == entries_view(v@),
                s.len() == v.len(),
                forall|q: int| 0 <= q < v.len() ==> #[trigger] s[q] == (term_view(v@[q].0), term_view(v@[q].1)),
                forall|q: int| 0 <= q < i ==> s[q].0 != k@,
            decreases v.len() - i,
        {
            if v[i].0.equals(k) {
                proof {
                    assert(s[i as int].0 == k@);
                    lemma_key_index(s, k@);
                    let j = key_index(s, k@);
                    assert(j >= 0);
                    if j < i {
                        assert(s[j].0 != k@);
                    } else if j > i {
                        assert(s[i as int].0 == k@);
                    }
                }
                return Some(i);
            }
            i = i + 1;
        }
        None
    }

    fn duplicate_entries_of(v: &Vec<(Term, Term)>) -> (r: Vec<(Term, Term)>)
        ensures
            entries_view(r@) == entries_view(v@),
            r.len() == v.len(),
    {
        proof { lemma_entries_view(v@); }
        let mut r: Vec<(Term, Term)> = Vec::new();
        let mut i: usize = 0;
        while i < v.len()
            invariant
                i <= v.len(),
                r.len() == i,
                forall|q: int| 0 <= q < i ==> (#[trigger] r@[q]).0@ == v@[q].0@ && r@[q].1@ == v@[q].1@,
            decreases v.len() - i,
        {
            r.push((v[i].0.duplicate(), v[i].1.duplicate()));
            i = i + 1;
        }
        proof {
            lemma_entries_view(r@);
            assert(entries_view(r@) =~= entries_view(v@));
        }
        r
    }
}

/// A cursor over the entries of a map from one end: from the first entry forwards, or
/// from the last backwards. Once it has run off the end it stays done.
pub struct SimpleMapIterator {
    entries: Vec<(Term, Term)>,
    from_last: bool,
    taken: usize,
    done: bool,
}

impl SimpleMapIterator {
    pub closed spec fn wf(&self) -> bool {
        self.taken <= self.entries.len() && (self.done ==> self.taken == self.entries.len())
    }

    /// The entries of the map, in the map's order.
    pub closed spec fn spec_entries(&self) -> Seq<(TermV, TermV)> {
        entries_view(self.entries@)
    }

    /// How many entries the cursor has given.
    pub closed spec fn spec_taken(&self) -> nat {
        self.taken as nat
    }

    pub closed spec fn spec_from_last(&self) -> bool {
        self.from_last
    }

    /// The position of the entry the cursor gives next.
    pub open spec fn position(&self) -> int {
        if self.spec_from_last() {
            self.spec_entries().len() - 1 - self.spec_taken()
        } else {
            self.spec_taken() as int
        }
    }

    /// A cursor over the entries of a map term, from the first entry or from the last.
    pub fn new(map: &Term, from_last: bool) -> (r: Option<SimpleMapIterator>)
        ensures
            r is Some <==> map@ is MapTerm,
            r matches Some(it) ==> it.wf() && it.spec_entries() == map.map_entries() && it.spec_taken() == 0
                && it.spec_from_last() == from_last,
    {
        match map {
            Term::MapTerm(v) => Some(SimpleMapIterator {
                entries: Term::duplicate_entries_of(v),
                from_last,
                taken: 0,
                done: false,
            }),
            _ => None,
        }
    }

    /// The next entry from the cursor's end, if any is left.
    pub fn next(&mut self) -> (r: Option<(Term, Term)>)
        requires
            old(self).wf(),
        ensures
            final(self).wf(),
            final(self).spec_entries() == old(self).spec_entries(),
            final(self).spec_from_last() == old(self).spec_from_last(),
            old(self).spec_taken() == old(self).spec_entries().len() ==> r is None && final(self).spec_taken()
                == old(self).spec_taken(),
            old(self).spec_taken() < old(self).spec_entries().len() ==> (r matches Some(e) && (e.0@, e.1@)
                == old(self).spec_entries()[old(self).position()] && final(self).spec_taken()
                == old(self).spec_taken() + 1),
    {
        proof {
            lemma_entries_view(self.entries@);
        }
        if self.done {
            return None;
        }
        if self.taken < self.entries.len() {
            let i = if self.from_last { self.entries.len() - 1 - self.taken } else { self.taken };
            let e = (self.entries[i].0.duplicate(), self.entries[i].1.duplicate());
            self.taken = self.taken + 1;
            Some(e)
        } else {
            self.done = true;
            None
        }
    }
}

/// Iterates over the entries of a map, from the front, the back, or both; the two ends
/// never give the same entry.
pub struct MapIterator {
    forward: SimpleMapIterator,
    reverse: SimpleMapIterator,
    remaining: usize,
}

impl MapIterator {
    /// The entries still to come, in order.
    pub closed spec fn remaining(&self) -> Seq<(TermV, TermV)> {
        self.forward.spec_entries().subrange(
            self.forward.spec_taken() as int,
            self.forward.spec_entries().len() - self.reverse.spec_taken(),
        )
    }

    pub closed spec fn wf(&self) -> bool {
        &&& self.forward.wf()
        &&& self.reverse.wf()
        &&& !self.forward.spec_from_last()
        &&& self.reverse.spec_from_last()
        &&& self.forward.spec_entries() == self.reverse.spec_entries()
        &&& self.forward.spec_taken() + self.reverse.spec_taken() + self.remaining == self.forward.spec_entries().len()
    }

    /// An iterator over the entries of a map term; `None` when the term is not a map.
    pub fn new(map: &Term) -> (r: Option<MapIterator>)
        ensures
            r is Some <==> map@ is MapTerm,
            r matches Some(it) ==> it.wf() && it.remaining() == map.map_entries(),
    {
        let forward = match SimpleMapIterator::new(map, false) {
            Some(f) => f,
            None => return None,
        };
        let reverse = match SimpleMapIterator::new(map, true) {
            Some(r) => r,
            None => return None,
        };
        let remaining = match map.map_size() {
            Ok(n) => n,
            Err(_) => return None,
        };
        let it = MapIterator { forward, reverse, remaining };
        assert(it.remaining() =~= map.map_entries());
        Some(it)
    }

    /// The next entry from the front.
    pub fn next(&mut self) -> (r: Option<(Term, Term)>)
        requires
            old(self).wf(),
        ensures
            final(self).wf(),
            old(self).remaining().len() == 0 ==> r is None && final(self).remaining() == old(self).remaining(),
            old(self).remaining().len() > 0 ==> (r matches Some(e) && (e.0@, e.1@) == old(self).remaining()[0]
                && final(self).remaining() == old(self).remaining().drop_first()),
    {
        if self.remaining == 0 {
            proof {
                assert(self.remaining().len() == 0);
            }
            return None;
        }
        match self.forward.next() {
            Some(item) => {
                self.remaining = self.remaining - 1;
                proof {
                    assert(self.remaining() =~= old(self).remaining().drop_first());
                }
                Some(item)
            },
            None => {
                assert(false);
                None
            },
        }
    }

    /// The next entry from the back.
    pub fn next_back(&mut self) -> (r: Option<(Term, Term)>)
        requires
            old(self).wf(),
        ensures
            final(self).wf(),
            old(self).remaining().len() == 0 ==> r is None && final(self).remaining() == old(self).remaining(),
            old(self).remaining().len() > 0 ==> (r matches Some(e) && (e.0@, e.1@) == old(self).remaining().last()
                && final(self).remaining() == old(self).remaining().drop_last()),
    {
        if self.remaining == 0 {
            proof {
                assert(self.remaining().len() == 0);
            }
            return None;
        }
        match self.reverse.next() {
            Some(item) => {
                self.remaining = self.remaining - 1;
                proof {
                    assert(self.remaining() =~= old(self).remaining().drop_last());
                }
                Some(item)
            },
            None => {
                assert(false);
                None
            },
        }
    }
}

/// A map iterator is read from a map term.
pub fn decode_map_iterator(term: &Term) -> (r: NifResult<MapIterator>)
    ensures
        r is Ok <==> term@ is MapTerm,
        r matches Ok(it) ==> it.wf() && it.remaining() == term.map_entries(),
        r matches Err(e) ==> e is BadArg,
{
    match MapIterator::new(term) {
        Some(it) => Ok(it),
        None => Err(Error::BadArg),
    }
}

} // verus!
