//! Terms for the standard collections: a double-ended queue becomes a list, as a vector
//! does; a hash map or a B-tree map becomes a map term.
use vstd::prelude::*;
use std::collections::{BTreeMap, BTreeSet, HashMap, HashSet, VecDeque};
use vstd::laws_cmp::obeys_cmp;
use vstd::std_specs::hash::obeys_key_model;
use vstd::std_specs::iter::IteratorSpec;
use crate::map::{decode_map_iterator, distinct_keys, lemma_key_index_distinct, lookup, make_map_from_arrays, zip_entries};

use crate::error::{Error, NifResult};
use crate::term::{Term, TermV, lemma_terms_view, terms_view};
use crate::types::{Decoder, Encoder, Modeled, Transcoder};

verus! {

impl<T: Modeled> Modeled for VecDeque<T> {
    type M = Seq<T::M>;

    open spec fn model(&self) -> Seq<T::M> {
        Seq::new(self@.len(), |i: int| self@[i].model())
    }
}

/// A queue becomes the list of its items, front first.
impl<T: Encoder> Encoder for VecDeque<T> {
    open spec fn encoding(m: Seq<T::M>) -> TermV {
        <Vec<T> as Encoder>::encoding(m)
    }

    fn encode(&self) -> (t: Term) {
        let mut items: Vec<Term> = Vec::new();
        let mut i: usize = 0;
        while i < self.len()
            invariant
                i <= self@.len(),
                items.len() == i,
                forall|k: int| 0 <= k < i ==> (#[trigger] items@[k])@ == T::encoding(self@[k].model()),
            decreases self@.len() - i,
        {
            items.push(self[i].encode());
            i = i + 1;
        }
        proof {
            lemma_terms_view(items@);
            assert(terms_view(items@) =~= Seq::new(self.model().len(), |k: int| T::encoding(self.model()[k])));
        }
        Term::List(items)
    }
}

/// A queue is read from a list, front first.
impl<T: Decoder> Decoder for VecDeque<T> {
    open spec fn decoding(t: TermV) -> Option<Seq<T::M>> {
        <Vec<T> as Decoder>::decoding(t)
    }

    fn decode(term: &Term) -> (r: NifResult<VecDeque<T>>) {
        let mut v = Vec::<T>::decode(term)?;
        let ghost m = v.model();
        let mut q: VecDeque<T> = VecDeque::new();
        while v.len() > 0
            invariant
                v@.len() + q@.len() == m.len(),
                forall|k: int| 0 <= k < v@.len() ==> (#[trigger] v@[k]).model() == m[k],
                forall|k: int| 0 <= k < q@.len() ==> (#[trigger] q@[k]).model() == m[v@.len() + k],
            decreases v@.len(),
        {
            let x = v.pop().unwrap();
            q.push_front(x);
        }
        assert(q.model() =~= m);
        Ok(q)
    }
}

impl<T: Transcoder> Transcoder for VecDeque<T> {
    proof fn lemma_decode_encode(v: &Self) {
        let m = v.model();
        let s = Seq::new(m.len(), |i: int| T::encoding(m[i]));
        assert forall|i: int| 0 <= i < s.len() implies #[trigger] T::decoding(s[i]) == Some(m[i]) by {
            T::lemma_decode_encode(&v@[i]);
        }
        assert(Seq::new(s.len(), |i: int| T::decoding(s[i])->Some_0) =~= m);
    }
}

} // verus!

verus! {

/// Whether the entries of a map term hold exactly the entries of `m`, each key and value
/// encoded.
pub open spec fn holds_encoded<K: Encoder, V: Encoder>(m: Map<K, V>, entries: Seq<(TermV, TermV)>) -> bool {
    &&& entries.len() == m.dom().len()
    &&& distinct_keys(entries)
    &&& forall|i: int| 0 <= i < entries.len() ==> #[trigger] encodes_entry_of(m, entries[i])
    &&& forall|k: K| #[trigger] m.contains_key(k) ==> lookup(entries, K::encoding(k.model())) == Some(
        V::encoding(m[k].model()),
    )
}

/// Whether `e` is an entry of `m`, its key and value encoded.
pub open spec fn encodes_entry_of<K: Encoder, V: Encoder>(m: Map<K, V>, e: (TermV, TermV)) -> bool {
    exists|k: K| #[trigger] m.contains_key(k) && e == (K::encoding(k.model()), V::encoding(m[k].model()))
}

/// Whether no two keys of `m` encode to the same term.
pub open spec fn keys_encode_apart<K: Encoder, V>(m: Map<K, V>) -> bool {
    forall|a: K, b: K|
        #[trigger] m.contains_key(a) && #[trigger] m.contains_key(b) && a != b ==> K::encoding(a.model())
            != K::encoding(b.model())
}

/// Entries built from a listing of `m` that names each of its entries once hold `m`,
/// encoded.
proof fn lemma_listing_encoded<K: Encoder, V: Encoder>(
    m: Map<K, V>,
    s: Seq<(&K, &V)>,
    keys: Seq<TermV>,
    values: Seq<TermV>,
)
    requires
        s.no_duplicates(),
        s.len() == m.dom().len(),
        forall|i: int| 0 <= i < s.len() ==> #[trigger] m.contains_key(*s[i].0) && m[*s[i].0] == *s[i].1,
        forall|k: K| #[trigger] m.contains_key(k) ==> s.contains((&k, &m[k])),
        keys.len() == s.len(),
        values.len() == s.len(),
        forall|j: int| 0 <= j < s.len() ==> #[trigger] keys[j] == K::encoding((*s[j].0).model()),
        forall|j: int| 0 <= j < s.len() ==> #[trigger] values[j] == V::encoding((*s[j].1).model()),
        keys_encode_apart(m),
    ensures
        holds_encoded(m, zip_entries(keys, values)),
{
    let z = zip_entries(keys, values);
    assert forall|a: int, b: int| 0 <= a < b < z.len() implies #[trigger] z[a].0 != #[trigger] z[b].0 by {
        assert(m.contains_key(*s[a].0));
        assert(m.contains_key(*s[b].0));
        if *s[a].0 == *s[b].0 {
            assert(s[a] == s[b]);
        }
    }
    assert forall|i: int| 0 <= i < z.len() implies #[trigger] encodes_entry_of(m, z[i]) by {
        let k = *s[i].0;
        assert(m.contains_key(k));
        assert(keys[i] == K::encoding(k.model()));
        assert(values[i] == V::encoding(m[k].model()));
        assert(z[i] == (K::encoding(k.model()), V::encoding(m[k].model())));
    }
    assert forall|k: K| #[trigger] m.contains_key(k) implies lookup(z, K::encoding(k.model())) == Some(
        V::encoding(m[k].model()),
    ) by {
        assert(s.contains((&k, &m[k])));
        let i = choose|i: int| 0 <= i < s.len() && s[i] == (&k, &m[k]);
        assert(z[i].0 == K::encoding(k.model()));
        lemma_key_index_distinct(z, K::encoding(k.model()), i);
    }
}

/// A hash map becomes a map term with an entry for each of its entries.
pub fn encode_hash_map<K: Encoder, V: Encoder>(map: &HashMap<K, V>) -> (t: Term)
    requires
        obeys_key_model::<K>(),
        keys_encode_apart(map@),
    ensures
        t@ is MapTerm && holds_encoded(map@, t@->MapTerm_0),
{
    broadcast use vstd::std_specs::hash::group_hash_axioms;
    let mut keys: Vec<Term> = Vec::new();
    let mut values: Vec<Term> = Vec::new();
    let iter = map.iter();
    let ghost s = iter.remaining();
    for (k, v) in it: iter
        invariant
            it.seq() == s,
            keys.len() == it.index(),
            values.len() == keys.len(),
            forall|j: int| 0 <= j < keys.len() ==> (#[trigger] keys@[j])@ == K::encoding((*s[j].0).model()),
            forall|j: int| 0 <= j < values.len() ==> (#[trigger] values@[j])@ == V::encoding((*s[j].1).model()),
    {
        keys.push(k.encode());
        values.push(v.encode());
    }
    proof {
        lemma_terms_view(keys@);
        lemma_terms_view(values@);
        lemma_listing_encoded(map@, s, terms_view(keys@), terms_view(values@));
    }
    match make_map_from_arrays(keys, values) {
        Ok(t) => t,
        Err(_) => {
            assert(false);
            Term::Int(0)
        },
    }
}

/// Whether every entry of a map term decodes, its key as a `K` and its value as a `V`.
pub open spec fn entries_decode<K: Decoder, V: Decoder>(entries: Seq<(TermV, TermV)>) -> bool {
    forall|i: int|
        0 <= i < entries.len() ==> K::decoding(#[trigger] entries[i].0) is Some && V::decoding(
            entries[i].1,
        ) is Some
}

/// Whether `m` holds what the first `n` entries of a map term decode to: the key of each
/// of these entries is read as a key of `m`, and each key of `m` was read, with its value,
/// from one of them.
pub open spec fn holds_decoded_prefix<K: Decoder, V: Decoder>(
    m: Map<K, V>,
    entries: Seq<(TermV, TermV)>,
    n: int,
) -> bool {
    &&& forall|i: int|
        #![trigger entries[i]]
        0 <= i < n ==> exists|k: K| #[trigger] m.contains_key(k) && K::decoding(entries[i].0) == Some(k.model())
    &&& forall|k: K| #[trigger]
        m.contains_key(k) ==> exists|i: int|
            0 <= i < n && K::decoding(#[trigger] entries[i].0) == Some(k.model()) && V::decoding(entries[i].1)
                == Some(m[k].model())
}

/// Whether `m` holds what all the entries of a map term decode to.
pub open spec fn holds_decoded<K: Decoder, V: Decoder>(m: Map<K, V>, entries: Seq<(TermV, TermV)>) -> bool {
    holds_decoded_prefix(m, entries, entries.len() as int)
}

/// Adding the entry read from entry `n` keeps what the earlier entries were read into.
proof fn lemma_decoded_step<K: Decoder, V: Decoder>(
    m: Map<K, V>,
    entries: Seq<(TermV, TermV)>,
    n: int,
    k: K,
    v: V,
)
    requires
        0 <= n < entries.len(),
        holds_decoded_prefix(m, entries, n),
        K::decoding(entries[n].0) == Some(k.model()),
        V::decoding(entries[n].1) == Some(v.model()),
    ensures
        holds_decoded_prefix(m.insert(k, v), entries, n + 1),
{
    let m2 = m.insert(k, v);
    assert forall|i: int| #![trigger entries[i]] 0 <= i < n + 1 implies exists|k2: K| #[trigger]
        m2.contains_key(k2) && K::decoding(entries[i].0) == Some(k2.model()) by {
        if i == n {
            assert(m2.contains_key(k));
        } else {
            let k2 = choose|k2: K| #[trigger] m.contains_key(k2) && K::decoding(entries[i].0) == Some(k2.model());
            assert(m2.contains_key(k2));
        }
    }
    assert forall|k2: K| #[trigger] m2.contains_key(k2) implies exists|i: int|
        0 <= i < n + 1 && K::decoding(#[trigger] entries[i].0) == Some(k2.model()) && V::decoding(entries[i].1)
            == Some(m2[k2].model()) by {
        if k2 == k {
            assert(K::decoding(entries[n].0) == Some(k2.model()));
        } else {
            assert(m.contains_key(k2));
            let i = choose|i: int|
                0 <= i < n && K::decoding(#[trigger] entries[i].0) == Some(k2.model()) && V::decoding(entries[i].1)
                    == Some(m[k2].model());
            assert(K::decoding(entries[i].0) == Some(k2.model()));
        }
    }
}

/// A hash map is read from a map term, each entry's key and value decoded; an entry read
/// later replaces an earlier one with an equal key. A term that is not a map, or an entry
/// that does not decode, is a bad argument.
pub fn decode_hash_map<K: Decoder + Eq + std::hash::Hash, V: Decoder>(term: &Term) -> (r: NifResult<HashMap<K, V>>)
    ensures
        r is Ok <==> term@ is MapTerm && entries_decode::<K, V>(term@->MapTerm_0),
        obeys_key_model::<K>() ==> (r matches Ok(m) ==> holds_decoded(m@, term@->MapTerm_0)),
        r matches Err(e) ==> e is BadArg,
{
    broadcast use vstd::std_specs::hash::group_hash_axioms;
    let size = match term.map_size() {
        Ok(size) => size,
        Err(e) => return Err(e),
    };
    let mut it = match decode_map_iterator(term) {
        Ok(it) => it,
        Err(e) => return Err(e),
    };
    let ghost entries = term.map_entries();
    let mut map: HashMap<K, V> = HashMap::new();
    let mut n: usize = 0;
    while n < size
        invariant
            it.wf(),
            size == entries.len(),
            term@ is MapTerm,
            entries == term@->MapTerm_0,
            n <= entries.len(),
            it.remaining() == entries.subrange(n as int, entries.len() as int),
            obeys_key_model::<K>() ==> holds_decoded_prefix(map@, entries, n as int),
            forall|i: int| 0 <= i < n ==> K::decoding(#[trigger] entries[i].0) is Some && V::decoding(entries[i].1) is Some,
        decreases entries.len() - n,
    {
        let (kt, vt) = match it.next() {
            Some(e) => e,
            None => {
                assert(false);
                return Err(Error::BadArg);
            },
        };
        let ghost at = n as int;
        assert(entries[at] == (kt@, vt@));
        let k = match K::decode(&kt) {
            Ok(k) => k,
            Err(e) => {
                assert(K::decoding(entries[at].0) is None);
                return Err(e);
            },
        };
        let v = match V::decode(&vt) {
            Ok(v) => v,
            Err(e) => {
                assert(V::decoding(entries[at].1) is None);
                return Err(e);
            },
        };
        proof {
            if obeys_key_model::<K>() {
                lemma_decoded_step(map@, entries, n as int, k, v);
            }
        }
        map.insert(k, v);
        n = n + 1;
        assert(it.remaining() =~= entries.subrange(n as int, entries.len() as int));
    }
    Ok(map)
}

/// A B-tree map becomes a map term with an entry for each of its entries.
pub fn encode_btree_map<K: Encoder + Ord, V: Encoder>(map: &BTreeMap<K, V>) -> (t: Term)
    requires
        obeys_cmp::<K>(),
        keys_encode_apart(map@),
    ensures
        t@ is MapTerm && holds_encoded(map@, t@->MapTerm_0),
{
    broadcast use vstd::std_specs::btree::group_btree_axioms;
    let mut keys: Vec<Term> = Vec::new();
    let mut values: Vec<Term> = Vec::new();
    let iter = map.iter();
    let ghost s = iter.remaining();
    for (k, v) in it: iter
        invariant
            it.seq() == s,
            keys.len() == it.index(),
            values.len() == keys.len(),
            forall|j: int| 0 <= j < keys.len() ==> (#[trigger] keys@[j])@ == K::encoding((*s[j].0).model()),
            forall|j: int| 0 <= j < values.len() ==> (#[trigger] values@[j])@ == V::encoding((*s[j].1).model()),
    {
        keys.push(k.encode());
        values.push(v.encode());
    }
    proof {
        lemma_terms_view(keys@);
        lemma_terms_view(values@);
        lemma_listing_encoded(map@, s, terms_view(keys@), terms_view(values@));
    }
    match make_map_from_arrays(keys, values) {
        Ok(t) => t,
        Err(_) => {
            assert(false);
            Term::Int(0)
        },
    }
}

/// A B-tree map is read from a map term, each entry's key and value decoded; an entry
/// read later replaces an earlier one with an equal key. A term that is not a map, or an
/// entry that does not decode, is a bad argument.
pub fn decode_btree_map<K: Decoder + Ord, V: Decoder>(term: &Term) -> (r: NifResult<BTreeMap<K, V>>)
    ensures
        r is Ok <==> term@ is MapTerm && entries_decode::<K, V>(term@->MapTerm_0),
        obeys_cmp::<K>() ==> (r matches Ok(m) ==> holds_decoded(m@, term@->MapTerm_0)),
        r matches Err(e) ==> e is BadArg,
{
    let mut it = match decode_map_iterator(term) {
        Ok(it) => it,
        Err(e) => return Err(e),
    };
    let ghost entries = term.map_entries();
    let mut map: BTreeMap<K, V> = BTreeMap::new();
    loop
        invariant
            it.wf(),
            term@ is MapTerm,
            entries == term@->MapTerm_0,
            it.remaining().len() <= entries.len(),
            it.remaining() == entries.skip(entries.len() - it.remaining().len()),
            obeys_cmp::<K>() ==> holds_decoded_prefix(map@, entries, entries.len() - it.remaining().len()),
            forall|i: int|
                0 <= i < entries.len() - it.remaining().len() ==> K::decoding(#[trigger] entries[i].0) is Some
                    && V::decoding(entries[i].1) is Some,
        decreases it.remaining().len(),
    {
        let ghost n = entries.len() - it.remaining().len();
        let (kt, vt) = match it.next() {
            Some(e) => e,
            None => {
                assert(n == entries.len());
                return Ok(map);
            },
        };
        let ghost at = n;
        assert(entries[at] == (kt@, vt@));
        let k = match K::decode(&kt) {
            Ok(k) => k,
            Err(e) => {
                assert(K::decoding(entries[at].0) is None);
                return Err(e);
            },
        };
        let v = match V::decode(&vt) {
            Ok(v) => v,
            Err(e) => {
                assert(V::decoding(entries[at].1) is None);
                return Err(e);
            },
        };
        proof {
            if obeys_cmp::<K>() {
                lemma_decoded_step(map@, entries, n, k, v);
            }
        }
        map.insert(k, v);
        assert(it.remaining() =~= entries.skip(n + 1));
    }
}

/// The entry of `m` that entry `i` of its encoding holds, and what that entry reads back as.
proof fn lemma_entry_reads_back<K: Transcoder, V: Transcoder>(
    m: Map<K, V>,
    entries: Seq<(TermV, TermV)>,
    i: int,
) -> (k: K)
    requires
        holds_encoded(m, entries),
        0 <= i < entries.len(),
    ensures
        m.contains_key(k),
        entries[i] == (K::encoding(k.model()), V::encoding(m[k].model())),
        K::decoding(entries[i].0) == Some(k.model()),
        V::decoding(entries[i].1) == Some(m[k].model()),
{
    assert(encodes_entry_of(m, entries[i]));
    let k = choose|k: K| #[trigger] m.contains_key(k) && entries[i] == (K::encoding(k.model()), V::encoding(m[k].model()));
    K::lemma_decode_encode(&k);
    V::lemma_decode_encode(&m[k]);
    k
}

/// The key of `m` that a key read back from its encoding came from.
proof fn lemma_read_key_source<K: Transcoder, V: Transcoder>(
    m: Map<K, V>,
    entries: Seq<(TermV, TermV)>,
    read: Map<K, V>,
    k2: K,
) -> (k: K)
    requires
        holds_encoded(m, entries),
        holds_decoded(read, entries),
        read.contains_key(k2),
    ensures
        m.contains_key(k),
        k.model() == k2.model(),
        m[k].model() == read[k2].model(),
{
    let j = choose|j: int|
        0 <= j < entries.len() && K::decoding(#[trigger] entries[j].0) == Some(k2.model()) && V::decoding(entries[j].1)
            == Some(read[k2].model());
    lemma_entry_reads_back(m, entries, j)
}

/// Reading back what a map was encoded to: every entry decodes, and the map read holds,
/// for each key of the original, a key with the same model whose value has the same model
/// as the original's, and no other key.
pub proof fn lemma_map_roundtrip<K: Transcoder, V: Transcoder>(
    m: Map<K, V>,
    entries: Seq<(TermV, TermV)>,
    read: Map<K, V>,
)
    requires
        keys_encode_apart(m),
        holds_encoded(m, entries),
        holds_decoded(read, entries),
    ensures
        entries_decode::<K, V>(entries),
        forall|k: K| #[trigger]
            m.contains_key(k) ==> exists|k2: K| #[trigger]
                read.contains_key(k2) && k2.model() == k.model() && read[k2].model() == m[k].model(),
        forall|k2: K| #[trigger]
            read.contains_key(k2) ==> exists|k: K| #[trigger]
                m.contains_key(k) && k.model() == k2.model() && m[k].model() == read[k2].model(),
{
    assert forall|i: int| 0 <= i < entries.len() implies K::decoding(#[trigger] entries[i].0) is Some
        && V::decoding(entries[i].1) is Some by {
        lemma_entry_reads_back(m, entries, i);
    }
    assert forall|k2: K| #[trigger] read.contains_key(k2) implies exists|k: K| #[trigger]
        m.contains_key(k) && k.model() == k2.model() && m[k].model() == read[k2].model() by {
        let k = lemma_read_key_source(m, entries, read, k2);
        assert(m.contains_key(k));
    }
    assert forall|k: K| #[trigger] m.contains_key(k) implies exists|k2: K| #[trigger]
        read.contains_key(k2) && k2.model() == k.model() && read[k2].model() == m[k].model() by {
        crate::map::lemma_key_index(entries, K::encoding(k.model()));
        let i = crate::map::key_index(entries, K::encoding(k.model()));
        let k1 = lemma_entry_reads_back(m, entries, i);
        assert(k1 == k);
        let k2 = choose|k2: K| #[trigger] read.contains_key(k2) && K::decoding(entries[i].0) == Some(k2.model());
        let k3 = lemma_read_key_source(m, entries, read, k2);
        assert(k3 == k);
        assert(read.contains_key(k2));
    }
}

// ---------------------------------------------------------------- sets

/// Whether `e` encodes an element of `s`.
pub open spec fn encodes_element_of<T: Encoder>(s: Set<T>, e: TermV) -> bool {
    exists|x: T| #[trigger] s.contains(x) && e == T::encoding(x.model())
}

/// Whether the items of a list are the elements of `s`, each encoded once.
pub open spec fn lists_encoded<T: Encoder>(s: Set<T>, items: Seq<TermV>) -> bool {
    &&& items.len() == s.len()
    &&& forall|i: int| 0 <= i < items.len() ==> #[trigger] encodes_element_of(s, items[i])
    &&& forall|x: T| #[trigger] s.contains(x) ==> items.contains(T::encoding(x.model()))
}

/// Whether `s` holds what the first `n` items of a list decode to: each of these items is
/// read as an element of `s`, and each element was read from one of them.
pub open spec fn holds_decoded_item_prefix<T: Decoder>(s: Set<T>, items: Seq<TermV>, n: int) -> bool {
    &&& forall|i: int|
        #![trigger items[i]]
        0 <= i < n ==> exists|x: T| #[trigger] s.contains(x) && T::decoding(items[i]) == Some(x.model())
    &&& forall|x: T| #[trigger]
        s.contains(x) ==> exists|i: int| 0 <= i < n && T::decoding(#[trigger] items[i]) == Some(x.model())
}

/// Whether `s` holds what all the items of a list decode to.
pub open spec fn holds_decoded_items<T: Decoder>(s: Set<T>, items: Seq<TermV>) -> bool {
    holds_decoded_item_prefix(s, items, items.len() as int)
}

/// Items encoded from a listing of `s` that names each element once list `s`, encoded.
proof fn lemma_set_listing_encoded<T: Encoder>(s: Set<T>, listing: Seq<&T>, items: Seq<TermV>)
    requires
        listing.unref().to_set() == s,
        listing.no_duplicates(),
        listing.len() == s.len(),
        items.len() == listing.len(),
        forall|j: int| 0 <= j < items.len() ==> #[trigger] items[j] == T::encoding((*listing[j]).model()),
    ensures
        lists_encoded(s, items),
{
    let u = listing.unref();
    assert forall|i: int| 0 <= i < items.len() implies #[trigger] encodes_element_of(s, items[i]) by {
        assert(u[i] == *listing[i]);
        assert(u.contains(u[i]));
        assert(s.contains(*listing[i]));
    }
    assert forall|x: T| #[trigger] s.contains(x) implies items.contains(T::encoding(x.model())) by {
        assert(u.to_set().contains(x));
        let i = choose|i: int| 0 <= i < u.len() && u[i] == x;
        assert(items[i] == T::encoding(x.model()));
    }
}

/// Adding the element read from item `n` keeps what the earlier items were read into.
proof fn lemma_decoded_item_step<T: Decoder>(s: Set<T>, items: Seq<TermV>, n: int, x: T)
    requires
        0 <= n < items.len(),
        holds_decoded_item_prefix(s, items, n),
        T::decoding(items[n]) == Some(x.model()),
    ensures
        holds_decoded_item_prefix(s.insert(x), items, n + 1),
{
    let s2 = s.insert(x);
    assert forall|i: int| #![trigger items[i]] 0 <= i < n + 1 implies exists|y: T| #[trigger]
        s2.contains(y) && T::decoding(items[i]) == Some(y.model()) by {
        if i == n {
            assert(s2.contains(x));
        } else {
            let y = choose|y: T| #[trigger] s.contains(y) && T::decoding(items[i]) == Some(y.model());
            assert(s2.contains(y));
        }
    }
    assert forall|y: T| #[trigger] s2.contains(y) implies exists|i: int|
        0 <= i < n + 1 && T::decoding(#[trigger] items[i]) == Some(y.model()) by {
        if y == x {
            assert(T::decoding(items[n]) == Some(y.model()));
        } else {
            assert(s.contains(y));
            let i = choose|i: int| 0 <= i < n && T::decoding(#[trigger] items[i]) == Some(y.model());
            assert(T::decoding(items[i]) == Some(y.model()));
        }
    }
}

/// A hash set becomes the list of its elements.
pub fn encode_hash_set<T: Encoder>(set: &HashSet<T>) -> (t: Term)
    requires
        obeys_key_model::<T>(),
    ensures
        t@ is List && lists_encoded(set@, t@->List_0),
{
    broadcast use vstd::std_specs::hash::group_hash_axioms;
    let mut items: Vec<Term> = Vec::new();
    let iter = set.iter();
    let ghost s = iter.remaining();
    for x in it: iter
        invariant
            it.seq() == s,
            items.len() == it.index(),
            forall|j: int| 0 <= j < items.len() ==> (#[trigger] items@[j])@ == T::encoding((*s[j]).model()),
    {
        items.push(x.encode());
    }
    proof {
        lemma_terms_view(items@);
        lemma_set_listing_encoded(set@, s, terms_view(items@));
    }
    Term::List(items)
}

/// A hash set is read from a list, each item decoded; items that decode to equal elements
/// give one element. A term that is not a list, or an item that does not decode, is a bad
/// argument.
pub fn decode_hash_set<T: Decoder + Eq + std::hash::Hash>(term: &Term) -> (r: NifResult<HashSet<T>>)
    ensures
        r is Ok <==> Vec::<T>::decoding(term@) is Some,
        obeys_key_model::<T>() ==> (r matches Ok(s) ==> holds_decoded_items(s@, term@->List_0)),
        r matches Err(e) ==> e is BadArg,
{
    broadcast use vstd::std_specs::hash::group_hash_axioms;
    let mut v = match Vec::<T>::decode(term) {
        Ok(v) => v,
        Err(e) => return Err(e),
    };
    let ghost items = term@->List_0;
    let ghost m = v.model();
    let mut set: HashSet<T> = HashSet::new();
    let mut n: usize = 0;
    let mut rest: Vec<T> = Vec::new();
    // take the elements from the back, so that they come out front first
    while v.len() > 0
        invariant
            v.len() + rest.len() == m.len(),
            forall|k: int| 0 <= k < v.len() ==> (#[trigger] v@[k]).model() == m[k],
            forall|k: int| 0 <= k < rest.len() ==> (#[trigger] rest@[k]).model() == m[m.len() - 1 - k],
        decreases v.len(),
    {
        let x = v.pop().unwrap();
        rest.push(x);
    }
    while rest.len() > 0
        invariant
            n + rest.len() == m.len(),
            m.len() == items.len(),
            forall|k: int| 0 <= k < items.len() ==> T::decoding(#[trigger] items[k]) == Some(m[k]),
            forall|k: int| 0 <= k < rest.len() ==> (#[trigger] rest@[k]).model() == m[m.len() - 1 - k],
            m.len() <= usize::MAX,
            obeys_key_model::<T>() ==> holds_decoded_item_prefix(set@, items, n as int),
        decreases rest.len(),
    {
        let x = rest.pop().unwrap();
        proof {
            assert(x.model() == m[n as int]);
            if obeys_key_model::<T>() {
                lemma_decoded_item_step(set@, items, n as int, x);
            }
        }
        set.insert(x);
        n = n + 1;
    }
    Ok(set)
}

/// A B-tree set becomes the list of its elements, in increasing order.
pub fn encode_btree_set<T: Encoder + Ord>(set: &BTreeSet<T>) -> (t: Term)
    requires
        obeys_cmp::<T>(),
    ensures
        t@ is List && lists_encoded(set@, t@->List_0),
{
    broadcast use vstd::std_specs::btree::group_btree_axioms;
    let mut items: Vec<Term> = Vec::new();
    let iter = set.iter();
    let ghost s = iter.remaining();
    for x in it: iter
        invariant
            it.seq() == s,
            items.len() == it.index(),
            forall|j: int| 0 <= j < items.len() ==> (#[trigger] items@[j])@ == T::encoding((*s[j]).model()),
    {
        items.push(x.encode());
    }
    proof {
        lemma_terms_view(items@);
        lemma_set_listing_encoded(set@, s, terms_view(items@));
    }
    Term::List(items)
}

/// A B-tree set is read from a list, each item decoded; items that decode to equal
/// elements give one element. A term that is not a list, or an item that does not decode,
/// is a bad argument.
pub fn decode_btree_set<T: Decoder + Ord>(term: &Term) -> (r: NifResult<BTreeSet<T>>)
    ensures
        r is Ok <==> Vec::<T>::decoding(term@) is Some,
        obeys_cmp::<T>() ==> (r matches Ok(s) ==> holds_decoded_items(s@, term@->List_0)),
        r matches Err(e) ==> e is BadArg,
{
    let mut v = match Vec::<T>::decode(term) {
        Ok(v) => v,
        Err(e) => return Err(e),
    };
    let ghost items = term@->List_0;
    let ghost m = v.model();
    let mut set: BTreeSet<T> = BTreeSet::new();
    let ghost mut n: int = 0;
    let mut rest: Vec<T> = Vec::new();
    // take the elements from the back, so that they come out front first
    while v.len() > 0
        invariant
            v.len() + rest.len() == m.len(),
            forall|k: int| 0 <= k < v.len() ==> (#[trigger] v@[k]).model() == m[k],
            forall|k: int| 0 <= k < rest.len() ==> (#[trigger] rest@[k]).model() == m[m.len() - 1 - k],
        decreases v.len(),
    {
        let x = v.pop().unwrap();
        rest.push(x);
    }
    while rest.len() > 0
        invariant
            0 <= n,
            n + rest.len() == m.len(),
            m.len() == items.len(),
            forall|k: int| 0 <= k < items.len() ==> T::decoding(#[trigger] items[k]) == Some(m[k]),
            forall|k: int| 0 <= k < rest.len() ==> (#[trigger] rest@[k]).model() == m[m.len() - 1 - k],
            obeys_cmp::<T>() ==> holds_decoded_item_prefix(set@, items, n),
        decreases rest.len(),
    {
        let x = rest.pop().unwrap();
        proof {
            assert(x.model() == m[n]);
            if obeys_cmp::<T>() {
                lemma_decoded_item_step(set@, items, n, x);
            }
        }
        set.insert(x);
        proof {
            n = n + 1;
        }
    }
    Ok(set)
}

/// Reading back what a set was encoded to: every item decodes, and the set read holds,
/// for each element of the original, an element with the same model, and no other.
pub proof fn lemma_set_roundtrip<T: Transcoder>(s: Set<T>, items: Seq<TermV>, read: Set<T>)
    requires
        lists_encoded(s, items),
        holds_decoded_items(read, items),
    ensures
        forall|i: int| 0 <= i < items.len() ==> T::decoding(#[trigger] items[i]) is Some,
        forall|x: T| #[trigger] s.contains(x) ==> exists|y: T| #[trigger] read.contains(y) && y.model() == x.model(),
        forall|y: T| #[trigger] read.contains(y) ==> exists|x: T| #[trigger] s.contains(x) && x.model() == y.model(),
{
    assert forall|i: int| 0 <= i < items.len() implies T::decoding(#[trigger] items[i]) is Some by {
        assert(encodes_element_of(s, items[i]));
        let x = choose|x: T| #[trigger] s.contains(x) && items[i] == T::encoding(x.model());
        T::lemma_decode_encode(&x);
    }
    assert forall|x: T| #[trigger] s.contains(x) implies exists|y: T| #[trigger] read.contains(y) && y.model() == x.model() by {
        assert(items.contains(T::encoding(x.model())));
        let i = choose|i: int| 0 <= i < items.len() && items[i] == T::encoding(x.model());
        T::lemma_decode_encode(&x);
        let y = choose|y: T| #[trigger] read.contains(y) && T::decoding(items[i]) == Some(y.model());
        assert(read.contains(y));
    }
    assert forall|y: T| #[trigger] read.contains(y) implies exists|x: T| #[trigger] s.contains(x) && x.model() == y.model() by {
        let i = choose|i: int| 0 <= i < items.len() && T::decoding(#[trigger] items[i]) == Some(y.model());
        assert(encodes_element_of(s, items[i]));
        let x = choose|x: T| #[trigger] s.contains(x) && items[i] == T::encoding(x.model());
        T::lemma_decode_encode(&x);
        assert(s.contains(x));
    }
}

} // verus!
