//! A map from fixed-size byte strings to values that keeps its keys in
//! lexicographic order.

use crate::hash::{
    bytes_less, lemma_bytes_less_total, lemma_bytes_less_transitive, FixedBytes,
};
use vstd::prelude::*;

verus! {

/// The keys of `s` are strictly increasing.
spec fn increasing<const N: usize, V>(s: Seq<(FixedBytes<N>, V)>) -> bool {
    forall|i: int, j: int|
        0 <= i < j < s.len() ==> bytes_less(#[trigger] s[i].0.view(), #[trigger] s[j].0.view())
}

/// Entry `i` of `s` has the key `k`.
spec fn keyed_at<const N: usize, V>(s: Seq<(FixedBytes<N>, V)>, i: int, k: Seq<u8>) -> bool {
    0 <= i < s.len() && s[i].0.view() == k
}

/// The map that a sequence of entries stands for: each key with the value of
/// an entry that holds it.
spec fn map_of<const N: usize, V>(s: Seq<(FixedBytes<N>, V)>) -> Map<Seq<u8>, V> {
    Map::new(
        |k: Seq<u8>| exists|i: int| keyed_at(s, i, k),
        |k: Seq<u8>| s[choose|i: int| keyed_at(s, i, k)].1,
    )
}

/// In an increasing sequence a key stands at one place only.
proof fn lemma_key_place_unique<const N: usize, V>(
    s: Seq<(FixedBytes<N>, V)>,
    i: int,
    j: int,
    k: Seq<u8>,
)
    requires
        increasing(s),
        keyed_at(s, i, k),
        keyed_at(s, j, k),
    ensures
        i == j,
{
    if i < j {
        assert(bytes_less(s[i].0.view(), s[j].0.view()));
    } else if j < i {
        assert(bytes_less(s[j].0.view(), s[i].0.view()));
    }
}

/// In an increasing sequence the map gives each entry's key that entry's
/// value.
proof fn lemma_map_of_entry<const N: usize, V>(s: Seq<(FixedBytes<N>, V)>, i: int)
    requires
        increasing(s),
        0 <= i < s.len(),
    ensures
        map_of(s).dom().contains(s[i].0.view()),
        map_of(s)[s[i].0.view()] == s[i].1,
{
    let k = s[i].0.view();
    assert(keyed_at(s, i, k));
    let j = choose|j: int| keyed_at(s, j, k);
    lemma_key_place_unique(s, i, j, k);
}

/// Putting an entry into an increasing sequence, between the smaller keys and
/// the greater ones, keeps it increasing and adds the entry to its map.
proof fn lemma_insert_entry<const N: usize, V>(
    s: Seq<(FixedBytes<N>, V)>,
    i: int,
    key: FixedBytes<N>,
    value: V,
)
    requires
        increasing(s),
        0 <= i <= s.len(),
        forall|j: int| 0 <= j < i ==> bytes_less(#[trigger] s[j].0.view(), key.view()),
        forall|j: int| i <= j < s.len() ==> bytes_less(key.view(), #[trigger] s[j].0.view()),
    ensures
        increasing(s.insert(i, (key, value))),
        map_of(s.insert(i, (key, value))) == map_of(s).insert(key.view(), value),
{
    let t = s.insert(i, (key, value));
    assert forall|a: int, b: int| 0 <= a < b < t.len() implies bytes_less(
        #[trigger] t[a].0.view(),
        #[trigger] t[b].0.view(),
    ) by {
        if b < i {
            assert(bytes_less(s[a].0.view(), s[b].0.view()));
        } else if b == i {
            assert(bytes_less(s[a].0.view(), key.view()));
        } else if a < i {
            assert(bytes_less(s[a].0.view(), key.view()));
            assert(bytes_less(key.view(), s[b - 1].0.view()));
            lemma_bytes_less_transitive(s[a].0.view(), key.view(), s[b - 1].0.view());
        } else if a == i {
            assert(bytes_less(key.view(), s[b - 1].0.view()));
        } else {
            assert(bytes_less(s[a - 1].0.view(), s[b - 1].0.view()));
        }
    }
    assert forall|k: Seq<u8>| map_of(t).dom().contains(k) <==> map_of(s).insert(
        key.view(),
        value,
    ).dom().contains(k) by {
        if map_of(t).dom().contains(k) {
            let j = choose|j: int| keyed_at(t, j, k);
            if j < i {
                assert(keyed_at(s, j, k));
            } else if j > i {
                assert(keyed_at(s, j - 1, k));
            }
        }
        if k == key.view() {
            assert(keyed_at(t, i, k));
        } else if map_of(s).dom().contains(k) {
            let j = choose|j: int| keyed_at(s, j, k);
            if j < i {
                assert(keyed_at(t, j, k));
            } else {
                assert(keyed_at(t, j + 1, k));
            }
        }
    }
    assert forall|k: Seq<u8>| map_of(t).dom().contains(k) implies #[trigger] map_of(t)[k]
        == map_of(s).insert(key.view(), value)[k] by {
        let j = choose|j: int| keyed_at(t, j, k);
        lemma_map_of_entry(t, j);
        if j < i {
            lemma_map_of_entry(s, j);
            assert(bytes_less(s[j].0.view(), key.view()));
        } else if j > i {
            lemma_map_of_entry(s, j - 1);
            assert(bytes_less(key.view(), s[j - 1].0.view()));
        }
    }
    assert(map_of(t) =~= map_of(s).insert(key.view(), value));
}

/// Taking an entry out of an increasing sequence keeps it increasing and
/// takes the entry's key out of its map.
proof fn lemma_remove_entry<const N: usize, V>(s: Seq<(FixedBytes<N>, V)>, i: int)
    requires
        increasing(s),
        0 <= i < s.len(),
    ensures
        increasing(s.remove(i)),
        map_of(s.remove(i)) == map_of(s).remove(s[i].0.view()),
{
    let t = s.remove(i);
    let key = s[i].0.view();
    assert forall|a: int, b: int| 0 <= a < b < t.len() implies bytes_less(
        #[trigger] t[a].0.view(),
        #[trigger] t[b].0.view(),
    ) by {
        let a0 = if a < i { a } else { a + 1 };
        let b0 = if b < i { b } else { b + 1 };
        assert(bytes_less(s[a0].0.view(), s[b0].0.view()));
    }
    assert forall|k: Seq<u8>| map_of(t).dom().contains(k) <==> map_of(s).remove(
        key,
    ).dom().contains(k) by {
        if map_of(t).dom().contains(k) {
            let j = choose|j: int| keyed_at(t, j, k);
            let j0 = if j < i { j } else { j + 1 };
            assert(keyed_at(s, j0, k));
            if k == key {
                lemma_key_place_unique(s, i, j0, k);
            }
        }
        if k != key && map_of(s).dom().contains(k) {
            let j = choose|j: int| keyed_at(s, j, k);
            if j < i {
                assert(keyed_at(t, j, k));
            } else {
                assert(keyed_at(t, j - 1, k));
            }
        }
    }
    assert forall|k: Seq<u8>| map_of(t).dom().contains(k) implies #[trigger] map_of(t)[k]
        == map_of(s).remove(key)[k] by {
        let j = choose|j: int| keyed_at(t, j, k);
        lemma_map_of_entry(t, j);
        let j0 = if j < i { j } else { j + 1 };
        lemma_map_of_entry(s, j0);
    }
    assert(map_of(t) =~= map_of(s).remove(key));
}
/// Each string of `s` is smaller than those that follow it.
pub open spec fn ascending(s: Seq<Seq<u8>>) -> bool {
    forall|i: int, j: int| 0 <= i < j < s.len() ==> bytes_less(#[trigger] s[i], #[trigger] s[j])
}

/// The strings of a finite set, from the smallest to the greatest.
pub open spec fn ordered_keys(keys: Set<Seq<u8>>) -> Seq<Seq<u8>> {
    choose|s: Seq<Seq<u8>>| ascending(s) && s.to_set() == keys
}

/// The keys of a sequence of entries, in the order of the entries.
spec fn entry_keys<const N: usize, V>(s: Seq<(FixedBytes<N>, V)>) -> Seq<Seq<u8>> {
    Seq::new(s.len(), |i: int| s[i].0.view())
}

/// Two ascending sequences of strings of one length that hold the same
/// strings are the same sequence.
pub proof fn lemma_ascending_unique(a: Seq<Seq<u8>>, b: Seq<Seq<u8>>, n: nat)
    requires
        ascending(a),
        ascending(b),
        a.to_set() == b.to_set(),
        forall|i: int| 0 <= i < a.len() ==> (#[trigger] a[i]).len() == n,
    ensures
        a == b,
    decreases a.len(),
{
    assert(a.no_duplicates()) by {
        assert forall|i: int, j: int| 0 <= i < a.len() && 0 <= j < a.len() && i != j implies a[i]
            != a[j] by {
            if i < j {
                assert(bytes_less(a[i], a[j]));
            } else {
                assert(bytes_less(a[j], a[i]));
            }
        }
    }
    assert(b.no_duplicates()) by {
        assert forall|i: int, j: int| 0 <= i < b.len() && 0 <= j < b.len() && i != j implies b[i]
            != b[j] by {
            if i < j {
                assert(bytes_less(b[i], b[j]));
            } else {
                assert(bytes_less(b[j], b[i]));
            }
        }
    }
    a.unique_seq_to_set();
    b.unique_seq_to_set();
    if a.len() == 0 {
        assert(a =~= b);
    } else {
        let la = a.last();
        let lb = b.last();
        assert(b.to_set().contains(la)) by {
            assert(a.contains(la));
        }
        assert(a.to_set().contains(lb)) by {
            assert(b.contains(lb));
        }
        let j = choose|j: int| 0 <= j < b.len() && b[j] == la;
        let i = choose|i: int| 0 <= i < a.len() && a[i] == lb;
        assert(la == lb) by {
            if j < b.len() - 1 {
                assert(bytes_less(b[j], b[b.len() - 1]));
            }
            if i < a.len() - 1 {
                assert(bytes_less(a[i], a[a.len() - 1]));
            }
            lemma_bytes_less_total(la, lb);
        }
        let ra = a.drop_last();
        let rb = b.drop_last();
        assert forall|x: Seq<u8>| ra.to_set().contains(x) <==> rb.to_set().contains(x) by {
            if ra.to_set().contains(x) {
                let p = choose|p: int| 0 <= p < ra.len() && ra[p] == x;
                assert(bytes_less(a[p], a[a.len() - 1]));
                assert(a.contains(x));
                assert(b.to_set().contains(x));
                let q = choose|q: int| 0 <= q < b.len() && b[q] == x;
                assert(rb[q] == x);
            }
            if rb.to_set().contains(x) {
                let p = choose|p: int| 0 <= p < rb.len() && rb[p] == x;
                assert(bytes_less(b[p], b[b.len() - 1]));
                assert(b.contains(x));
                assert(a.to_set().contains(x));
                let q = choose|q: int| 0 <= q < a.len() && a[q] == x;
                assert(ra[q] == x);
            }
        }
        assert(ra.to_set() =~= rb.to_set());
        assert(ascending(ra)) by {
            assert forall|p: int, q: int| 0 <= p < q < ra.len() implies bytes_less(
                #[trigger] ra[p],
                #[trigger] ra[q],
            ) by {
                assert(bytes_less(a[p], a[q]));
            }
        }
        assert(ascending(rb)) by {
            assert forall|p: int, q: int| 0 <= p < q < rb.len() implies bytes_less(
                #[trigger] rb[p],
                #[trigger] rb[q],
            ) by {
                assert(bytes_less(b[p], b[q]));
            }
        }
        lemma_ascending_unique(ra, rb, n);
        assert(a =~= ra.push(la));
        assert(b =~= rb.push(lb));
    }
}

/// The keys of an increasing sequence of entries are the keys of its map in
/// their order.
proof fn lemma_entry_keys<const N: usize, V>(s: Seq<(FixedBytes<N>, V)>)
    requires
        increasing(s),
    ensures
        entry_keys(s) == ordered_keys(map_of(s).dom()),
        ascending(entry_keys(s)),
        entry_keys(s).to_set() == map_of(s).dom(),
{
    let keys = entry_keys(s);
    assert(ascending(keys)) by {
        assert forall|i: int, j: int| 0 <= i < j < keys.len() implies bytes_less(
            #[trigger] keys[i],
            #[trigger] keys[j],
        ) by {
            assert(bytes_less(s[i].0.view(), s[j].0.view()));
        }
    }
    assert forall|k: Seq<u8>| keys.to_set().contains(k) <==> map_of(s).dom().contains(k) by {
        if keys.to_set().contains(k) {
            let i = choose|i: int| 0 <= i < keys.len() && keys[i] == k;
            assert(keyed_at(s, i, k));
        }
        if map_of(s).dom().contains(k) {
            let i = choose|i: int| keyed_at(s, i, k);
            assert(keys[i] == k);
        }
    }
    assert(keys.to_set() =~= map_of(s).dom());
    let chosen = ordered_keys(map_of(s).dom());
    lemma_ascending_unique(keys, chosen, N as nat);
}

/// An increasing sequence stands for a finite map with one key for each of
/// its entries.
proof fn lemma_map_of_len<const N: usize, V>(s: Seq<(FixedBytes<N>, V)>)
    requires
        increasing(s),
    ensures
        map_of(s).dom().finite(),
        map_of(s).dom().len() == s.len(),
    decreases s.len(),
{
    if s.len() == 0 {
        assert(map_of(s).dom() =~= Set::<Seq<u8>>::empty());
    } else {
        let t = s.drop_last();
        let last = s.last();
        assert(increasing(t)) by {
            assert forall|i: int, j: int| 0 <= i < j < t.len() implies bytes_less(
                #[trigger] t[i].0.view(),
                #[trigger] t[j].0.view(),
            ) by {
                assert(bytes_less(s[i].0.view(), s[j].0.view()));
            }
        }
        lemma_map_of_len(t);
        assert forall|j: int| 0 <= j < t.len() implies bytes_less(
            #[trigger] t[j].0.view(),
            last.0.view(),
        ) by {
            assert(bytes_less(s[j].0.view(), s[s.len() - 1].0.view()));
        }
        lemma_insert_entry(t, t.len() as int, last.0, last.1);
        assert(t.insert(t.len() as int, (last.0, last.1)) =~= s);
        if map_of(t).dom().contains(last.0.view()) {
            let j = choose|j: int| keyed_at(t, j, last.0.view());
            assert(bytes_less(t[j].0.view(), last.0.view()));
        }
        assert(map_of(s).dom() =~= map_of(t).dom().insert(last.0.view()));
    }
}

/// A map keyed by byte strings of `N` bytes. Its entries are kept sorted by
/// key, so that two maps with the same contents are the same value and the
/// entries can be walked in the order of their keys.
#[derive(Debug, PartialEq, Eq)]
pub struct OrderedMap<const N: usize, V> {
    entries: Vec<(FixedBytes<N>, V)>,
}

impl<const N: usize, V> View for OrderedMap<N, V> {
    type V = Map<Seq<u8>, V>;

    closed spec fn view(&self) -> Map<Seq<u8>, V> {
        map_of(self.entries@)
    }
}

impl<const N: usize, V> OrderedMap<N, V> {
    /// The entries are sorted by key, and no key occurs twice.
    #[verifier::type_invariant]
    pub closed spec fn wf(&self) -> bool {
        increasing(self.entries@)
    }

    /// The keys of the map, in increasing order.
    pub open spec fn spec_keys(&self) -> Seq<Seq<u8>> {
        ordered_keys(self@.dom())
    }

    /// What the order of the keys means: they are the domain of the map, each
    /// is `N` bytes long, and each is smaller than those that follow it.
    pub proof fn lemma_keys(&self)
        requires
            self.wf(),
        ensures
            self@.dom().finite(),
            self@.dom().len() == self.spec_keys().len(),
            self.spec_keys().to_set() == self@.dom(),
            ascending(self.spec_keys()),
            forall|i: int|
                0 <= i < self.spec_keys().len() ==> self@.dom().contains(
                    #[trigger] self.spec_keys()[i],
                ),
            forall|k: Seq<u8>| #[trigger]
                self@.dom().contains(k) ==> self.spec_keys().contains(k) && k.len() == N,
    {
        let s = self.entries@;
        lemma_map_of_len(s);
        lemma_entry_keys(s);
        assert forall|i: int| 0 <= i < self.spec_keys().len() implies self@.dom().contains(
            #[trigger] self.spec_keys()[i],
        ) by {
            lemma_map_of_entry(s, i);
        }
        assert forall|k: Seq<u8>| #[trigger] self@.dom().contains(k) implies self.spec_keys().contains(
            k,
        ) && k.len() == N by {
            let i = choose|i: int| keyed_at(s, i, k);
            assert(self.spec_keys()[i] == k);
        }
    }

    /// A map without entries.
    pub fn new() -> (r: Self)
        ensures
            r@ == Map::<Seq<u8>, V>::empty(),
            r.spec_keys() == Seq::<Seq<u8>>::empty(),
            r.wf(),
    {
        let r = OrderedMap { entries: Vec::new() };
        proof {
            assert(r@ =~= Map::<Seq<u8>, V>::empty());
            lemma_entry_keys(r.entries@);
            assert(r.spec_keys() =~= Seq::<Seq<u8>>::empty());
        }
        r
    }

    /// The number of entries.
    pub fn len(&self) -> (r: usize)
        ensures
            r == self.spec_keys().len(),
            r == self@.dom().len(),
    {
        proof {
            use_type_invariant(self);
            lemma_map_of_len(self.entries@);
            lemma_entry_keys(self.entries@);
        }
        self.entries.len()
    }

    /// Whether the map has no entries.
    pub fn is_empty(&self) -> (r: bool)
        ensures
            r == (self.spec_keys().len() == 0),
            r == (self@ == Map::<Seq<u8>, V>::empty()),
    {
        proof {
            use_type_invariant(self);
            lemma_map_of_len(self.entries@);
            lemma_entry_keys(self.entries@);
            if self.entries@.len() == 0 {
                assert(self@ =~= Map::<Seq<u8>, V>::empty());
            }
        }
        self.entries.len() == 0
    }

    /// The place of the first entry whose key is not smaller than `key`.
    fn lower_bound(&self, key: &FixedBytes<N>) -> (i: usize)
        ensures
            i <= self.entries@.len(),
            forall|j: int| 0 <= j < i ==> bytes_less(#[trigger] self.entries@[j].0.view(), key@),
            forall|j: int|
                i <= j < self.entries@.len() ==> !bytes_less(
                    #[trigger] self.entries@[j].0.view(),
                    key@,
                ),
    {
        proof {
            use_type_invariant(self);
        }
        let mut i: usize = 0;
        while i < self.entries.len() && self.entries[i].0.precedes(key)
            invariant
                i <= self.entries@.len(),
                forall|j: int| 0 <= j < i ==> bytes_less(#[trigger] self.entries@[j].0.view(), key@),
            decreases self.entries@.len() - i,
        {
            i += 1;
        }
        proof {
            assert forall|j: int| i <= j < self.entries@.len() implies !bytes_less(
                #[trigger] self.entries@[j].0.view(),
                key@,
            ) by {
                if i < j && bytes_less(self.entries@[j].0.view(), key@) {
                    assert(bytes_less(self.entries@[i as int].0.view(), self.entries@[j].0.view()));
                    lemma_bytes_less_transitive(
                        self.entries@[i as int].0.view(),
                        self.entries@[j].0.view(),
                        key@,
                    );
                }
            }
        }
        i
    }

    /// The place of the entry with the given key, if there is one.
    fn find(&self, key: &FixedBytes<N>) -> (r: Option<usize>)
        ensures
            match r {
                Some(i) => keyed_at(self.entries@, i as int, key@) && self@.dom().contains(key@)
                    && self@[key@] == self.entries@[i as int].1,
                None => !self@.dom().contains(key@),
            },
    {
        proof {
            use_type_invariant(self);
        }
        let i = self.lower_bound(key);
        if i < self.entries.len() && self.entries[i].0 == *key {
            proof {
                lemma_map_of_entry(self.entries@, i as int);
            }
            Some(i)
        } else {
            proof {
                if self@.dom().contains(key@) {
                    let j = choose|j: int| keyed_at(self.entries@, j, key@);
                    if j < i {
                        assert(bytes_less(self.entries@[j].0.view(), key@));
                    } else if j > i {
                        assert(bytes_less(self.entries@[i as int].0.view(), self.entries@[j].0.view()));
                        lemma_bytes_less_total(self.entries@[i as int].0.view(), key@);
                    }
                }
            }
            None
        }
    }

    /// Whether the map has an entry for the key.
    pub fn contains_key(&self, key: &FixedBytes<N>) -> (r: bool)
        ensures
            r == self@.dom().contains(key@),
    {
        self.find(key).is_some()
    }

    /// The value of the key, if the map has an entry for it.
    pub fn get(&self, key: &FixedBytes<N>) -> (r: Option<&V>)
        ensures
            r == (if self@.dom().contains(key@) {
                Some(&self@[key@])
            } else {
                None
            }),
    {
        match self.find(key) {
            Some(i) => Some(&self.entries[i].1),
            None => None,
        }
    }

    /// The key of entry `index`, counted in the order of the keys.
    pub fn key_at(&self, index: usize) -> (r: FixedBytes<N>)
        requires
            index < self.spec_keys().len(),
        ensures
            r@ == self.spec_keys()[index as int],
    {
        proof {
            use_type_invariant(self);
            lemma_entry_keys(self.entries@);
        }
        self.entries[index].0
    }

    /// The value of entry `index`, counted in the order of the keys.
    pub fn value_at(&self, index: usize) -> (r: &V)
        requires
            index < self.spec_keys().len(),
        ensures
            self@.dom().contains(self.spec_keys()[index as int]),
            *r == self@[self.spec_keys()[index as int]],
    {
        proof {
            use_type_invariant(self);
            lemma_entry_keys(self.entries@);
            lemma_map_of_entry(self.entries@, index as int);
        }
        &self.entries[index].1
    }

    /// Whether every key of this map is a key of the other one too.
    pub fn keys_within<W>(&self, other: &OrderedMap<N, W>) -> (r: bool)
        ensures
            r == self@.dom().subset_of(other@.dom()),
    {
        proof {
            use_type_invariant(self);
            self.lemma_keys();
        }
        let mut i: usize = 0;
        while i < self.len()
            invariant
                i <= self.spec_keys().len(),
                self.wf(),
                forall|j: int| 0 <= j < i ==> other@.dom().contains(#[trigger] self.spec_keys()[j]),
            decreases self.spec_keys().len() - i,
        {
            let key = self.key_at(i);
            if !other.contains_key(&key) {
                proof {
                    self.lemma_keys();
                    assert(self@.dom().contains(self.spec_keys()[i as int]));
                }
                return false;
            }
            i += 1;
        }
        proof {
            self.lemma_keys();
            assert forall|k: Seq<u8>| self@.dom().contains(k) implies other@.dom().contains(k) by {
                let j = choose|j: int| 0 <= j < self.spec_keys().len() && self.spec_keys()[j] == k;
                assert(other@.dom().contains(self.spec_keys()[j]));
            }
        }
        true
    }

    /// Gives the key the value, and returns the value that it had before.
    pub fn insert(&mut self, key: FixedBytes<N>, value: V) -> (r: Option<V>)
        ensures
            final(self)@ == old(self)@.insert(key@, value),
            r == (if old(self)@.dom().contains(key@) {
                Some(old(self)@[key@])
            } else {
                None
            }),
            final(self).wf(),
    {
        proof {
            use_type_invariant(&*self);
        }
        let i = self.lower_bound(&key);
        let ghost before = self.entries@;
        let found = i < self.entries.len() && self.entries[i].0 == key;
        let mut entries: Vec<(FixedBytes<N>, V)> = Vec::new();
        core::mem::swap(&mut self.entries, &mut entries);
        let previous = if found {
            let (_, previous) = entries.remove(i);
            proof {
                lemma_map_of_entry(before, i as int);
                lemma_remove_entry(before, i as int);
                let s = entries@;
                assert forall|j: int| i <= j < s.len() implies bytes_less(
                    key@,
                    #[trigger] s[j].0.view(),
                ) by {
                    assert(bytes_less(before[i as int].0.view(), before[j + 1].0.view()));
                }
                assert forall|j: int| 0 <= j < i implies bytes_less(
                    #[trigger] s[j].0.view(),
                    key@,
                ) by {
                    assert(bytes_less(before[j].0.view(), key@));
                }
                lemma_insert_entry(s, i as int, key, value);
                assert(map_of(before).remove(key@).insert(key@, value) =~= map_of(before).insert(
                    key@,
                    value,
                ));
            }
            Some(previous)
        } else {
            proof {
                assert forall|j: int| i <= j < before.len() implies bytes_less(
                    key@,
                    #[trigger] before[j].0.view(),
                ) by {
                    lemma_bytes_less_total(before[j].0.view(), key@);
                    if before[j].0.view() == key@ {
                        if j > i {
                            assert(bytes_less(before[i as int].0.view(), before[j].0.view()));
                        }
                    }
                }
                lemma_insert_entry(before, i as int, key, value);
                if map_of(before).dom().contains(key@) {
                    let j = choose|j: int| keyed_at(before, j, key@);
                    if j < i {
                        assert(bytes_less(before[j].0.view(), key@));
                    } else {
                        assert(bytes_less(key@, before[j].0.view()));
                    }
                }
            }
            None
        };
        entries.insert(i, (key, value));
        self.entries = entries;
        previous
    }

    /// Takes the key out of the map, and returns the value that it had.
    pub fn remove(&mut self, key: &FixedBytes<N>) -> (r: Option<V>)
        ensures
            final(self)@ == old(self)@.remove(key@),
            r == (if old(self)@.dom().contains(key@) {
                Some(old(self)@[key@])
            } else {
                None
            }),
            final(self).wf(),
    {
        proof {
            use_type_invariant(&*self);
        }
        match self.find(key) {
            Some(i) => {
                proof {
                    lemma_remove_entry(self.entries@, i as int);
                }
                let mut entries: Vec<(FixedBytes<N>, V)> = Vec::new();
                core::mem::swap(&mut self.entries, &mut entries);
                let (_, previous) = entries.remove(i);
                self.entries = entries;
                Some(previous)
            },
            None => {
                assert(self@.remove(key@) =~= self@);
                None
            },
        }
    }
}

impl<const N: usize, V: Copy> Clone for OrderedMap<N, V> {
    /// A map with the same entries.
    fn clone(&self) -> (r: Self)
        ensures
            r@ == self@,
            r.wf(),
    {
        proof {
            use_type_invariant(self);
        }
        let mut entries: Vec<(FixedBytes<N>, V)> = Vec::new();
        let mut i: usize = 0;
        while i < self.entries.len()
            invariant
                i <= self.entries@.len(),
                entries@ == self.entries@.subrange(0, i as int),
            decreases self.entries@.len() - i,
        {
            entries.push(self.entries[i]);
            assert(entries@ =~= self.entries@.subrange(0, i + 1));
            i += 1;
        }
        assert(entries@ =~= self.entries@);
        OrderedMap { entries }
    }
}

impl<const N: usize, V> Default for OrderedMap<N, V> {
    /// A map without entries.
    fn default() -> (r: Self)
        ensures
            r@ == Map::<Seq<u8>, V>::empty(),
            r.wf(),
    {
        OrderedMap::new()
    }
}

} // verus!
