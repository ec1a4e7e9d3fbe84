//! Association tables and key sets with mathematical views.
use vstd::prelude::*;

verus! {

/// A key: a value that can be compared for equality of its view, and copied.
pub trait Key: View + Sized {
    /// Whether the two keys denote the same value.
    fn same(&self, other: &Self) -> (r: bool)
        ensures
            r == (self@ == other@),
    ;

    /// A second key that denotes the same value.
    fn dup(&self) -> (r: Self)
        ensures
            r@ == self@,
    ;
}

impl Key for u32 {
    fn same(&self, other: &Self) -> (r: bool) {
        *self == *other
    }

    fn dup(&self) -> (r: Self) {
        *self
    }
}

impl Key for u128 {
    fn same(&self, other: &Self) -> (r: bool) {
        *self == *other
    }

    fn dup(&self) -> (r: Self) {
        *self
    }
}

impl Key for String {
    fn same(&self, other: &Self) -> (r: bool) {
        *self == *other
    }

    fn dup(&self) -> (r: Self) {
        self.clone()
    }
}

/// No position of `s` repeats the key of another.
pub open spec fn distinct_keys<A, B>(s: Seq<(A, B)>) -> bool {
    forall|i: int, j: int| 0 <= i < j < s.len() ==> #[trigger] s[i].0 != #[trigger] s[j].0
}

/// Whether some entry of `s` has the key `k`.
pub open spec fn has_key<A, B>(s: Seq<(A, B)>, k: A) -> bool {
    exists|i: int| 0 <= i < s.len() && #[trigger] s[i].0 == k
}

/// The position of an entry of `s` with the key `k`.
pub open spec fn key_index<A, B>(s: Seq<(A, B)>, k: A) -> int {
    choose|i: int| 0 <= i < s.len() && #[trigger] s[i].0 == k
}

/// The map that the entries of `s` make up.
pub open spec fn map_of<A, B>(s: Seq<(A, B)>) -> Map<A, B> {
    Map::new(|k: A| has_key(s, k), |k: A| s[key_index(s, k)].1)
}

/// `s` lists the entries of `m`, each key once.
pub open spec fn lists<A, B>(s: Seq<(A, B)>, m: Map<A, B>) -> bool {
    &&& distinct_keys(s)
    &&& forall|i: int|
        0 <= i < s.len() ==> m.contains_key(#[trigger] s[i].0) && m[s[i].0] == s[i].1
    &&& forall|k: A| #[trigger] m.contains_key(k) ==> has_key(s, k)
}

proof fn lemma_lists<A, B>(s: Seq<(A, B)>)
    requires
        distinct_keys(s),
    ensures
        lists(s, map_of(s)),
{
    assert forall|i: int| 0 <= i < s.len() implies map_of(s).contains_key(#[trigger] s[i].0)
        && map_of(s)[s[i].0] == s[i].1 by {
        assert(has_key(s, s[i].0));
        let j = key_index(s, s[i].0);
        assert(0 <= j < s.len() && s[j].0 == s[i].0);
        if i < j {
            assert(s[i].0 != s[j].0);
        } else if j < i {
            assert(s[j].0 != s[i].0);
        }
    }
}

/// Two lists of the same map agree on every key, so a map is pinned by any list of it.
proof fn lemma_lists_unique<A, B>(s: Seq<(A, B)>, m1: Map<A, B>, m2: Map<A, B>)
    requires
        lists(s, m1),
        lists(s, m2),
    ensures
        m1 == m2,
{
    assert(m1 =~= m2) by {
        assert forall|k: A| m1.contains_key(k) == m2.contains_key(k) by {
            if m1.contains_key(k) {
                let i = key_index(s, k);
                assert(s[i].0 == k);
            }
            if m2.contains_key(k) {
                let i = key_index(s, k);
                assert(s[i].0 == k);
            }
        }
        assert forall|k: A| m1.contains_key(k) implies m1[k] == m2[k] by {
            let i = key_index(s, k);
            assert(s[i].0 == k);
        }
    }
}

/// A table from keys to values. Each key occurs at most once.
pub struct Table<K: Key, V: View> {
    entries: Vec<(K, V)>,
}

impl<K: Key, V: View> View for Table<K, V> {
    type V = Map<<K as View>::V, <V as View>::V>;

    closed spec fn view(&self) -> Self::V {
        map_of(self.items())
    }
}

pub open spec fn item_view<K: View, V: View>(e: (K, V)) -> (K::V, V::V) {
    (e.0@, e.1@)
}

pub open spec fn items_view<K: View, V: View>(s: Seq<(K, V)>) -> Seq<(K::V, V::V)> {
    Seq::new(s.len(), |i: int| item_view(s[i]))
}

impl<K: Key, V: View> Table<K, V> {
    /// The entries in the order in which the table is walked.
    pub closed spec fn items(&self) -> Seq<(<K as View>::V, <V as View>::V)> {
        items_view(self.entries@)
    }

    #[verifier::type_invariant]
    spec fn keys_distinct(self) -> bool {
        distinct_keys(self.items())
    }

    /// An empty table.
    pub fn new() -> (r: Self)
        ensures
            r@ == Map::<K::V, V::V>::empty(),
    {
        let r = Table { entries: Vec::new() };
        assert(r@ =~= Map::<K::V, V::V>::empty());
        r
    }

    /// The number of entries, and that `items` lists the table.
    pub fn len(&self) -> (n: usize)
        ensures
            n == self.items().len(),
            lists(self.items(), self@),
    {
        proof {
            use_type_invariant(self);
            lemma_lists(self.items());
        }
        self.entries.len()
    }

    /// The key at a position of the walk.
    pub fn key_at(&self, i: usize) -> (r: &K)
        requires
            i < self.items().len(),
        ensures
            r@ == self.items()[i as int].0,
    {
        &self.entries[i].0
    }

    /// The value at a position of the walk.
    pub fn value_at(&self, i: usize) -> (r: &V)
        requires
            i < self.items().len(),
        ensures
            r@ == self.items()[i as int].1,
    {
        &self.entries[i].1
    }

    fn position(&self, key: &K) -> (r: Option<usize>)
        ensures
            match r {
                Some(i) => i < self.items().len() && self.items()[i as int].0 == key@,
                None => !has_key(self.items(), key@),
            },
    {
        let mut i: usize = 0;
        while i < self.entries.len()
            invariant
                i <= self.entries@.len(),
                self.items().len() == self.entries@.len(),
                forall|j: int| 0 <= j < i ==> #[trigger] self.items()[j].0 != key@,
            decreases self.entries@.len() - i,
        {
            assert(self.items()[i as int] == item_view(self.entries@[i as int]));
            if self.entries[i].0.same(key) {
                return Some(i);
            }
            i += 1;
        }
        None
    }

    /// The value under `key`.
    pub fn get(&self, key: &K) -> (r: Option<&V>)
        ensures
            match r {
                Some(v) => self@.contains_key(key@) && v@ == self@[key@],
                None => !self@.contains_key(key@),
            },
    {
        proof {
            use_type_invariant(self);
            lemma_lists(self.items());
        }
        match self.position(key) {
            Some(i) => {
                assert(self.items()[i as int].0 == key@);
                Some(&self.entries[i].1)
            },
            None => None,
        }
    }

    /// Whether there is a value under `key`.
    pub fn contains_key(&self, key: &K) -> (r: bool)
        ensures
            r == self@.contains_key(key@),
    {
        self.get(key).is_some()
    }

    /// Takes the entry of `key` out.
    pub fn remove(&mut self, key: &K) -> (r: Option<V>)
        ensures
            final(self)@ == old(self)@.remove(key@),
            match r {
                Some(v) => old(self)@.contains_key(key@) && v@ == old(self)@[key@],
                None => !old(self)@.contains_key(key@),
            },
    {
        proof {
            use_type_invariant(&*self);
            lemma_lists(self.items());
        }
        let ghost before = self.items();
        let found = self.position(key);
        let mut entries: Vec<(K, V)> = Vec::new();
        core::mem::swap(&mut entries, &mut self.entries);
        let r = match found {
            Some(i) => {
                let e = entries.remove(i);
                proof {
                    let after = items_view(entries@);
                    assert(after =~= before.remove(i as int));
                    lemma_remove_at(before, i as int);
                }
                Some(e.1)
            },
            None => {
                proof {
                    assert(items_view(entries@) =~= before);
                    assert(map_of(before) =~= map_of(before).remove(key@));
                }
                None
            },
        };
        self.entries = entries;
        r
    }

    /// Puts `value` under `key`, in place of what was there.
    pub fn insert(&mut self, key: K, value: V)
        ensures
            final(self)@ == old(self)@.insert(key@, value@),
    {
        let ghost before = self@;
        let _ = self.remove(&key);
        proof {
            use_type_invariant(&*self);
            lemma_lists(self.items());
        }
        let ghost mid = self.items();
        let mut entries: Vec<(K, V)> = Vec::new();
        core::mem::swap(&mut entries, &mut self.entries);
        let ghost pair = item_view((key, value));
        entries.push((key, value));
        proof {
            assert(items_view(entries@) =~= mid.push(pair));
            assert(!has_key(mid, pair.0)) by {
                assert(!map_of(mid).contains_key(pair.0));
            }
            lemma_push(mid, pair);
            assert(map_of(mid).insert(pair.0, pair.1) =~= before.insert(pair.0, pair.1));
        }
        self.entries = entries;
    }
}

proof fn lemma_remove_at<A, B>(s: Seq<(A, B)>, i: int)
    requires
        distinct_keys(s),
        0 <= i < s.len(),
    ensures
        distinct_keys(s.remove(i)),
        map_of(s.remove(i)) == map_of(s).remove(s[i].0),
{
    let t = s.remove(i);
    let at = |j: int| if j < i { j } else { j + 1 };
    assert forall|j: int| 0 <= j < t.len() implies t[j] == s[#[trigger] at(j)] by {}
    assert forall|j: int, k: int| 0 <= j < k < t.len() implies #[trigger] t[j].0 != #[trigger] t[k].0 by {
        assert(t[j] == s[at(j)] && t[k] == s[at(k)]);
        assert(at(j) < at(k));
    }
    lemma_lists(s);
    lemma_lists(t);
    let m = map_of(s).remove(s[i].0);
    assert(lists(t, m)) by {
        assert forall|j: int| 0 <= j < t.len() implies m.contains_key(#[trigger] t[j].0) && m[t[j].0]
            == t[j].1 by {
            assert(t[j] == s[at(j)]);
            let a = at(j);
            if a < i {
                assert(s[a].0 != s[i].0);
            } else {
                assert(s[i].0 != s[a].0);
            }
        }
        assert forall|k: A| #[trigger] m.contains_key(k) implies has_key(t, k) by {
            assert(map_of(s).contains_key(k));
            let a = key_index(s, k);
            assert(s[a].0 == k);
            if a < i {
                assert(t[a].0 == k);
            } else {
                assert(t[a - 1].0 == k);
            }
        }
    }
    lemma_lists_unique(t, m, map_of(t));
}

proof fn lemma_push<A, B>(s: Seq<(A, B)>, e: (A, B))
    requires
        distinct_keys(s),
        !has_key(s, e.0),
    ensures
        distinct_keys(s.push(e)),
        map_of(s.push(e)) == map_of(s).insert(e.0, e.1),
{
    let t = s.push(e);
    assert forall|j: int, k: int| 0 <= j < k < t.len() implies #[trigger] t[j].0 != #[trigger] t[k].0 by {
        if k == s.len() {
            assert(s[j].0 == t[j].0);
        } else {
            assert(t[j] == s[j] && t[k] == s[k]);
        }
    }
    lemma_lists(s);
    lemma_lists(t);
    let m = map_of(s).insert(e.0, e.1);
    assert(lists(t, m)) by {
        assert forall|j: int| 0 <= j < t.len() implies m.contains_key(#[trigger] t[j].0) && m[t[j].0]
            == t[j].1 by {
            if j < s.len() {
                assert(t[j] == s[j]);
                assert(s[j].0 != e.0);
            }
        }
        assert forall|k: A| #[trigger] m.contains_key(k) implies has_key(t, k) by {
            if k == e.0 {
                assert(t[s.len() as int].0 == k);
            } else {
                assert(map_of(s).contains_key(k));
                let a = key_index(s, k);
                assert(s[a].0 == k);
                assert(t[a].0 == k);
            }
        }
    }
    lemma_lists_unique(t, m, map_of(t));
}

/// A set of keys. Each key is held once.
pub struct KeySet<K: Key> {
    keys: Vec<K>,
}

/// The views of the keys of `s`, in order.
pub open spec fn keys_view<K: View>(s: Seq<K>) -> Seq<K::V> {
    Seq::new(s.len(), |i: int| s[i]@)
}

impl<K: Key> View for KeySet<K> {
    type V = Set<<K as View>::V>;

    closed spec fn view(&self) -> Self::V {
        self.items().to_set()
    }
}

impl<K: Key> KeySet<K> {
    /// The keys in the order in which the set is walked.
    pub closed spec fn items(&self) -> Seq<<K as View>::V> {
        keys_view(self.keys@)
    }

    #[verifier::type_invariant]
    spec fn keys_distinct(self) -> bool {
        self.items().no_duplicates()
    }

    /// The empty set.
    pub fn new() -> (r: Self)
        ensures
            r@ == Set::<K::V>::empty(),
    {
        let r = KeySet { keys: Vec::new() };
        assert(r@ =~= Set::<K::V>::empty());
        r
    }

    /// The number of keys; `items` lists each key of the set once.
    pub fn len(&self) -> (n: usize)
        ensures
            n == self@.len(),
            n == self.items().len(),
            self@.finite(),
            self.items().no_duplicates(),
            self.items().to_set() == self@,
    {
        proof {
            use_type_invariant(self);
            self.items().unique_seq_to_set();
            vstd::seq_lib::seq_to_set_is_finite(self.items());
        }
        self.keys.len()
    }

    /// Whether the set has no key.
    pub fn is_empty(&self) -> (r: bool)
        ensures
            r == (self@ =~= Set::<K::V>::empty()),
    {
        let n = self.len();
        if n > 0 {
            assert(self@.contains(self.items()[0]));
        } else {
            assert(self@ =~= Set::<K::V>::empty());
        }
        n == 0
    }

    /// The key at a position of the walk.
    pub fn at(&self, i: usize) -> (r: &K)
        requires
            i < self.items().len(),
        ensures
            r@ == self.items()[i as int],
            self@.contains(r@),
    {
        assert(self@.contains(self.items()[i as int]));
        &self.keys[i]
    }

    fn position(&self, key: &K) -> (r: Option<usize>)
        ensures
            match r {
                Some(i) => i < self.items().len() && self.items()[i as int] == key@,
                None => !self.items().contains(key@),
            },
    {
        let mut i: usize = 0;
        while i < self.keys.len()
            invariant
                i <= self.keys@.len(),
                self.items().len() == self.keys@.len(),
                forall|j: int| 0 <= j < i ==> #[trigger] self.items()[j] != key@,
            decreases self.keys@.len() - i,
        {
            assert(self.items()[i as int] == self.keys@[i as int]@);
            if self.keys[i].same(key) {
                return Some(i);
            }
            i += 1;
        }
        None
    }

    /// Whether `key` is in the set.
    pub fn contains(&self, key: &K) -> (r: bool)
        ensures
            r == self@.contains(key@),
    {
        match self.position(key) {
            Some(i) => {
                assert(self.items()[i as int] == key@);
                true
            },
            None => false,
        }
    }

    /// Puts `key` into the set.
    pub fn insert(&mut self, key: K)
        ensures
            final(self)@ == old(self)@.insert(key@),
    {
        let ghost before = self.items();
        if self.contains(&key) {
            assert(self@ =~= self@.insert(key@));
            return;
        }
        proof {
            use_type_invariant(&*self);
        }
        let mut keys: Vec<K> = Vec::new();
        core::mem::swap(&mut keys, &mut self.keys);
        let ghost k = key@;
        keys.push(key);
        proof {
            let after = keys_view(keys@);
            assert(after =~= before.push(k));
            assert forall|j: int, l: int| 0 <= j < after.len() && 0 <= l < after.len() && j != l implies after[j]
                != after[l] by {
                if j < before.len() {
                    assert(before.contains(before[j]));
                }
                if l < before.len() {
                    assert(before.contains(before[l]));
                }
            }
            assert(after.to_set() =~= before.to_set().insert(k)) by {
                assert forall|x: K::V| before.to_set().insert(k).contains(x) implies after.to_set().contains(x) by {
                    if x == k {
                        assert(after[before.len() as int] == k);
                    } else {
                        let j = choose|j: int| 0 <= j < before.len() && before[j] == x;
                        assert(after[j] == x);
                    }
                }
            }
        }
        self.keys = keys;
    }

    /// Takes `key` out of the set.
    pub fn remove(&mut self, key: &K)
        ensures
            final(self)@ == old(self)@.remove(key@),
    {
        let ghost before = self.items();
        proof {
            use_type_invariant(&*self);
        }
        match self.position(key) {
            Some(i) => {
                let mut keys: Vec<K> = Vec::new();
                core::mem::swap(&mut keys, &mut self.keys);
                let _ = keys.remove(i);
                proof {
                    let after = keys_view(keys@);
                    assert(after =~= before.remove(i as int));
                    assert(after.to_set() =~= before.to_set().remove(key@)) by {
                        assert forall|x: K::V| before.to_set().remove(key@).contains(x) implies after.to_set().contains(
                        x) by {
                            let j = choose|j: int| 0 <= j < before.len() && before[j] == x;
                            if j < i {
                                assert(after[j] == x);
                            } else {
                                assert(after[j - 1] == x);
                            }
                        }
                        assert forall|x: K::V| after.to_set().contains(x) implies before.to_set().remove(key@).contains(
                        x) by {
                            let j = choose|j: int| 0 <= j < after.len() && after[j] == x;
                            if j < i {
                                assert(before[j] == x);
                            } else {
                                assert(before[j + 1] == x);
                            }
                        }
                    }
                }
                self.keys = keys;
            },
            None => {
                assert(self@ =~= self@.remove(key@));
            },
        }
    }

    /// A second set with the same keys.
    pub fn dup(&self) -> (r: Self)
        ensures
            r@ == self@,
    {
        proof {
            use_type_invariant(self);
        }
        let mut keys: Vec<K> = Vec::new();
        let mut i: usize = 0;
        while i < self.keys.len()
            invariant
                i <= self.keys@.len(),
                keys@.len() == i,
                forall|j: int| 0 <= j < i ==> (#[trigger] keys@[j])@ == self.keys@[j]@,
            decreases self.keys@.len() - i,
        {
            keys.push(self.keys[i].dup());
            i += 1;
        }
        assert(keys_view(keys@) =~= self.items());
        KeySet { keys }
    }

    /// The keys as a vector, each once.
    pub fn to_vec(&self) -> (r: Vec<K>)
        ensures
            keys_view(r@).no_duplicates(),
            keys_view(r@).to_set() == self@,
    {
        let copy = self.dup();
        proof {
            use_type_invariant(&copy);
        }
        copy.keys
    }
}

} // verus!
