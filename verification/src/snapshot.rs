//! The SIP side as the dashboard shows it: registrations and trunks by name, the latest calls
//! first.
use crate::sip_state::{
    keyed, Registration, RegistrationView, SipCall, SipCallView, SipSnapshot, SipState, SipView,
    TrunkState, TrunkStateView,
};
use crate::table::{keys_view, lists, Key, Table};
use crate::text::{chars_of, texts_of};
use vstd::prelude::*;

verus! {

/// Whether `a` comes before `b` in dictionary order, or is the same.
pub open spec fn text_le(a: Seq<char>, b: Seq<char>) -> bool
    decreases a.len(),
{
    if a.len() == 0 {
        true
    } else if b.len() == 0 {
        false
    } else if a[0] != b[0] {
        (a[0] as int) < (b[0] as int)
    } else {
        text_le(a.drop_first(), b.drop_first())
    }
}

proof fn lemma_text_total(a: Seq<char>, b: Seq<char>)
    ensures
        text_le(a, b) || text_le(b, a),
    decreases a.len(),
{
    if a.len() > 0 && b.len() > 0 && a[0] == b[0] {
        lemma_text_total(a.drop_first(), b.drop_first());
    }
}

proof fn lemma_text_transitive(a: Seq<char>, b: Seq<char>, c: Seq<char>)
    requires
        text_le(a, b),
        text_le(b, c),
    ensures
        text_le(a, c),
    decreases a.len(),
{
    if a.len() > 0 && b.len() > 0 && c.len() > 0 && a[0] == b[0] && b[0] == c[0] {
        lemma_text_transitive(a.drop_first(), b.drop_first(), c.drop_first());
    }
}

fn in_order(a: &String, b: &String) -> (r: bool)
    ensures
        r == text_le(a@, b@),
{
    let x = chars_of(a.as_str());
    let y = chars_of(b.as_str());
    let mut i: usize = 0;
    assert(a@.skip(0) =~= a@ && b@.skip(0) =~= b@);
    while i < x.len() && i < y.len()
        invariant
            x@ == a@,
            y@ == b@,
            i <= a@.len(),
            i <= b@.len(),
            text_le(a@, b@) == text_le(a@.skip(i as int), b@.skip(i as int)),
        decreases a@.len() - i,
    {
        let p: char = x[i];
        let q: char = y[i];
        assert(a@.skip(i as int).drop_first() =~= a@.skip(i + 1));
        assert(b@.skip(i as int).drop_first() =~= b@.skip(i + 1));
        if p != q {
            return p < q;
        }
        i += 1;
    }
    i == x.len()
}

/// A record that has a place in a list.
pub trait Ranked: View + Sized {
    /// Whether `a` may stand before `b`.
    spec fn le(a: Self::V, b: Self::V) -> bool;

    proof fn total(a: Self::V, b: Self::V)
        ensures
            Self::le(a, b) || Self::le(b, a),
    ;

    proof fn transitive(a: Self::V, b: Self::V, c: Self::V)
        requires
            Self::le(a, b),
            Self::le(b, c),
        ensures
            Self::le(a, c),
    ;

    /// Whether this record may stand before `other`.
    fn before(&self, other: &Self) -> (r: bool)
        ensures
            r == Self::le(self@, other@),
    ;

    /// A second record with the same contents.
    fn copy_of(&self) -> (r: Self)
        ensures
            r@ == self@,
    ;
}

impl Ranked for Registration {
    open spec fn le(a: RegistrationView, b: RegistrationView) -> bool {
        text_le(a.aor, b.aor)
    }

    proof fn total(a: RegistrationView, b: RegistrationView) {
        lemma_text_total(a.aor, b.aor);
    }

    proof fn transitive(a: RegistrationView, b: RegistrationView, c: RegistrationView) {
        lemma_text_transitive(a.aor, b.aor, c.aor);
    }

    fn before(&self, other: &Self) -> (r: bool) {
        in_order(&self.aor, &other.aor)
    }

    fn copy_of(&self) -> (r: Self) {
        self.dup()
    }
}

impl Ranked for TrunkState {
    open spec fn le(a: TrunkStateView, b: TrunkStateView) -> bool {
        text_le(a.name, b.name)
    }

    proof fn total(a: TrunkStateView, b: TrunkStateView) {
        lemma_text_total(a.name, b.name);
    }

    proof fn transitive(a: TrunkStateView, b: TrunkStateView, c: TrunkStateView) {
        lemma_text_transitive(a.name, b.name, c.name);
    }

    fn before(&self, other: &Self) -> (r: bool) {
        in_order(&self.name, &other.name)
    }

    fn copy_of(&self) -> (r: Self) {
        self.dup()
    }
}

impl Ranked for SipCall {
    open spec fn le(a: SipCallView, b: SipCallView) -> bool {
        a.started_at_ms >= b.started_at_ms
    }

    proof fn total(a: SipCallView, b: SipCallView) {
    }

    proof fn transitive(a: SipCallView, b: SipCallView, c: SipCallView) {
    }

    fn before(&self, other: &Self) -> (r: bool) {
        self.started_at_ms >= other.started_at_ms
    }

    fn copy_of(&self) -> (r: Self) {
        self.dup()
    }
}

/// The contents of a list of records.
pub open spec fn records_view<T: View>(v: Seq<T>) -> Seq<T::V> {
    Seq::new(v.len(), |i: int| v[i]@)
}

/// The records stand in order.
pub open spec fn ranked<T: Ranked>(s: Seq<T::V>) -> bool {
    forall|i: int, j: int| 0 <= i < j < s.len() ==> T::le(#[trigger] s[i], #[trigger] s[j])
}

/// `s` holds the records of `m`, each once, in the order of the keys `ks`.
pub open spec fn holds_each<K, V>(s: Seq<V>, ks: Seq<K>, m: Map<K, V>) -> bool {
    &&& ks.no_duplicates()
    &&& ks.to_set() =~= m.dom()
    &&& s.len() == ks.len()
    &&& forall|i: int| 0 <= i < ks.len() ==> #[trigger] s[i] == m[ks[i]]
}

/// `s` is an ordered list of the records of `m`, each once.
pub open spec fn arranges<T: Ranked, K>(s: Seq<T::V>, m: Map<K, T::V>) -> bool {
    &&& ranked::<T>(s)
    &&& exists|ks: Seq<K>| #[trigger] holds_each(s, ks, m)
}

fn place<T: Ranked>(v: &mut Vec<T>, x: T) -> (at: usize)
    requires
        ranked::<T>(records_view(old(v)@)),
    ensures
        at <= old(v)@.len(),
        final(v)@ == old(v)@.insert(at as int, x),
        ranked::<T>(records_view(final(v)@)),
{
    let ghost s = records_view(v@);
    let mut at: usize = 0;
    while at < v.len() && v[at].before(&x)
        invariant
            at <= v@.len(),
            s == records_view(v@),
            forall|i: int| 0 <= i < at ==> T::le(#[trigger] s[i], x@),
        decreases v@.len() - at,
    {
        assert(s[at as int] == v@[at as int]@);
        at += 1;
    }
    proof {
        if at < v@.len() {
            assert(s[at as int] == v@[at as int]@);
            T::total(s[at as int], x@);
            assert forall|j: int| at <= j < s.len() implies T::le(x@, #[trigger] s[j]) by {
                if j > at {
                    assert(T::le(s[at as int], s[j]));
                    T::transitive(x@, s[at as int], s[j]);
                }
            }
        }
        let t = records_view(v@.insert(at as int, x));
        assert(t =~= s.insert(at as int, x@));
        assert forall|i: int, j: int| 0 <= i < j < t.len() implies T::le(
            #[trigger] t[i],
            #[trigger] t[j],
        ) by {
            if i < at {
                assert(t[i] == s[i]);
                if j > at {
                    assert(t[j] == s[j - 1]);
                } else if j < at {
                    assert(t[j] == s[j]);
                }
            } else if i == at {
                assert(t[j] == s[j - 1]);
            } else {
                assert(t[i] == s[i - 1] && t[j] == s[j - 1]);
            }
        }
    }
    v.insert(at, x);
    at
}

proof fn lemma_placed<K, V>(
    s: Seq<V>,
    ks: Seq<K>,
    items: Seq<(K, V)>,
    m: Map<K, V>,
    i: int,
    at: int,
)
    requires
        lists(items, m),
        0 <= i < items.len(),
        s.len() == ks.len() == i,
        0 <= at <= i,
        ks.no_duplicates(),
        forall|j: int| 0 <= j < ks.len() ==> #[trigger] s[j] == m[ks[j]],
        forall|k: K| #[trigger]
            ks.contains(k) <==> exists|j: int| 0 <= j < i && #[trigger] items[j].0 == k,
    ensures
        ({
            let ks2 = ks.insert(at, items[i].0);
            let s2 = s.insert(at, items[i].1);
            &&& s2.len() == ks2.len() == i + 1
            &&& ks2.no_duplicates()
            &&& forall|j: int| 0 <= j < ks2.len() ==> #[trigger] s2[j] == m[ks2[j]]
            &&& forall|k: K| #[trigger]
                ks2.contains(k) <==> exists|j: int| 0 <= j < i + 1 && #[trigger] items[j].0 == k
        }),
{
    let key = items[i].0;
    let ks2 = ks.insert(at, key);
    let s2 = s.insert(at, items[i].1);
    assert(!ks.contains(key)) by {
        if ks.contains(key) {
            let j = choose|j: int| 0 <= j < i && #[trigger] items[j].0 == key;
            assert(items[j].0 != items[i].0);
        }
    }
    let from = |j: int| if j < at { j } else { j - 1 };
    assert forall|j: int| 0 <= j < ks2.len() && j != at implies #[trigger] ks2[j] == ks[from(j)] by {}
    assert forall|j: int, l: int| 0 <= j < ks2.len() && 0 <= l < ks2.len() && j != l implies ks2[j]
        != ks2[l] by {
        if j == at {
            assert(ks.contains(ks[from(l)]));
        } else if l == at {
            assert(ks.contains(ks[from(j)]));
        } else {
            assert(from(j) != from(l));
        }
    }
    assert forall|j: int| 0 <= j < ks2.len() implies #[trigger] s2[j] == m[ks2[j]] by {
        if j != at {
            assert(s2[j] == s[from(j)]);
            assert(ks2[j] == ks[from(j)]);
        }
    }
    assert forall|k: K| #[trigger] ks2.contains(k) <==> exists|j: int|
        0 <= j < i + 1 && #[trigger] items[j].0 == k by {
        if ks2.contains(k) {
            let l = choose|l: int| 0 <= l < ks2.len() && ks2[l] == k;
            if l == at {
                assert(items[i].0 == k);
            } else {
                assert(ks.contains(ks[from(l)]));
                let j = choose|j: int| 0 <= j < i && #[trigger] items[j].0 == k;
                assert(items[j].0 == k);
            }
        }
        if exists|j: int| 0 <= j < i + 1 && #[trigger] items[j].0 == k {
            let j = choose|j: int| 0 <= j < i + 1 && #[trigger] items[j].0 == k;
            if j == i {
                assert(ks2[at] == k);
            } else {
                assert(ks.contains(k));
                let l = choose|l: int| 0 <= l < ks.len() && ks[l] == k;
                if l < at {
                    assert(ks2[l] == k);
                } else {
                    assert(ks2[l + 1] == k);
                }
            }
        }
    }
}

fn arranged<K: Key, T: Ranked>(t: &Table<K, T>) -> (r: (Vec<T>, Vec<K>))
    ensures
        ranked::<T>(records_view(r.0@)),
        holds_each(records_view(r.0@), keys_view(r.1@), t@),
        arranges::<T, K::V>(records_view(r.0@), t@),
{
    let mut out: Vec<T> = Vec::new();
    let mut keys: Vec<K> = Vec::new();
    let ghost mut ks: Seq<K::V> = Seq::empty();
    let n = t.len();
    let ghost items = t.items();
    let mut i: usize = 0;
    while i < n
        invariant
            i <= n,
            items == t.items(),
            n == items.len(),
            lists(items, t@),
            ranked::<T>(records_view(out@)),
            out@.len() == ks.len() == i,
            keys_view(keys@) == ks,
            keys@.len() == i,
            ks.no_duplicates(),
            forall|j: int|
                0 <= j < ks.len() ==> #[trigger] records_view(out@)[j] == t@[ks[j]],
            forall|k: K::V| #[trigger]
                ks.contains(k) <==> exists|j: int| 0 <= j < i && #[trigger] items[j].0 == k,
        decreases n - i,
    {
        let x = t.value_at(i).copy_of();
        let ghost xv = x@;
        let ghost before = records_view(out@);
        let at = place(&mut out, x);
        let ghost before_keys = keys@;
        let key = t.key_at(i).dup();
        keys.insert(at, key);
        proof {
            assert(keys_view(keys@) =~= keys_view(before_keys).insert(at as int, key@));
            lemma_placed(before, ks, items, t@, i as int, at as int);
            ks = ks.insert(at as int, items[i as int].0);
            assert(records_view(out@) =~= before.insert(at as int, xv));
        }
        i += 1;
    }
    proof {
        assert(ks.to_set() =~= t@.dom()) by {
            assert forall|k: K::V| ks.to_set().contains(k) == t@.dom().contains(k) by {
                if ks.contains(k) {
                    let j = choose|j: int| 0 <= j < n && #[trigger] items[j].0 == k;
                    assert(t@.contains_key(items[j].0));
                }
                if t@.contains_key(k) {
                    assert(crate::table::has_key(items, k));
                }
            }
        }
        assert(holds_each(records_view(out@), ks, t@));
    }
    (out, keys)
}

/// Whether `ids` names every call once, the latest first.
pub open spec fn newest_first(ids: Seq<Seq<char>>, calls: Map<Seq<char>, SipCallView>) -> bool {
    &&& ids.no_duplicates()
    &&& ids.to_set() =~= calls.dom()
    &&& forall|i: int, j: int|
        0 <= i < j < ids.len() ==> calls[#[trigger] ids[i]].started_at_ms >= calls[#[trigger] ids[j]].started_at_ms
}

impl SipState {
    /// The Call-IDs, in the order in which the dashboard shows the calls.
    pub fn calls_by_age(&self) -> (r: Vec<String>)
        ensures
            newest_first(texts_of(r@), self@.calls),
    {
        let (records, keys) = arranged(&self.calls);
        proof {
            let s = records_view(records@);
            let ks = keys_view(keys@);
            assert forall|i: int, j: int| 0 <= i < j < ks.len() implies self@.calls[#[trigger] ks[i]].started_at_ms
                >= self@.calls[#[trigger] ks[j]].started_at_ms by {
                assert(s[i] == self@.calls[ks[i]]);
                assert(s[j] == self@.calls[ks[j]]);
                assert(SipCall::le(s[i], s[j]));
            }
            assert(texts_of(keys@) =~= ks);
        }
        keys
    }

    /// The SIP side as the dashboard shows it. Calls that started at the same time stand in no
    /// particular order.
    pub fn snapshot(&self) -> (r: SipSnapshot)
        ensures
            r.enabled == self@.enabled,
            r.listen@ == self@.listen,
            r.realm@ == self@.realm,
            arranges::<Registration, Seq<char>>(
                records_view(r.registrations@),
                self@.registrations,
            ),
            arranges::<TrunkState, Seq<char>>(records_view(r.trunks@), self@.trunks),
            arranges::<SipCall, Seq<char>>(records_view(r.active_calls@), self@.calls),
            r.total_calls == self@.total_calls,
            r.total_registrations == self@.total_registrations,
    {
        SipSnapshot {
            enabled: self.enabled,
            listen: self.listen.clone(),
            realm: self.realm.clone(),
            registrations: arranged(&self.registrations).0,
            trunks: arranged(&self.trunks).0,
            active_calls: arranged(&self.calls).0,
            total_calls: self.total_calls,
            total_registrations: self.total_registrations,
        }
    }
}

// ---- laws ----

/// Texts that may stand before one another are the same.
proof fn lemma_text_antisymmetric(a: Seq<char>, b: Seq<char>)
    requires
        text_le(a, b),
        text_le(b, a),
    ensures
        a == b,
    decreases a.len(),
{
    if a.len() > 0 && b.len() > 0 {
        lemma_text_antisymmetric(a.drop_first(), b.drop_first());
        assert(a =~= seq![a[0]] + a.drop_first());
        assert(b =~= seq![b[0]] + b.drop_first());
    } else {
        assert(a =~= b);
    }
}

/// Two places of an ordered list of records hold records of different keys.
proof fn lemma_apart<K, V>(s: Seq<V>, ks: Seq<K>, m: Map<K, V>, i: int, j: int)
    requires
        holds_each(s, ks, m),
        0 <= i < j < s.len(),
    ensures
        ks[i] != ks[j],
        m.contains_key(ks[i]),
        m.contains_key(ks[j]),
        s[i] == m[ks[i]],
        s[j] == m[ks[j]],
{
    assert(ks.to_set().contains(ks[i]));
    assert(ks.to_set().contains(ks[j]));
    assert(s[i] == m[ks[i]]);
    assert(s[j] == m[ks[j]]);
}

/// Where each record is kept under its own name, the listed bindings stand strictly by address of
/// record: no address is listed twice.
pub proof fn bindings_are_listed_strictly(s: SipView, regs: Seq<RegistrationView>, i: int, j: int)
    requires
        keyed(s),
        arranges::<Registration, Seq<char>>(regs, s.registrations),
        0 <= i < j < regs.len(),
    ensures
        text_le(regs[i].aor, regs[j].aor),
        !text_le(regs[j].aor, regs[i].aor),
{
    let ks = choose|ks: Seq<Seq<char>>| #[trigger] holds_each(regs, ks, s.registrations);
    lemma_apart(regs, ks, s.registrations, i, j);
    assert(Registration::le(regs[i], regs[j]));
    if text_le(regs[j].aor, regs[i].aor) {
        lemma_text_antisymmetric(regs[i].aor, regs[j].aor);
    }
}

/// Where each record is kept under its own name, the listed trunks stand strictly by name: no trunk
/// is listed twice.
pub proof fn trunks_are_listed_strictly(s: SipView, trunks: Seq<TrunkStateView>, i: int, j: int)
    requires
        keyed(s),
        arranges::<TrunkState, Seq<char>>(trunks, s.trunks),
        0 <= i < j < trunks.len(),
    ensures
        text_le(trunks[i].name, trunks[j].name),
        !text_le(trunks[j].name, trunks[i].name),
{
    let ks = choose|ks: Seq<Seq<char>>| #[trigger] holds_each(trunks, ks, s.trunks);
    lemma_apart(trunks, ks, s.trunks, i, j);
    assert(TrunkState::le(trunks[i], trunks[j]));
    if text_le(trunks[j].name, trunks[i].name) {
        lemma_text_antisymmetric(trunks[i].name, trunks[j].name);
    }
}

} // verus!
