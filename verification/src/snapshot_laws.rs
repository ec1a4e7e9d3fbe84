//! What the dashboard is shown, told record by record.
use crate::sip_state::{
    Registration, RegistrationView, SipCall, SipCallView, SipView, TrunkState, TrunkStateView,
};
use crate::snapshot::{arranges, holds_each, newest_first, text_le};
use vstd::prelude::*;

verus! {

/// Texts are in dictionary order: what they begin with alike does not count, the first difference
/// does, and a text stands before every longer one that begins with it.
pub proof fn texts_are_in_dictionary_order(
    p: Seq<char>,
    x: char,
    a: Seq<char>,
    y: char,
    b: Seq<char>,
)
    requires
        (x as int) < (y as int),
    ensures
        text_le(p + seq![x] + a, p + seq![y] + b),
        !text_le(p + seq![y] + b, p + seq![x] + a),
        text_le(p, p + a),
        a.len() > 0 ==> !text_le(p + a, p),
    decreases p.len(),
{
    let s = p + seq![x] + a;
    let t = p + seq![y] + b;
    if p.len() == 0 {
        assert(s[0] == x && t[0] == y);
        assert(p + a =~= a);
    } else {
        let q = p.drop_first();
        texts_are_in_dictionary_order(q, x, a, y, b);
        assert(s[0] == p[0] && t[0] == p[0] && (p + a)[0] == p[0]);
        assert(s.drop_first() =~= q + seq![x] + a);
        assert(t.drop_first() =~= q + seq![y] + b);
        assert((p + a).drop_first() =~= q + a);
    }
}

proof fn lemma_all_there<K, V>(s: Seq<V>, ks: Seq<K>, m: Map<K, V>, k: K)
    requires
        holds_each(s, ks, m),
        m.contains_key(k),
    ensures
        s.contains(m[k]),
{
    assert(ks.to_set().contains(k));
    let i = choose|i: int| 0 <= i < ks.len() && ks[i] == k;
    assert(s[i] == m[ks[i]]);
}

/// Every binding, trunk and call is shown: the bindings by address, the trunks by name, and the calls
/// with the latest first.
pub proof fn every_record_is_shown(
    s: SipView,
    regs: Seq<RegistrationView>,
    trunks: Seq<TrunkStateView>,
    calls: Seq<SipCallView>,
    k: Seq<char>,
)
    requires
        arranges::<Registration, Seq<char>>(regs, s.registrations),
        arranges::<TrunkState, Seq<char>>(trunks, s.trunks),
        arranges::<SipCall, Seq<char>>(calls, s.calls),
    ensures
        s.registrations.contains_key(k) ==> regs.contains(s.registrations[k]),
        s.trunks.contains_key(k) ==> trunks.contains(s.trunks[k]),
        s.calls.contains_key(k) ==> calls.contains(s.calls[k]),
        forall|i: int, j: int|
            0 <= i < j < regs.len() ==> text_le((#[trigger] regs[i]).aor, (#[trigger] regs[j]).aor),
        forall|i: int, j: int|
            0 <= i < j < trunks.len() ==> text_le(
                (#[trigger] trunks[i]).name,
                (#[trigger] trunks[j]).name,
            ),
        forall|i: int, j: int|
            0 <= i < j < calls.len() ==> (#[trigger] calls[i]).started_at_ms >= (
            #[trigger] calls[j]).started_at_ms,
{
    let rk = choose|ks: Seq<Seq<char>>| #[trigger] holds_each(regs, ks, s.registrations);
    let tk = choose|ks: Seq<Seq<char>>| #[trigger] holds_each(trunks, ks, s.trunks);
    let ck = choose|ks: Seq<Seq<char>>| #[trigger] holds_each(calls, ks, s.calls);
    if s.registrations.contains_key(k) {
        lemma_all_there(regs, rk, s.registrations, k);
    }
    if s.trunks.contains_key(k) {
        lemma_all_there(trunks, tk, s.trunks, k);
    }
    if s.calls.contains_key(k) {
        lemma_all_there(calls, ck, s.calls, k);
    }
}

/// Nothing is shown that is not there: every entry is the record of some key, and no two entries are
/// of the same key.
pub proof fn nothing_else_is_shown<V>(s: Seq<V>, ks: Seq<Seq<char>>, m: Map<Seq<char>, V>, i: int, j: int)
    requires
        holds_each(s, ks, m),
        0 <= i < s.len(),
        0 <= j < s.len(),
        i != j,
    ensures
        m.contains_key(ks[i]) && s[i] == m[ks[i]],
        ks[i] != ks[j],
{
    assert(ks.to_set().contains(ks[i]));
    assert(s[i] == m[ks[i]]);
}

/// The calls are named once each, those that started later before those that started earlier.
pub proof fn calls_are_named_latest_first(
    ids: Seq<Seq<char>>,
    calls: Map<Seq<char>, SipCallView>,
    k: Seq<char>,
    i: int,
    j: int,
)
    requires
        newest_first(ids, calls),
        0 <= i < j < ids.len(),
    ensures
        ids.contains(k) <==> calls.contains_key(k),
        ids[i] != ids[j],
        calls[ids[i]].started_at_ms >= calls[ids[j]].started_at_ms,
{
    assert(ids.contains(k) == ids.to_set().contains(k));
}

} // verus!
