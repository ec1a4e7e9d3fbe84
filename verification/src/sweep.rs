//! The end of calls that have run too long or gone silent.
use crate::brew::{
    actions_view, bridged_clients, since, Action, ActionView, ActiveCall, BrewState, BrewView,
    CallKind, CallState, CallView, Frame, FrameView, Now,
};
use crate::config::Config;
use crate::router::{end_call, ended};
use crate::table::{lists, KeySet, Table};
use vstd::prelude::*;

verus! {

/// Whether the call has run for `limit_ns` (0 for no limit).
pub open spec fn outlived(limit_ns: u128, now: Now) -> spec_fn(CallView) -> bool {
    |call: CallView| limit_ns > 0 && since(call.started_at as int, now.mono_ns as int) >= limit_ns
}

/// Whether the call has been silent for `idle_ms` (0 for no limit) and no bridged client is in it.
pub open spec fn silent(idle_ms: u64, bridged: Set<u128>, now: Now) -> spec_fn(CallView) -> bool {
    |call: CallView|
        idle_ms > 0 && since(call.last_activity_ms as int, now.epoch_ms as int) >= idle_ms
            && call.participants().disjoint(bridged)
}

/// `l` lists the calls that meet the test, each once, with its owner and kind.
pub open spec fn lists_calls(
    l: Seq<(u128, u128, CallKind)>,
    calls: Map<u128, CallView>,
    test: spec_fn(CallView) -> bool,
) -> bool {
    &&& forall|i: int, j: int| 0 <= i < j < l.len() ==> (#[trigger] l[i]).0 != (#[trigger] l[j]).0
    &&& forall|i: int| 0 <= i < l.len() ==> lists_call(#[trigger] l[i], calls) && test(calls[l[i].0])
    &&& forall|id: u128| #[trigger]
        calls.contains_key(id) && test(calls[id]) ==> exists|i: int|
            0 <= i < l.len() && (#[trigger] l[i]).0 == id
}

/// The entry names a call, with its owner and kind.
pub open spec fn lists_call(e: (u128, u128, CallKind), calls: Map<u128, CallView>) -> bool {
    calls.contains_key(e.0) && calls[e.0].owner == e.1 && calls[e.0].kind == e.2
}

/// The calls that have run for `limit_ns` (0 for no limit).
pub fn expired_calls(calls: &Table<u128, ActiveCall>, limit_ns: u128, now: Now) -> (r: Vec<
    (u128, u128, CallKind),
>)
    ensures
        lists_calls(r@, calls@, outlived(limit_ns, now)),
{
    let mut out: Vec<(u128, u128, CallKind)> = Vec::new();
    if limit_ns == 0 {
        return out;
    }
    let ghost test = outlived(limit_ns, now);
    let n = calls.len();
    let mut i: usize = 0;
    while i < n
        invariant
            i <= n,
            n == calls.items().len(),
            lists(calls.items(), calls@),
            limit_ns > 0,
            test == outlived(limit_ns, now),
            forall|a: int, b: int|
                0 <= a < b < out@.len() ==> (#[trigger] out@[a]).0 != (#[trigger] out@[b]).0,
            forall|a: int|
                0 <= a < out@.len() ==> lists_call(#[trigger] out@[a], calls@) && test(
                    calls@[out@[a].0],
                ) && exists|j: int| 0 <= j < i && #[trigger] calls.items()[j].0 == out@[a].0,
            forall|j: int|
                0 <= j < i && test((#[trigger] calls.items()[j]).1) ==> exists|a: int|
                    0 <= a < out@.len() && (#[trigger] out@[a]).0 == calls.items()[j].0,
        decreases n - i,
    {
        let call = calls.value_at(i);
        let id = *calls.key_at(i);
        assert(calls.items()[i as int].0 == id);
        let ghost before = out@;
        if call.elapsed_ns(now) >= limit_ns {
            assert forall|a: int| 0 <= a < before.len() implies before[a].0 != id by {
                let j = choose|j: int| 0 <= j < i && #[trigger] calls.items()[j].0 == before[a].0;
                assert(calls.items()[j].0 != calls.items()[i as int].0);
            }
            out.push((id, call.owner, call.kind));
            assert(out@[before.len() as int].0 == id);
            assert forall|j: int| 0 <= j < i && test((#[trigger] calls.items()[j]).1) implies exists|a: int|
                0 <= a < out@.len() && (#[trigger] out@[a]).0 == calls.items()[j].0 by {
                let a = choose|a: int| 0 <= a < before.len() && (#[trigger] before[a]).0 == calls.items()[j].0;
                assert(out@[a].0 == calls.items()[j].0);
            }
        }
        i += 1;
    }
    assert forall|id: u128| #[trigger] calls@.contains_key(id) && test(calls@[id]) implies exists|a: int|
        0 <= a < out@.len() && (#[trigger] out@[a]).0 == id by {
        assert(crate::table::has_key(calls.items(), id));
        let j = choose|j: int| 0 <= j < n && #[trigger] calls.items()[j].0 == id;
        assert(calls.items()[j].0 == id);
    }
    out
}

fn none_in(keys: &KeySet<u128>, set: &KeySet<u128>) -> (r: bool)
    ensures
        r == keys@.disjoint(set@),
{
    let n = keys.len();
    let mut i: usize = 0;
    while i < n
        invariant
            i <= n,
            n == keys.items().len(),
            keys.items().to_set() == keys@,
            forall|j: int| 0 <= j < i ==> !set@.contains(#[trigger] keys.items()[j]),
        decreases n - i,
    {
        let k = keys.at(i);
        if set.contains(k) {
            assert(keys@.contains(k@));
            return false;
        }
        i += 1;
    }
    assert forall|k: u128| keys@.contains(k) implies !set@.contains(k) by {
        assert(keys.items().to_set().contains(k));
        let j = choose|j: int| 0 <= j < keys.items().len() && keys.items()[j] == k;
        assert(!set@.contains(keys.items()[j]));
    }
    true
}

/// The calls that have been silent for `idle_ms` (0 for no limit) and have no bridged client.
pub fn idle_calls(
    calls: &Table<u128, ActiveCall>,
    idle_ms: u64,
    bridged: &KeySet<u128>,
    now: Now,
) -> (r: Vec<(u128, u128, CallKind)>)
    ensures
        lists_calls(r@, calls@, silent(idle_ms, bridged@, now)),
{
    let mut out: Vec<(u128, u128, CallKind)> = Vec::new();
    if idle_ms == 0 {
        return out;
    }
    let ghost test = silent(idle_ms, bridged@, now);
    let n = calls.len();
    let mut i: usize = 0;
    while i < n
        invariant
            i <= n,
            n == calls.items().len(),
            lists(calls.items(), calls@),
            idle_ms > 0,
            test == silent(idle_ms, bridged@, now),
            forall|a: int, b: int|
                0 <= a < b < out@.len() ==> (#[trigger] out@[a]).0 != (#[trigger] out@[b]).0,
            forall|a: int|
                0 <= a < out@.len() ==> lists_call(#[trigger] out@[a], calls@) && test(
                    calls@[out@[a].0],
                ) && exists|j: int| 0 <= j < i && #[trigger] calls.items()[j].0 == out@[a].0,
            forall|j: int|
                0 <= j < i && test((#[trigger] calls.items()[j]).1) ==> exists|a: int|
                    0 <= a < out@.len() && (#[trigger] out@[a]).0 == calls.items()[j].0,
        decreases n - i,
    {
        let call = calls.value_at(i);
        let id = *calls.key_at(i);
        assert(calls.items()[i as int].0 == id);
        let ghost before = out@;
        let apart = !bridged.contains(&call.owner) && none_in(&call.peers, bridged);
        assert(apart == call@.participants().disjoint(bridged@)) by {
            if call@.participants().disjoint(bridged@) {
                assert(call@.participants().contains(call@.owner));
                assert forall|p: u128| call@.peers.contains(p) implies !bridged@.contains(p) by {
                    assert(call@.participants().contains(p));
                }
            }
        }
        if call.idle_ms(now) >= idle_ms && apart {
            assert forall|a: int| 0 <= a < before.len() implies before[a].0 != id by {
                let j = choose|j: int| 0 <= j < i && #[trigger] calls.items()[j].0 == before[a].0;
                assert(calls.items()[j].0 != calls.items()[i as int].0);
            }
            out.push((id, call.owner, call.kind));
            assert(out@[before.len() as int].0 == id);
            assert forall|j: int| 0 <= j < i && test((#[trigger] calls.items()[j]).1) implies exists|a: int|
                0 <= a < out@.len() && (#[trigger] out@[a]).0 == calls.items()[j].0 by {
                let a = choose|a: int| 0 <= a < before.len() && (#[trigger] before[a]).0 == calls.items()[j].0;
                assert(out@[a].0 == calls.items()[j].0);
            }
        }
        i += 1;
    }
    assert forall|id: u128| #[trigger] calls@.contains_key(id) && test(calls@[id]) implies exists|a: int|
        0 <= a < out@.len() && (#[trigger] out@[a]).0 == id by {
        assert(crate::table::has_key(calls.items(), id));
        let j = choose|j: int| 0 <= j < n && #[trigger] calls.items()[j].0 == id;
        assert(calls.items()[j].0 == id);
    }
    out
}

/// Nanoseconds in so many seconds.
pub open spec fn seconds_ns(seconds: u64) -> u128 {
    (seconds * 1_000_000_000) as u128
}

/// Whether the configuration has the call ended now.
pub open spec fn timed_out(s: BrewView, config: Config, now: Now) -> spec_fn(CallView) -> bool {
    |call: CallView|
        outlived(seconds_ns(config.max_call_duration_seconds), now)(call) || silent(
            (config.call_inactivity_timeout_seconds * 1000) as u64,
            s.bridged(),
            now,
        )(call)
}

/// Every call of the list that meets the test comes before every call that does not.
pub open spec fn first_those(
    l: Seq<(u128, u128, CallKind)>,
    calls: Map<u128, CallView>,
    test: spec_fn(CallView) -> bool,
) -> bool {
    forall|i: int, j: int|
        0 <= i < j < l.len() && test(calls[(#[trigger] l[j]).0]) ==> test(
            calls[(#[trigger] l[i]).0],
        )
}

/// The message that ends a call.
pub open spec fn ending(kind: CallKind, id: u128) -> FrameView {
    FrameView::CallCause {
        state: if kind == CallKind::Group {
            CallState::GroupIdle
        } else {
            CallState::Release
        },
        call: id,
        cause: 0,
    }
}

/// What it changes and causes to end the listed calls one after the other, as if the owner of each
/// had hung up.
pub open spec fn end_all(s: BrewView, l: Seq<(u128, u128, CallKind)>) -> (BrewView, Seq<ActionView>)
    decreases l.len(),
{
    if l.len() == 0 {
        (s, Seq::empty())
    } else {
        let (s1, done) = end_all(s, l.drop_last());
        let (id, owner, kind) = l.last();
        let (s2, more) = ended(s1, owner, id, ending(kind, id));
        (s2, done + more)
    }
}

/// The state once the calls that meet the test are gone, and with them the floors that they held.
pub open spec fn without(s: BrewView, test: spec_fn(CallView) -> bool) -> BrewView {
    BrewView {
        calls: Map::new(
            |id: u128| s.calls.contains_key(id) && !test(s.calls[id]),
            |id: u128| s.calls[id],
        ),
        group_floor: Map::new(
            |g: u32|
                s.group_floor.contains_key(g) && !(holds_floor(s, g) && test(
                    s.calls[s.group_floor[g]],
                )),
            |g: u32| s.group_floor[g],
        ),
        ..s
    }
}

/// Whether the floor of the group is held by a call to that group.
pub open spec fn holds_floor(s: BrewView, g: u32) -> bool {
    let id = s.group_floor[g];
    s.group_floor.contains_key(g) && s.calls.contains_key(id) && s.calls[id].kind == CallKind::Group
        && s.calls[id].destination == g
}

spec fn in_list(l: Seq<(u128, u128, CallKind)>, id: u128) -> bool {
    exists|i: int| 0 <= i < l.len() && (#[trigger] l[i]).0 == id
}

spec fn state_after(s: BrewView, l: Seq<(u128, u128, CallKind)>) -> BrewView {
    BrewView {
        calls: Map::new(
            |id: u128| s.calls.contains_key(id) && !in_list(l, id),
            |id: u128| s.calls[id],
        ),
        group_floor: Map::new(
            |g: u32|
                s.group_floor.contains_key(g) && !(holds_floor(s, g) && in_list(l, s.group_floor[g])),
            |g: u32| s.group_floor[g],
        ),
        ..s
    }
}

proof fn lemma_end_all(s: BrewView, l: Seq<(u128, u128, CallKind)>)
    requires
        forall|i: int, j: int| 0 <= i < j < l.len() ==> (#[trigger] l[i]).0 != (#[trigger] l[j]).0,
        forall|i: int| 0 <= i < l.len() ==> lists_call(#[trigger] l[i], s.calls),
    ensures
        end_all(s, l).0 == state_after(s, l),
    decreases l.len(),
{
    if l.len() == 0 {
        assert(state_after(s, l) =~= s);
    } else {
        let m = l.drop_last();
        assert forall|i: int| 0 <= i < m.len() implies lists_call(#[trigger] m[i], s.calls) by {
            assert(m[i] == l[i]);
        }
        assert forall|i: int, j: int| 0 <= i < j < m.len() implies (#[trigger] m[i]).0 != (
        #[trigger] m[j]).0 by {
            assert(m[i] == l[i] && m[j] == l[j]);
        }
        lemma_end_all(s, m);
        let n = l.len() - 1;
        let id = l.last().0;
        assert(l[n] == l.last());
        assert(!in_list(m, id)) by {
            if in_list(m, id) {
                let i = choose|i: int| 0 <= i < m.len() && (#[trigger] m[i]).0 == id;
                assert(l[i].0 != l[n].0);
            }
        }
        assert forall|x: u128| in_list(l, x) == (in_list(m, x) || x == id) by {
            if in_list(l, x) {
                let i = choose|i: int| 0 <= i < l.len() && (#[trigger] l[i]).0 == x;
                if i < n {
                    assert(m[i].0 == x);
                }
            }
            if in_list(m, x) {
                let i = choose|i: int| 0 <= i < m.len() && (#[trigger] m[i]).0 == x;
                assert(l[i].0 == x);
            }
        }
        let s1 = state_after(s, m);
        assert(s1.calls.contains_key(id) && s1.calls[id] == s.calls[id]);
        let s2 = ended(s1, l.last().1, id, ending(l.last().2, id)).0;
        assert(s2.calls =~= state_after(s, l).calls);
        assert(s2.group_floor =~= state_after(s, l).group_floor) by {
            let call = s.calls[id];
            assert forall|g: u32| s2.group_floor.contains_key(g) == state_after(
                s,
                l,
            ).group_floor.contains_key(g) by {
                if s.group_floor.contains_key(g) && s.group_floor[g] == id {
                    assert(s1.group_floor.contains_key(g));
                }
            }
        }
        assert(s2 =~= state_after(s, l));
    }
}

/// Ending the calls that meet a test, in whatever order, leaves the same state: the one without
/// them.
pub proof fn end_all_is_without(
    s: BrewView,
    l: Seq<(u128, u128, CallKind)>,
    test: spec_fn(CallView) -> bool,
)
    requires
        lists_calls(l, s.calls, test),
    ensures
        end_all(s, l).0 == without(s, test),
{
    lemma_end_all(s, l);
    assert forall|id: u128| s.calls.contains_key(id) implies in_list(l, id) == test(s.calls[id]) by {
        if in_list(l, id) {
            let i = choose|i: int| 0 <= i < l.len() && (#[trigger] l[i]).0 == id;
            assert(lists_call(l[i], s.calls));
        }
    }
    assert(state_after(s, l).calls =~= without(s, test).calls);
    assert(state_after(s, l).group_floor =~= without(s, test).group_floor);
}

/// One round of the sweep: ends the calls that have run too long, and then those that have only gone
/// silent, each as if its owner had hung up.
pub fn run_call_duration_sweep(state: &mut BrewState, config: &Config, now: Now) -> (r: Vec<Action>)
    requires
        config.call_inactivity_timeout_seconds <= u64::MAX / 1000,
    ensures
        exists|l: Seq<(u128, u128, CallKind)>|
            {
                &&& #[trigger] lists_calls(l, old(state)@.calls, timed_out(old(state)@, *config, now))
                &&& first_those(
                    l,
                    old(state)@.calls,
                    outlived(seconds_ns(config.max_call_duration_seconds), now),
                )
                &&& (final(state)@, actions_view(r@)) == end_all(old(state)@, l)
            },
        final(state)@ == without(old(state)@, timed_out(old(state)@, *config, now)),
{
    let limit_ns: u128 = (config.max_call_duration_seconds as u128) * 1_000_000_000;
    let idle_ms: u64 = config.call_inactivity_timeout_seconds * 1000;
    let bridged = bridged_clients(&state.clients);
    assert(bridged@ =~= old(state)@.bridged());
    let ghost test = timed_out(old(state)@, *config, now);
    let mut list = expired_calls(&state.calls, limit_ns, now);
    let idle = idle_calls(&state.calls, idle_ms, &bridged, now);
    let ghost calls = old(state)@.calls;
    let ghost long = outlived(limit_ns, now);
    let ghost quiet = silent(idle_ms, bridged@, now);
    let ghost first = list@;
    let mut i: usize = 0;
    while i < idle.len()
        invariant
            i <= idle@.len(),
            lists_calls(first, calls, long),
            lists_calls(idle@, calls, quiet),
            test == timed_out(old(state)@, *config, now),
            long == outlived(limit_ns, now),
            quiet == silent(idle_ms, bridged@, now),
            limit_ns == seconds_ns(config.max_call_duration_seconds),
            idle_ms == (config.call_inactivity_timeout_seconds * 1000) as u64,
            bridged@ == old(state)@.bridged(),
            forall|a: int, b: int|
                0 <= a < b < list@.len() ==> (#[trigger] list@[a]).0 != (#[trigger] list@[b]).0,
            forall|a: int|
                0 <= a < list@.len() ==> lists_call(#[trigger] list@[a], calls) && test(
                    calls[list@[a].0],
                ),
            first.len() <= list@.len(),
            forall|a: int| 0 <= a < first.len() ==> #[trigger] list@[a] == first[a],
            forall|a: int|
                first.len() <= a < list@.len() ==> !long(calls[(#[trigger] list@[a]).0]),
            forall|b: int|
                0 <= b < i ==> exists|a: int|
                    0 <= a < list@.len() && (#[trigger] list@[a]).0 == (#[trigger] idle@[b]).0,
        decreases idle@.len() - i,
    {
        let c = idle[i];
        let mut seen = false;
        let mut k: usize = 0;
        while k < list.len()
            invariant
                k <= list@.len(),
                seen == exists|a: int| 0 <= a < k && (#[trigger] list@[a]).0 == c.0,
            decreases list@.len() - k,
        {
            if list[k].0 == c.0 {
                seen = true;
            }
            assert(list@[k as int].0 == list@[k as int].0);
            k += 1;
        }
        let ghost before = list@;
        assert(lists_call(idle@[i as int], calls));
        if !seen {
            assert(!long(calls[c.0])) by {
                if long(calls[c.0]) {
                    let a = choose|a: int| 0 <= a < first.len() && (#[trigger] first[a]).0 == c.0;
                    assert(before[a].0 == c.0);
                }
            }
            list.push(c);
        }
        assert forall|b: int| 0 <= b < i + 1 implies exists|a: int|
            0 <= a < list@.len() && (#[trigger] list@[a]).0 == (#[trigger] idle@[b]).0 by {
            if b < i {
                let a = choose|a: int| 0 <= a < before.len() && (#[trigger] before[a]).0 == idle@[b].0;
                assert(list@[a].0 == idle@[b].0);
            } else if seen {
                let a = choose|a: int| 0 <= a < before.len() && (#[trigger] before[a]).0 == c.0;
                assert(list@[a].0 == idle@[b].0);
            } else {
                assert(list@[before.len() as int].0 == idle@[b].0);
            }
        }
        i += 1;
    }
    let ghost l = list@;
    assert(lists_calls(l, calls, test)) by {
        assert forall|id: u128| #[trigger] calls.contains_key(id) && test(calls[id]) implies exists|a: int|
            0 <= a < l.len() && (#[trigger] l[a]).0 == id by {
            if long(calls[id]) {
                let a = choose|a: int| 0 <= a < first.len() && (#[trigger] first[a]).0 == id;
                assert(l[a].0 == id);
            } else {
                assert(quiet(calls[id]));
                let b = choose|b: int| 0 <= b < idle@.len() && (#[trigger] idle@[b]).0 == id;
                let a = choose|a: int| 0 <= a < l.len() && (#[trigger] l[a]).0 == idle@[b].0;
                assert(l[a].0 == id);
            }
        }
    }
    assert(first_those(l, calls, long)) by {
        assert forall|i: int, j: int|
            0 <= i < j < l.len() && long(calls[(#[trigger] l[j]).0]) implies long(
            calls[(#[trigger] l[i]).0],
        ) by {
            assert(l[i] == first[i]);
        }
    }
    let mut actions: Vec<Action> = Vec::new();
    let mut k: usize = 0;
    assert(actions_view(actions@) =~= Seq::<ActionView>::empty());
    while k < list.len()
        invariant
            k <= list@.len(),
            l == list@,
            (state@, actions_view(actions@)) == end_all(old(state)@, l.take(k as int)),
        decreases list@.len() - k,
    {
        let (id, owner, kind) = list[k];
        let release = if kind == CallKind::Group {
            CallState::GroupIdle
        } else {
            CallState::Release
        };
        let ghost done = actions@;
        let mut more = end_call(state, owner, id, Frame::CallCause { state: release, call: id, cause: 0 });
        let ghost new = more@;
        actions.append(&mut more);
        proof {
            let t = l.take(k + 1);
            assert(t.drop_last() =~= l.take(k as int));
            assert(t.last() == l[k as int]);
            assert(actions@ =~= done + new);
            assert(actions_view(done + new) =~= actions_view(done) + actions_view(new));
        }
        k += 1;
    }
    proof {
        assert(l.take(k as int) =~= l);
        end_all_is_without(old(state)@, l, test);
    }
    actions
}

} // verus!
