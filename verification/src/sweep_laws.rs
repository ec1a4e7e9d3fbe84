//! What the sweeps end and what they leave, told call by call.
use crate::brew::{ActionView, BrewView, CallKind, CallState, CallView, ClientMode, FrameView, Now};
use crate::bridge::{forced, Both};
use crate::calls::{call_forced, calls_forced, in_sweep_order, overdue, too_long};
use crate::config::Config;
use crate::peer_laws::farewell_to;
use crate::router_laws::{clients_where, takes_part};
use crate::sip_state::{call_ended, lists_ids, SipView};
use crate::sip_state_laws::idle_is_silent_on_every_leg;
use crate::sweep::{
    end_all, end_all_is_without, first_those, lists_call, lists_calls, outlived, seconds_ns,
    timed_out,
};
use crate::transport::{SipActionView, TokensView, TransportView};
use vstd::prelude::*;

verus! {

// ---- calls on the Brew side ----

/// Whether a client stands for the SIP side: a terminal without an address.
pub open spec fn stands_for_sip(s: BrewView, c: u128) -> bool {
    s.clients.contains_key(c) && s.clients[c].mode == ClientMode::Terminal
        && s.clients[c].remote_addr is None
}

/// Whether a call is due to be ended: it has run for the longest time that is configured, or it has
/// been silent for as long as is configured and nobody in it stands for the SIP side. A limit of
/// nothing is no limit.
pub open spec fn due(s: BrewView, config: Config, now: Now, call: CallView) -> bool {
    ||| config.max_call_duration_seconds > 0 && call.started_at
        + config.max_call_duration_seconds * 1_000_000_000 <= now.mono_ns
    ||| config.call_inactivity_timeout_seconds > 0 && call.last_activity_ms
        + config.call_inactivity_timeout_seconds * 1000 <= now.epoch_ms && forall|c: u128|
        #[trigger] takes_part(call, c) ==> !stands_for_sip(s, c)
}

/// What tells of the end of a call: everyone in it but its owner gets a frame, its end is reported,
/// and its bridge is torn down.
pub open spec fn told_of_the_end(s: BrewView, id: u128, a: Seq<ActionView>, k: int) -> bool {
    let call = s.calls[id];
    &&& a[k] == (ActionView::Send {
        to: clients_where(s, |c: u128| c != call.owner && call.peers.contains(c)),
        frame: FrameView::CallCause {
            state: if call.kind == CallKind::Group {
                CallState::GroupIdle
            } else {
                CallState::Release
            },
            call: id,
            cause: 0,
        },
    })
    &&& a[k + 1] == (ActionView::CallEnded { id })
    &&& a[k + 2] == (ActionView::TeardownBridge { id })
}

/// Whether a call is in the list.
pub open spec fn listed(l: Seq<(u128, u128, CallKind)>, id: u128) -> bool {
    exists|i: int| 0 <= i < l.len() && (#[trigger] l[i]).0 == id
}

proof fn lemma_swept(s: BrewView, l: Seq<(u128, u128, CallKind)>)
    requires
        forall|i: int, j: int| 0 <= i < j < l.len() ==> (#[trigger] l[i]).0 != (#[trigger] l[j]).0,
        forall|i: int| 0 <= i < l.len() ==> lists_call(#[trigger] l[i], s.calls),
    ensures
        ({
            let (t, a) = end_all(s, l);
            &&& a.len() == 3 * l.len()
            &&& forall|i: int| 0 <= i < l.len() ==> told_of_the_end(s, (#[trigger] l[i]).0, a, 3 * i)
            &&& t.clients == s.clients
            &&& forall|id: u128|
                s.calls.contains_key(id) && !listed(l, id) ==> #[trigger] t.calls.contains_key(id)
                    && t.calls[id] == s.calls[id]
        }),
    decreases l.len(),
{
    if l.len() == 0 {
        assert(end_all(s, l) == (s, Seq::<ActionView>::empty()));
    } else {
        let m = l.drop_last();
        let n = l.len() - 1;
        assert forall|i: int, j: int| 0 <= i < j < m.len() implies (#[trigger] m[i]).0 != (
        #[trigger] m[j]).0 by {
            assert(m[i] == l[i] && m[j] == l[j]);
        }
        assert forall|i: int| 0 <= i < m.len() implies lists_call(#[trigger] m[i], s.calls) by {
            assert(m[i] == l[i]);
        }
        lemma_swept(s, m);
        let (s1, done) = end_all(s, m);
        let (id, owner, kind) = l.last();
        assert(l[n] == l.last());
        assert(lists_call(l[n], s.calls));
        assert(!listed(m, id)) by {
            assert forall|i: int| 0 <= i < m.len() implies (#[trigger] m[i]).0 != id by {
                assert(l[i].0 != l[n].0);
            }
        }
        assert(s1.calls.contains_key(id) && s1.calls[id] == s.calls[id]);
        let (t, a) = end_all(s, l);
        let call = s.calls[id];
        assert(s1.connected(crate::router::others(call, owner)) =~= clients_where(
            s,
            |c: u128| c != call.owner && call.peers.contains(c),
        ));
        assert(a.len() == done.len() + 3);
        assert(told_of_the_end(s, id, a, 3 * n));
        assert forall|i: int| 0 <= i < l.len() implies told_of_the_end(
            s,
            (#[trigger] l[i]).0,
            a,
            3 * i,
        ) by {
            if i < n {
                assert(m[i] == l[i]);
                assert(told_of_the_end(s, m[i].0, done, 3 * i));
                assert(a[3 * i] == done[3 * i] && a[3 * i + 1] == done[3 * i + 1] && a[3 * i + 2]
                    == done[3 * i + 2]);
            }
        }
        assert forall|k: u128|
            s.calls.contains_key(k) && !listed(l, k) implies #[trigger] t.calls.contains_key(k)
            && t.calls[k] == s.calls[k] by {
            assert(l[n].0 != k);
            assert(!listed(m, k)) by {
                assert forall|i: int| 0 <= i < m.len() implies (#[trigger] m[i]).0 != k by {
                    assert(m[i] == l[i]);
                }
            }
            assert(s1.calls.contains_key(k));
        }
        assert(t.clients == s.clients);
        assert(a.len() == 3 * l.len());
    }
}

proof fn lemma_due(s: BrewView, config: Config, now: Now, call: CallView)
    requires
        config.call_inactivity_timeout_seconds <= u64::MAX / 1000,
    ensures
        timed_out(s, config, now)(call) <==> due(s, config, now, call),
{
    let apart = call.participants().disjoint(s.bridged());
    let nobody = forall|c: u128| #[trigger] takes_part(call, c) ==> !stands_for_sip(s, c);
    assert(apart == nobody) by {
        if nobody {
            assert forall|c: u128| !(call.participants().contains(c) && s.bridged().contains(c)) by {
                assert(takes_part(call, c) ==> !stands_for_sip(s, c));
            }
        }
        if apart {
            assert forall|c: u128| #[trigger] takes_part(call, c) implies !stands_for_sip(s, c) by {
                assert(call.participants().contains(c));
            }
        }
    }
}

/// A sweep ends exactly the calls that are due. Each is told of as if its owner had hung up; the
/// others stay, and every floor stays but those that an ended call held.
pub proof fn sweep_ends_what_is_due(
    s: BrewView,
    config: Config,
    now: Now,
    l: Seq<(u128, u128, CallKind)>,
    id: u128,
    g: u32,
)
    requires
        config.call_inactivity_timeout_seconds <= u64::MAX / 1000,
        lists_calls(l, s.calls, timed_out(s, config, now)),
    ensures
        ({
            let (t, a) = end_all(s, l);
            let ends = s.calls.contains_key(id) && due(s, config, now, s.calls[id]);
            let floor = s.group_floor[g];
            &&& t.calls.contains_key(id) <==> s.calls.contains_key(id) && !ends
            &&& t.calls.contains_key(id) ==> t.calls[id] == s.calls[id]
            &&& ends ==> exists|i: int|
                0 <= i < l.len() && (#[trigger] l[i]).0 == id && told_of_the_end(s, id, a, 3 * i)
            &&& a.len() == 3 * l.len()
            &&& forall|i: int|
                0 <= i < l.len() ==> s.calls.contains_key((#[trigger] l[i]).0) && due(
                    s,
                    config,
                    now,
                    s.calls[l[i].0],
                )
            &&& t.group_floor.contains_key(g) <==> s.group_floor.contains_key(g) && !(
            s.calls.contains_key(floor) && due(s, config, now, s.calls[floor])
                && s.calls[floor].kind == CallKind::Group && s.calls[floor].destination == g)
            &&& t.group_floor.contains_key(g) ==> t.group_floor[g] == floor
            &&& t == (BrewView { calls: t.calls, group_floor: t.group_floor, ..s })
        }),
{
    let test = timed_out(s, config, now);
    end_all_is_without(s, l, test);
    lemma_swept(s, l);
    lemma_due(s, config, now, s.calls[id]);
    lemma_due(s, config, now, s.calls[s.group_floor[g]]);
    assert forall|i: int| 0 <= i < l.len() implies s.calls.contains_key((#[trigger] l[i]).0) && due(
        s,
        config,
        now,
        s.calls[l[i].0],
    ) by {
        assert(lists_call(l[i], s.calls) && test(s.calls[l[i].0]));
        lemma_due(s, config, now, s.calls[l[i].0]);
    }
}

// ---- calls on the SIP side ----

/// The sweep of SIP calls takes exactly those that have run for the limit, and those that were
/// answered and heard nothing on any leg for the timeout. A limit of nothing is no limit.
pub proof fn sip_sweep_takes_what_is_due(s: SipView, limit: u64, idle: u64, now: Now, k: Seq<char>)
    requires
        limit <= u64::MAX / 1000,
        idle <= u64::MAX / 1000,
    ensures
        overdue(s, limit, idle, now)(k) <==> {
            ||| limit > 0 && s.calls[k].started_at_ms + limit * 1000 <= now.epoch_ms
            ||| {
                &&& idle > 0
                &&& s.calls[k].answered_at_ms matches Some(a) && a + idle * 1000 <= now.epoch_ms
                &&& s.media.contains_key(k) ==> forall|i: int|
                    0 <= i < s.media[k].len() ==> (#[trigger] s.media[k][i]) + idle * 1000
                        <= now.epoch_ms
            }
        },
{
    if idle > 0 {
        idle_is_silent_on_every_leg(s, k, (idle * 1000) as u64, now.epoch_ms);
    }
}

/// A SIP call that is swept is ended on both sides: its relay is stopped, both peers of it get a BYE,
/// it is ended on the Brew side where there is a bridge, and its record is gone.
pub proof fn swept_call_says_bye(x: Both, id: Seq<char>, tok: TokensView)
    ensures
        ({
            let (y, actions) = call_forced(x, id, tok);
            let t = x.bridge.transport;
            let host = t.advertised_host;
            let r = t.relays[id];
            let bridged = forced(x, id, tok);
            &&& y.bridge.transport == (TransportView {
                sip: call_ended(t.sip, id),
                relays: t.relays.remove(id),
                ..t
            })
            &&& t.bridge ==> y.brew == bridged.0.brew && y.bridge.legs == x.bridge.legs.remove(id)
            &&& !t.bridge ==> y.brew == x.brew && y.bridge.legs == x.bridge.legs
            &&& actions == (if t.relays.contains_key(id) {
                seq![SipActionView::AbortRelay { call_id: id }] + (match r.caller {
                    Some(d) => seq![farewell_to(host, d, id, tok.dialog_branch)],
                    None => seq![],
                }) + seq![farewell_to(host, r.callee, id, tok.branch)]
            } else {
                seq![]
            }) + (if t.bridge {
                bridged.1
            } else {
                seq![]
            })
        }),
{
    let (y, actions) = call_forced(x, id, tok);
    assert(y.bridge.legs =~= if x.bridge.transport.bridge {
        x.bridge.legs.remove(id)
    } else {
        x.bridge.legs
    });
}

/// A sweep leaves nothing of the calls that it takes: no record, clock, relay or bridged leg; the
/// record, the clocks, the relay and the bridged leg of every other call stay as they were.
pub proof fn sweep_leaves_the_others(
    x: Both,
    ids: Seq<Seq<char>>,
    toks: Seq<TokensView>,
    k: Seq<char>,
)
    requires
        ids.len() == toks.len(),
    ensures
        ({
            let y = calls_forced(x, ids, toks).0;
            let t = x.bridge.transport;
            let u = y.bridge.transport;
            let gone = ids.contains(k);
            &&& u.sip.calls.contains_key(k) <==> t.sip.calls.contains_key(k) && !gone
            &&& !gone && t.sip.calls.contains_key(k) ==> u.sip.calls[k] == t.sip.calls[k]
            &&& u.sip.media.contains_key(k) <==> t.sip.media.contains_key(k) && !gone
            &&& !gone && t.sip.media.contains_key(k) ==> u.sip.media[k] == t.sip.media[k]
            &&& u.relays.contains_key(k) <==> t.relays.contains_key(k) && !gone
            &&& !gone && t.relays.contains_key(k) ==> u.relays[k] == t.relays[k]
            &&& y.bridge.legs.contains_key(k) <==> x.bridge.legs.contains_key(k) && !(gone
                && t.bridge)
            &&& !gone && x.bridge.legs.contains_key(k) ==> y.bridge.legs[k] == x.bridge.legs[k]
            &&& u.bridge == t.bridge && u.nonces == t.nonces && u.advertised_host
                == t.advertised_host
            &&& u.sip.registrations == t.sip.registrations
        }),
    decreases ids.len(),
{
    if ids.len() > 0 {
        let m = ids.drop_last();
        sweep_leaves_the_others(x, m, toks.drop_last(), k);
        let y = calls_forced(x, m, toks.drop_last()).0;
        swept_call_says_bye(y, ids.last(), toks.last());
        let n = ids.len() - 1;
        assert(ids[n] == ids.last());
        assert(ids.contains(k) == (m.contains(k) || k == ids.last())) by {
            if ids.contains(k) {
                let i = choose|i: int| 0 <= i < ids.len() && ids[i] == k;
                if i < n {
                    assert(m[i] == k);
                }
            }
            if m.contains(k) {
                let i = choose|i: int| 0 <= i < m.len() && m[i] == k;
                assert(ids[i] == k);
            }
        }
    }
}

// ---- the order of the sweeps ----

/// A sweep of the Brew side ends the calls that have run too long before those that have only gone
/// silent.
pub proof fn long_calls_are_ended_first(
    l: Seq<(u128, u128, CallKind)>,
    calls: Map<u128, CallView>,
    config: Config,
    now: Now,
    i: int,
    j: int,
)
    requires
        first_those(l, calls, outlived(seconds_ns(config.max_call_duration_seconds), now)),
        0 <= i < j < l.len(),
        config.max_call_duration_seconds > 0,
        calls[l[j].0].started_at + config.max_call_duration_seconds * 1_000_000_000 <= now.mono_ns,
    ensures
        calls[l[i].0].started_at + config.max_call_duration_seconds * 1_000_000_000 <= now.mono_ns,
{
    let long = outlived(seconds_ns(config.max_call_duration_seconds), now);
    assert(long(calls[l[j].0]));
    assert(long(calls[l[i].0]));
}

/// A sweep of the SIP side ends the calls that have run for the limit first, those that started later
/// before those that started earlier, and then those that have only gone silent.
pub proof fn long_sip_calls_are_ended_first(
    l: Seq<Seq<char>>,
    s: SipView,
    limit: u64,
    now: Now,
    i: int,
    j: int,
)
    requires
        in_sweep_order(l, s, limit, now),
        0 <= i < j < l.len(),
        0 < limit <= u64::MAX / 1000,
        s.calls[l[j]].started_at_ms + limit * 1000 <= now.epoch_ms,
    ensures
        s.calls[l[i]].started_at_ms + limit * 1000 <= now.epoch_ms,
        s.calls[l[i]].started_at_ms >= s.calls[l[j]].started_at_ms,
{
    assert(too_long(s, l[j], limit, now));
    assert(too_long(s, l[i], limit, now));
}

/// A list of SIP calls that meet a test has every one of them, once, and no other call.
pub proof fn listed_calls_meet_the_test(
    l: Seq<Seq<char>>,
    s: SipView,
    test: spec_fn(Seq<char>) -> bool,
    k: Seq<char>,
)
    requires
        lists_ids(l, s.calls, test),
    ensures
        l.contains(k) <==> s.calls.contains_key(k) && test(k),
        forall|i: int, j: int| 0 <= i < j < l.len() ==> l[i] != l[j],
{
    if l.contains(k) {
        let i = choose|i: int| 0 <= i < l.len() && l[i] == k;
        assert(s.calls.contains_key(l[i]));
    }
}

} // verus!
