//! What becomes of registrations, trunks and calls, told record by record.
use crate::addr::SocketAddress;
use crate::sip_state::{
    blank, bound, call_answered, call_ended, call_ported, call_started, has_room, is_idle, last_rx,
    latest, live, purged, trunk_put, trunk_updated, unbound, LegView, RegistrationView, SipCallView,
    SipView, TrunkStateView, TrunkStatus,
};
use vstd::prelude::*;

verus! {

/// Whether an end of a call is on the trunk.
pub open spec fn on_trunk(ep: LegView, name: Seq<char>) -> bool {
    ep matches LegView::SipTrunk { trunk, .. } && trunk == name
}

/// How many ends of a call are on the trunk.
pub open spec fn ends_on(call: SipCallView, name: Seq<char>) -> int {
    (if on_trunk(call.from, name) {
        1int
    } else {
        0
    }) + (if on_trunk(call.to, name) {
        1int
    } else {
        0
    })
}

/// A call that starts is there under its Call-ID, is counted once, and is counted on each trunk once
/// for each of its ends there; nothing else changes.
pub proof fn started_call_is_counted(s: SipView, call: SipCallView, k: Seq<char>)
    requires
        has_room(s),
    ensures
        ({
            let t = call_started(s, call);
            &&& t.calls == s.calls.insert(call.call_id, call)
            &&& t.total_calls == s.total_calls + 1
            &&& t.trunks.contains_key(k) == s.trunks.contains_key(k)
            &&& s.trunks.contains_key(k) ==> t.trunks[k] == (TrunkStateView {
                active_calls: t.trunks[k].active_calls,
                ..s.trunks[k]
            }) && t.trunks[k].active_calls == s.trunks[k].active_calls + ends_on(call, k)
            &&& t == (SipView {
                calls: t.calls,
                total_calls: t.total_calls,
                trunks: t.trunks,
                ..s
            })
        }),
{
}

/// A call that ends is gone with its clocks, and is taken off each trunk once for each of its ends
/// there, never below nothing; the count of all calls stays, and nothing else changes.
pub proof fn ended_call_is_uncounted(s: SipView, call_id: Seq<char>, k: Seq<char>)
    ensures
        ({
            let t = call_ended(s, call_id);
            let ends = if s.calls.contains_key(call_id) {
                ends_on(s.calls[call_id], k)
            } else {
                0
            };
            &&& t.calls == s.calls.remove(call_id)
            &&& t.media == s.media.remove(call_id)
            &&& t.trunks.contains_key(k) == s.trunks.contains_key(k)
            &&& s.trunks.contains_key(k) ==> t.trunks[k] == (TrunkStateView {
                active_calls: t.trunks[k].active_calls,
                ..s.trunks[k]
            }) && t.trunks[k].active_calls == (if s.trunks[k].active_calls >= ends {
                s.trunks[k].active_calls - ends
            } else {
                0
            })
            &&& t == (SipView { calls: t.calls, media: t.media, trunks: t.trunks, ..s })
        }),
{
    assert(call_ended(s, call_id).calls =~= s.calls.remove(call_id));
}

/// An answered call carries the time of its answer and says so; it stays what it was otherwise, and
/// so does every other call. Where there is no such call nothing changes.
pub proof fn answer_marks_the_call(s: SipView, call_id: Seq<char>, now_ms: u64)
    ensures
        ({
            let t = call_answered(s, call_id, now_ms);
            &&& !s.calls.contains_key(call_id) ==> t == s
            &&& s.calls.contains_key(call_id) ==> t == (SipView {
                calls: s.calls.insert(
                    call_id,
                    SipCallView {
                        answered_at_ms: Some(now_ms),
                        state: "answered"@,
                        ..s.calls[call_id]
                    },
                ),
                ..s
            })
        }),
{
}

/// The ports of a call are noted where they are given, and kept where they are not.
pub proof fn ports_are_noted(s: SipView, call_id: Seq<char>, a: Option<u16>, b: Option<u16>)
    ensures
        ({
            let t = call_ported(s, call_id, a, b);
            let c = s.calls[call_id];
            &&& !s.calls.contains_key(call_id) ==> t == s
            &&& s.calls.contains_key(call_id) ==> {
                &&& t == (SipView { calls: s.calls.insert(call_id, t.calls[call_id]), ..s })
                &&& t.calls[call_id] == (SipCallView {
                    rtp_a_port: t.calls[call_id].rtp_a_port,
                    rtp_b_port: t.calls[call_id].rtp_b_port,
                    ..c
                })
                &&& a is Some ==> t.calls[call_id].rtp_a_port == a
                &&& a is None ==> t.calls[call_id].rtp_a_port == c.rtp_a_port
                &&& b is Some ==> t.calls[call_id].rtp_b_port == b
                &&& b is None ==> t.calls[call_id].rtp_b_port == c.rtp_b_port
            }
        }),
{
}

proof fn lemma_latest_bounds(ts: Seq<u64>)
    ensures
        forall|i: int| 0 <= i < ts.len() ==> (#[trigger] ts[i]) <= latest(ts),
        latest(ts) > 0 ==> ts.contains(latest(ts)),
    decreases ts.len(),
{
    if ts.len() > 0 {
        let init = ts.drop_last();
        lemma_latest_bounds(init);
        assert forall|i: int| 0 <= i < ts.len() implies (#[trigger] ts[i]) <= latest(ts) by {
            if i < init.len() {
                assert(init[i] == ts[i]);
            }
        }
        if latest(ts) > 0 {
            if latest(ts) == ts.last() {
                assert(ts[ts.len() - 1] == latest(ts));
            } else {
                let i = choose|i: int| 0 <= i < init.len() && init[i] == latest(init);
                assert(ts[i] == latest(ts));
            }
        }
    }
}

/// A call is idle exactly where it was answered, the answer is at least the timeout ago, and so is
/// the last reception on each of its legs. A call that was not answered never is.
pub proof fn idle_is_silent_on_every_leg(
    s: SipView,
    call_id: Seq<char>,
    timeout_ms: u64,
    now_ms: u64,
)
    requires
        timeout_ms > 0,
    ensures
        is_idle(s, call_id, timeout_ms, now_ms) <==> {
            &&& s.calls[call_id].answered_at_ms matches Some(answered) && answered + timeout_ms
                <= now_ms
            &&& s.media.contains_key(call_id) ==> forall|i: int|
                0 <= i < s.media[call_id].len() ==> (#[trigger] s.media[call_id][i]) + timeout_ms
                    <= now_ms
        },
{
    if s.media.contains_key(call_id) {
        let ts = s.media[call_id];
        lemma_latest_bounds(ts);
        if latest(ts) > 0 {
            let i = choose|i: int| 0 <= i < ts.len() && ts[i] == latest(ts);
            assert(ts[i] == last_rx(s, call_id));
        }
    }
}

/// An event of a trunk changes its status, its detail and the time of its last event, and its address
/// only where one is given; a trunk that is not there is not made.
pub proof fn trunk_event_is_noted(
    s: SipView,
    name: Seq<char>,
    status: TrunkStatus,
    detail: Seq<char>,
    peer_addr: Option<SocketAddress>,
    now_ms: u64,
)
    ensures
        ({
            let t = trunk_updated(s, name, status, detail, peer_addr, now_ms);
            let old = s.trunks[name];
            let new = t.trunks[name];
            &&& !s.trunks.contains_key(name) ==> t == s
            &&& s.trunks.contains_key(name) ==> {
                &&& t == (SipView { trunks: s.trunks.insert(name, new), ..s })
                &&& new.status == status && new.detail == detail && new.last_event_ms == now_ms
                &&& peer_addr is Some ==> new.peer_addr == peer_addr
                &&& peer_addr is None ==> new.peer_addr == old.peer_addr
                &&& new.name == old.name && new.direction == old.direction
                &&& new.remote_host == old.remote_host && new.active_calls == old.active_calls
            }
        }),
{
}

/// A registration puts its binding in the place of the one that its address had, and is counted where
/// the address had none; removing it undoes a first registration but for the count.
pub proof fn registration_replaces_the_binding(s: SipView, reg: RegistrationView, other: Seq<char>)
    requires
        s.total_registrations < u64::MAX,
    ensures
        ({
            let t = bound(s, reg);
            let known = s.registrations.contains_key(reg.aor);
            &&& t.registrations.contains_key(reg.aor) && t.registrations[reg.aor] == reg
            &&& other != reg.aor ==> t.registrations.contains_key(other)
                == s.registrations.contains_key(other)
            &&& other != reg.aor && s.registrations.contains_key(other) ==> t.registrations[other]
                == s.registrations[other]
            &&& t.total_registrations == s.total_registrations + (if known {
                0int
            } else {
                1
            })
            &&& t == (SipView {
                registrations: t.registrations,
                total_registrations: t.total_registrations,
                ..s
            })
            &&& !unbound(t, reg.aor).registrations.contains_key(reg.aor)
            &&& !known ==> unbound(t, reg.aor) == (SipView {
                total_registrations: t.total_registrations,
                ..s
            })
        }),
{
    if !s.registrations.contains_key(reg.aor) {
        assert(unbound(bound(s, reg), reg.aor).registrations =~= s.registrations);
    }
}

/// A purge drops the bindings whose end has come and keeps the others, as they are; a removal drops
/// one binding only.
pub proof fn purge_drops_what_has_ended(s: SipView, now_ms: u64, aor: Seq<char>, k: Seq<char>)
    ensures
        ({
            let t = purged(s, now_ms);
            &&& t.registrations.contains_key(k) <==> s.registrations.contains_key(k)
                && s.registrations[k].expires_at_ms > now_ms
            &&& t.registrations.contains_key(k) ==> t.registrations[k] == s.registrations[k]
            &&& t == (SipView { registrations: t.registrations, ..s })
            &&& live(s, k, now_ms) <==> t.registrations.contains_key(k)
        }),
        ({
            let t = unbound(s, aor);
            &&& t.registrations.contains_key(k) <==> k != aor && s.registrations.contains_key(k)
            &&& t.registrations.contains_key(k) ==> t.registrations[k] == s.registrations[k]
            &&& t == (SipView { registrations: t.registrations, ..s })
        }),
{
}

/// A trunk is put in under its name, in the place of the one that was there, and nothing else changes.
pub proof fn trunk_is_put_in(s: SipView, trunk: TrunkStateView, k: Seq<char>)
    ensures
        ({
            let t = trunk_put(s, trunk);
            &&& t.trunks.contains_key(trunk.name) && t.trunks[trunk.name] == trunk
            &&& k != trunk.name ==> t.trunks.contains_key(k) == s.trunks.contains_key(k)
            &&& k != trunk.name && s.trunks.contains_key(k) ==> t.trunks[k] == s.trunks[k]
            &&& t == (SipView { trunks: t.trunks, ..s })
        }),
{
}

/// A new SIP side has no registrations, trunks, calls or clocks, and has counted nothing.
pub proof fn blank_is_empty(
    enabled: bool,
    listen: Seq<char>,
    realm: Seq<char>,
    k: Seq<char>,
)
    ensures
        ({
            let s = blank(enabled, listen, realm);
            &&& !s.registrations.contains_key(k) && !s.trunks.contains_key(k)
            &&& !s.calls.contains_key(k) && !s.media.contains_key(k)
            &&& s.total_calls == 0 && s.total_registrations == 0
            &&& s.enabled == enabled && s.listen == listen && s.realm == realm
        }),
{
}

} // verus!
