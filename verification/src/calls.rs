//! The rest of a SIP call: requests in a dialog, responses, and calls that have gone on too long.
use crate::addr::SocketAddress;
use crate::brew::{since, BrewState, Now};
use crate::bridge::{
    forced, no_actions, push_action, push_actions, responded, sip_ended, torn_down, Both,
    BrewBridge, BridgeView,
};
use crate::bridging::sip_set;
use crate::config::Config;
use crate::dialog::{bye_to, make_bye, relay_byes, Relayed, RelayedView};
use crate::invite::{invite, invite_with, opt_invitation, peer_trunk, Invitation, InvitationView};
use crate::message::{
    or_empty, respond, response, text_or_empty, Method, MethodView, RequestView, SipRequest,
};
use crate::registrar::{lifetime_fits, register, register_with, reply};
use crate::sip_state::{has_room, is_idle, lists_ids, trunk_updated, SipState, SipView, TrunkStatus};
use crate::snapshot::newest_first;
use crate::text::{decimal, decimal_string, opt_text, texts_of};
use crate::transport::{
    drawn, sip_actions_view, SipAction, SipActionView, Tokens, TokensView, TransportView,
};
use vstd::prelude::*;
use vstd::string::*;

verus! {

// ---- the end of a call ----

/// Both sides with the relay of a call stopped.
pub open spec fn relay_stopped(x: Both, call_id: Seq<char>) -> Both {
    Both {
        bridge: BridgeView {
            transport: TransportView {
                relays: x.bridge.transport.relays.remove(call_id),
                ..x.bridge.transport
            },
            ..x.bridge
        },
        ..x
    }
}

/// The stop of the relay of a call, where there is one.
pub open spec fn relay_stop(x: Both, call_id: Seq<char>) -> Seq<SipActionView> {
    if x.bridge.transport.relays.contains_key(call_id) {
        seq![SipActionView::AbortRelay { call_id }]
    } else {
        Seq::empty()
    }
}

/// The relayed call, if there is one.
pub open spec fn relay_of(t: TransportView, call_id: Seq<char>) -> Option<RelayedView> {
    if t.relays.contains_key(call_id) {
        Some(t.relays[call_id])
    } else {
        None
    }
}

/// The contents of an optional relayed call.
pub open spec fn opt_relayed(r: Option<Relayed>) -> Option<RelayedView> {
    match r {
        Some(r) => Some(r@),
        None => None,
    }
}

/// What a BYE or a CANCEL changes and causes: the call ends on both sides, and the request is
/// answered.
pub open spec fn hung_up(x: Both, peer: SocketAddress, req: RequestView, tok: TokensView) -> (
    Both,
    Seq<SipActionView>,
) {
    let call_id = or_empty(req.call_id);
    let x1 = relay_stopped(x, call_id);
    let (y, more) = if x.bridge.transport.bridge {
        torn_down(x1, call_id)
    } else {
        (x1, Seq::empty())
    };
    (
        sip_ended(y, call_id),
        relay_stop(x, call_id) + more + seq![reply(response(req, 200, "OK"@, tok.tag), peer)],
    )
}

fn stop_relay(b: &mut BrewBridge, call_id: &str, brew: &BrewState) -> (r: (
    Vec<SipAction>,
    Option<Relayed>,
))
    ensures
        final(b)@ == relay_stopped((Both { bridge: old(b)@, brew: brew@ }), call_id@).bridge,
        sip_actions_view(r.0@) == relay_stop((Both { bridge: old(b)@, brew: brew@ }), call_id@),
        opt_relayed(r.1) == relay_of(old(b)@.transport, call_id@),
{
    let ghost x = Both { bridge: old(b)@, brew: brew@ };
    let mut actions = no_actions();
    let relayed = b.transport.relays.remove(&call_id.to_string());
    if relayed.is_some() {
        push_action(&mut actions, SipAction::AbortRelay { call_id: call_id.to_string() });
    }
    assert(b@.transport.relays =~= relay_stopped(x, call_id@).bridge.transport.relays);
    assert(sip_actions_view(actions@) =~= relay_stop(x, call_id@));
    (actions, relayed)
}

/// Handles a BYE, with the given random values.
pub fn handle_bye(
    b: &mut BrewBridge,
    brew: &mut BrewState,
    peer: SocketAddress,
    req: &SipRequest,
    tok: &Tokens,
) -> (r: Vec<SipAction>)
    ensures
        (Both { bridge: final(b)@, brew: final(brew)@ }, sip_actions_view(r@)) == hung_up(
            (Both { bridge: old(b)@, brew: old(brew)@ }),
            peer,
            req@,
            tok@,
        ),
{
    let call_id = text_or_empty(&req.call_id);
    let (mut actions, _) = stop_relay(b, call_id.as_str(), brew);
    if b.transport.bridge {
        let more = b.teardown(brew, call_id.as_str());
        push_actions(&mut actions, more);
    }
    b.transport.state.end_call(call_id.as_str());
    push_action(
        &mut actions,
        SipAction::Send { message: respond(req, 200, "OK", tok.tag.as_str()), to: peer },
    );
    assert(sip_actions_view(actions@) =~= hung_up(
        (Both { bridge: old(b)@, brew: old(brew)@ }),
        peer,
        req@,
        tok@,
    ).1);
    actions
}

/// Handles a CANCEL, with the given random values: it ends the call as a BYE does.
pub fn handle_cancel(
    b: &mut BrewBridge,
    brew: &mut BrewState,
    peer: SocketAddress,
    req: &SipRequest,
    tok: &Tokens,
) -> (r: Vec<SipAction>)
    ensures
        (Both { bridge: final(b)@, brew: final(brew)@ }, sip_actions_view(r@)) == hung_up(
            (Both { bridge: old(b)@, brew: old(brew)@ }),
            peer,
            req@,
            tok@,
        ),
{
    handle_bye(b, brew, peer, req, tok)
}

// ---- requests ----

/// What a request changes and causes. The last part of the result is the call that is then to be put
/// through.
pub open spec fn requested(
    x: Both,
    config: Config,
    peer: SocketAddress,
    req: RequestView,
    trunk: Option<Seq<char>>,
    now: Now,
    tok: TokensView,
) -> (Both, Seq<SipActionView>, Option<InvitationView>) {
    let t = x.bridge.transport;
    match req.method {
        MethodView::Register => {
            let (t2, actions) = register(t, config, peer, req, now, tok);
            (
                Both { bridge: BridgeView { transport: t2, ..x.bridge }, ..x },
                actions,
                None,
            )
        },
        MethodView::Invite => {
            let (t2, actions, next) = invite(t, config, peer, req, trunk, now, tok);
            (
                Both { bridge: BridgeView { transport: t2, ..x.bridge }, ..x },
                actions,
                next,
            )
        },
        MethodView::Ack => (x, Seq::empty(), None),
        MethodView::Bye | MethodView::Cancel => {
            let (y, actions) = hung_up(x, peer, req, tok);
            (y, actions, None)
        },
        MethodView::Options => (
            x,
            seq![reply(response(req, 200, "OK"@, tok.tag), peer)],
            None,
        ),
        MethodView::Other(_) => (
            x,
            seq![reply(response(req, 405, "Method Not Allowed"@, tok.tag), peer)],
            None,
        ),
    }
}

/// The counters have room for what the request may add, and the end of a binding can be told.
pub open spec fn acceptable(b: BridgeView, config: Config, req: RequestView, now: Now) -> bool {
    &&& req.method is Register ==> lifetime_fits(config, req, now)
        && b.transport.sip.total_registrations < u64::MAX
    &&& req.method is Invite ==> has_room(b.transport.sip)
}

/// Handles a request, with the given random values.
pub fn request_with(
    b: &mut BrewBridge,
    brew: &mut BrewState,
    config: &Config,
    peer: SocketAddress,
    req: &SipRequest,
    now: Now,
    tok: &Tokens,
) -> (r: (Vec<SipAction>, Option<Invitation>))
    requires
        acceptable(old(b)@, *config, req@, now),
    ensures
        exists|trunk: Option<Seq<char>>| #[trigger]
            peer_trunk(old(b)@.transport.sip, peer, trunk) && (
                Both { bridge: final(b)@, brew: final(brew)@ },
                sip_actions_view(r.0@),
                opt_invitation(r.1),
            ) == requested(
                (Both { bridge: old(b)@, brew: old(brew)@ }),
                *config,
                peer,
                req@,
                trunk,
                now,
                tok@,
            ),
{
    proof {
        let sip = old(b)@.transport.sip;
        if exists|k: Seq<char>| #[trigger]
            sip.trunks.contains_key(k) && sip.trunks[k].peer_addr == Some(peer) {
            let k = choose|k: Seq<char>| #[trigger]
                sip.trunks.contains_key(k) && sip.trunks[k].peer_addr == Some(peer);
            assert(peer_trunk(sip, peer, Some(k)));
        } else {
            assert(peer_trunk(sip, peer, None));
        }
    }
    match &req.method {
        Method::Register => {
            let actions = register_with(&mut b.transport, config, peer, req, now, tok);
            (actions, None)
        },
        Method::Invite => invite_with(&mut b.transport, config, peer, req, now, tok),
        Method::Ack => (no_actions(), None),
        Method::Bye => (handle_bye(b, brew, peer, req, tok), None),
        Method::Cancel => (handle_cancel(b, brew, peer, req, tok), None),
        Method::Options => {
            let mut actions = no_actions();
            push_action(
                &mut actions,
                SipAction::Send { message: respond(req, 200, "OK", tok.tag.as_str()), to: peer },
            );
            assert(sip_actions_view(actions@) =~= seq![
                reply(response(req@, 200, "OK"@, tok@.tag), peer),
            ]);
            (actions, None)
        },
        Method::Other(_) => {
            let mut actions = no_actions();
            push_action(
                &mut actions,
                SipAction::Send {
                    message: respond(req, 405, "Method Not Allowed", tok.tag.as_str()),
                    to: peer,
                },
            );
            assert(sip_actions_view(actions@) =~= seq![
                reply(response(req@, 405, "Method Not Allowed"@, tok@.tag), peer),
            ]);
            (actions, None)
        },
    }
}

/// Handles a request.
pub fn handle_request(
    b: &mut BrewBridge,
    brew: &mut BrewState,
    config: &Config,
    peer: SocketAddress,
    req: &SipRequest,
    now: Now,
) -> (r: (Vec<SipAction>, Option<Invitation>))
    requires
        acceptable(old(b)@, *config, req@, now),
    ensures
        exists|trunk: Option<Seq<char>>, tok: TokensView|
            {
                &&& #[trigger] peer_trunk(old(b)@.transport.sip, peer, trunk)
                &&& #[trigger] drawn(tok)
                &&& (
                    Both { bridge: final(b)@, brew: final(brew)@ },
                    sip_actions_view(r.0@),
                    opt_invitation(r.1),
                ) == requested(
                    (Both { bridge: old(b)@, brew: old(brew)@ }),
                    *config,
                    peer,
                    req@,
                    trunk,
                    now,
                    tok,
                )
            },
{
    let tok = Tokens::draw();
    request_with(b, brew, config, peer, req, now, &tok)
}

// ---- responses ----

/// A response that was received, as far as the server reads it.
pub struct SipResponse {
    /// The method of the CSeq header.
    pub method: Option<String>,
    /// The status code; 0 where there is none.
    pub code: u16,
    pub call_id: Option<String>,
    pub to: Option<String>,
    pub body: Vec<u8>,
}

/// The SIP state once a trunk's peer has answered a registration.
pub open spec fn registration_answered(
    sip: SipView,
    trunk: Option<Seq<char>>,
    code: u16,
    peer: SocketAddress,
    now: Now,
) -> SipView {
    match trunk {
        Some(name) => {
            if code == 200 {
                trunk_updated(sip, name, TrunkStatus::Up, "200 OK"@, Some(peer), now.epoch_ms)
            } else if code == 401 || code == 407 {
                sip
            } else {
                trunk_updated(
                    sip,
                    name,
                    TrunkStatus::Failed,
                    decimal(code as nat),
                    Some(peer),
                    now.epoch_ms,
                )
            }
        },
        None => sip,
    }
}

/// What a response changes and causes.
pub open spec fn answered(
    x: Both,
    peer: SocketAddress,
    resp: SipResponse,
    trunk: Option<Seq<char>>,
    media: Option<SocketAddress>,
    now: Now,
    tok: TokensView,
) -> (Both, Seq<SipActionView>) {
    let method = or_empty(opt_text(resp.method));
    if method == "REGISTER"@ {
        (
            sip_set(
                x,
                registration_answered(x.bridge.transport.sip, trunk, resp.code, peer, now),
            ),
            Seq::empty(),
        )
    } else if method == "INVITE"@ && resp.call_id is Some && x.bridge.transport.bridge {
        responded(
            x,
            or_empty(opt_text(resp.call_id)),
            resp.code,
            opt_text(resp.to),
            peer,
            resp.body@,
            media,
            now,
            tok,
        )
    } else {
        (x, Seq::empty())
    }
}

/// Handles a response to a request that this server sent, with the given random values. `media` is
/// the address of the media in the body.
pub fn handle_response(
    b: &mut BrewBridge,
    brew: &mut BrewState,
    peer: SocketAddress,
    resp: &SipResponse,
    media: Option<SocketAddress>,
    now: Now,
    tok: &Tokens,
) -> (r: Vec<SipAction>)
    ensures
        exists|trunk: Option<Seq<char>>| #[trigger]
            peer_trunk(old(b)@.transport.sip, peer, trunk) && (
                Both { bridge: final(b)@, brew: final(brew)@ },
                sip_actions_view(r@),
            ) == answered(
                (Both { bridge: old(b)@, brew: old(brew)@ }),
                peer,
                *resp,
                trunk,
                media,
                now,
                tok@,
            ),
{
    let trunk = b.transport.state.trunk_for_peer(&peer);
    let ghost name = opt_text(trunk);
    assert(peer_trunk(old(b)@.transport.sip, peer, name));
    let ghost want = answered(
        (Both { bridge: old(b)@, brew: old(brew)@ }),
        peer,
        *resp,
        name,
        media,
        now,
        tok@,
    );
    proof {
        reveal_strlit("REGISTER");
        reveal_strlit("INVITE");
    }
    let method = text_or_empty(&resp.method);
    if method == "REGISTER".to_string() {
        match trunk {
            Some(name) => {
                if resp.code == 200 {
                    b.transport.state.update_trunk_status(
                        name.as_str(),
                        TrunkStatus::Up,
                        "200 OK".to_string(),
                        Some(peer),
                        now.epoch_ms,
                    );
                } else if resp.code != 401 && resp.code != 407 {
                    b.transport.state.update_trunk_status(
                        name.as_str(),
                        TrunkStatus::Failed,
                        decimal_string(resp.code as u64),
                        Some(peer),
                        now.epoch_ms,
                    );
                }
            },
            None => {},
        }
        assert(b@ =~= want.0.bridge);
        return no_actions();
    }
    if method == "INVITE".to_string() && b.transport.bridge {
        match &resp.call_id {
            Some(call_id) => {
                return b.on_sip_response(
                    brew,
                    call_id.as_str(),
                    resp.code,
                    &resp.to,
                    peer,
                    resp.body.as_slice(),
                    media,
                    now,
                    tok,
                );
            },
            None => {},
        }
    }
    no_actions()
}

// ---- calls that have gone on too long ----

/// Milliseconds in so many seconds, in 64 bits.
pub open spec fn millis(seconds: u64) -> u64 {
    (seconds * 1000) as u64
}

/// Whether the call has run for the limit (seconds, 0 for none).
pub open spec fn too_long(sip: SipView, k: Seq<char>, limit: u64, now: Now) -> bool {
    limit > 0 && since(sip.calls[k].started_at_ms as int, now.epoch_ms as int) >= millis(limit)
}

/// Whether the call has run for the limit, or has been answered and silent for the timeout (seconds,
/// 0 for none).
pub open spec fn overdue(sip: SipView, limit: u64, idle: u64, now: Now) -> spec_fn(Seq<char>) -> bool {
    |k: Seq<char>|
        too_long(sip, k, limit, now) || (idle > 0 && is_idle(sip, k, millis(idle), now.epoch_ms))
}

/// The order in which calls are ended: those that have run for the limit, the latest first, and then
/// those that are only silent.
pub open spec fn in_sweep_order(l: Seq<Seq<char>>, sip: SipView, limit: u64, now: Now) -> bool {
    forall|i: int, j: int|
        0 <= i < j < l.len() && too_long(sip, #[trigger] l[j], limit, now) ==> {
            &&& too_long(sip, #[trigger] l[i], limit, now)
            &&& sip.calls[l[i]].started_at_ms >= sip.calls[l[j]].started_at_ms
        }
}

fn is_listed(l: &Vec<String>, k: &String) -> (r: bool)
    ensures
        r == texts_of(l@).contains(k@),
{
    let mut i: usize = 0;
    while i < l.len()
        invariant
            i <= l@.len(),
            forall|j: int| 0 <= j < i ==> (#[trigger] l@[j])@ != k@,
        decreases l@.len() - i,
    {
        if l[i] == *k {
            assert(texts_of(l@)[i as int] == k@);
            return true;
        }
        i += 1;
    }
    assert forall|j: int| 0 <= j < texts_of(l@).len() implies texts_of(l@)[j] != k@ by {
        assert(texts_of(l@)[j] == l@[j]@);
    }
    false
}

/// The calls that have run for the limit (seconds, 0 for none), the latest first.
fn long_calls(state: &SipState, limit: u64, now: Now) -> (r: Vec<String>)
    ensures
        lists_ids(
            texts_of(r@),
            state@.calls,
            |k: Seq<char>| too_long(state@, k, limit, now),
        ),
        in_sweep_order(texts_of(r@), state@, limit, now),
{
    let limit_ms: u64 = ((limit as u128) * 1000) as u64;
    let sorted = state.calls_by_age();
    let ghost ks = texts_of(sorted@);
    let mut out: Vec<String> = Vec::new();
    let mut i: usize = 0;
    while i < sorted.len()
        invariant
            i <= sorted@.len(),
            ks == texts_of(sorted@),
            newest_first(ks, state@.calls),
            limit_ms == millis(limit),
            texts_of(out@).no_duplicates(),
            in_sweep_order(texts_of(out@), state@, limit, now),
            forall|a: int|
                0 <= a < texts_of(out@).len() ==> too_long(
                    state@,
                    #[trigger] texts_of(out@)[a],
                    limit,
                    now,
                ) && exists|j: int| 0 <= j < i && #[trigger] ks[j] == texts_of(out@)[a],
            forall|j: int|
                0 <= j < i && too_long(state@, #[trigger] ks[j], limit, now)
                    ==> texts_of(out@).contains(ks[j]),
        decreases sorted@.len() - i,
    {
        let ghost k = ks[i as int];
        assert(sorted@[i as int]@ == k);
        assert(state@.calls.contains_key(k)) by {
            assert(ks.to_set().contains(k));
        }
        let long = match state.calls.get(&sorted[i]) {
            Some(call) => limit > 0 && now.epoch_ms.saturating_sub(call.started_at_ms) >= limit_ms,
            None => false,
        };
        assert(long == too_long(state@, k, limit, now));
        let ghost l = texts_of(out@);
        if long {
            out.push(sorted[i].clone());
            proof {
                let m = texts_of(out@);
                assert(m =~= l.push(k));
                assert forall|a: int| 0 <= a < l.len() implies l[a] != k && state@.calls[#[trigger] l[a]].started_at_ms
                    >= state@.calls[k].started_at_ms by {
                    let j = choose|j: int| 0 <= j < i && #[trigger] ks[j] == l[a];
                    assert(ks[j] != ks[i as int]);
                }
                assert forall|a: int, b: int|
                    0 <= a < b < m.len() && too_long(state@, #[trigger] m[b], limit, now) implies {
                    &&& too_long(state@, #[trigger] m[a], limit, now)
                    &&& state@.calls[m[a]].started_at_ms >= state@.calls[m[b]].started_at_ms
                } by {
                    assert(m[a] == l[a]);
                    if b < l.len() {
                        assert(m[b] == l[b]);
                    }
                }
                assert forall|j: int| 0 <= j < i + 1 && too_long(state@, #[trigger] ks[j], limit, now) implies m.contains(
                    ks[j],
                ) by {
                    if j < i {
                        let a = choose|a: int| 0 <= a < l.len() && l[a] == ks[j];
                        assert(m[a] == ks[j]);
                    } else {
                        assert(m[l.len() as int] == k);
                    }
                }
            }
        }
        proof {
            let m = texts_of(out@);
            assert forall|a: int| 0 <= a < m.len() implies too_long(state@, #[trigger] m[a], limit, now)
                && exists|j: int| 0 <= j < i + 1 && #[trigger] ks[j] == m[a] by {
                if a < l.len() {
                    assert(m[a] == l[a]);
                    let j = choose|j: int| 0 <= j < i && #[trigger] ks[j] == l[a];
                    assert(ks[j] == m[a]);
                } else {
                    assert(ks[i as int] == m[a]);
                }
            }
        }
        i += 1;
    }
    proof {
        let l = texts_of(out@);
        let test = |k: Seq<char>| too_long(state@, k, limit, now);
        assert forall|a: int| 0 <= a < l.len() implies state@.calls.contains_key(#[trigger] l[a]) && test(
            l[a],
        ) by {
            let j = choose|j: int| 0 <= j < sorted@.len() && #[trigger] ks[j] == l[a];
            assert(ks.to_set().contains(ks[j]));
        }
        assert forall|k: Seq<char>| #[trigger] state@.calls.contains_key(k) && test(k) implies l.contains(
            k,
        ) by {
            assert(ks.to_set().contains(k));
            let j = choose|j: int| 0 <= j < ks.len() && ks[j] == k;
            assert(ks[j] == k);
        }
    }
    out
}

/// The calls that have gone on too long, the latest first, and then those that have only gone silent
/// (seconds, 0 for none).
pub fn overdue_calls(state: &SipState, limit: u64, idle: u64, now: Now) -> (r: Vec<String>)
    ensures
        lists_ids(texts_of(r@), state@.calls, overdue(state@, limit, idle, now)),
        in_sweep_order(texts_of(r@), state@, limit, now),
{
    let idle_ms: u64 = ((idle as u128) * 1000) as u64;
    let mut out = long_calls(state, limit, now);
    let ghost first = texts_of(out@);
    let ghost long = |k: Seq<char>| too_long(state@, k, limit, now);
    let ghost quiet_test = |k: Seq<char>| is_idle(state@, k, idle_ms, now.epoch_ms);
    let ghost test = overdue(state@, limit, idle, now);
    assert(lists_ids(first, state@.calls, long));
    if idle == 0 {
        assert(lists_ids(first, state@.calls, test));
        return out;
    }
    let quiet = state.idle_calls(idle_ms, now.epoch_ms);
    let ghost qs = texts_of(quiet@);
    assert(lists_ids(qs, state@.calls, quiet_test));
    assert(first.take(first.len() as int) =~= first);
    let mut i: usize = 0;
    while i < quiet.len()
        invariant
            i <= quiet@.len(),
            qs == texts_of(quiet@),
            idle > 0,
            idle_ms == millis(idle),
            long == (|k: Seq<char>| too_long(state@, k, limit, now)),
            quiet_test == (|k: Seq<char>| is_idle(state@, k, idle_ms, now.epoch_ms)),
            test == overdue(state@, limit, idle, now),
            lists_ids(first, state@.calls, long),
            lists_ids(qs, state@.calls, quiet_test),
            in_sweep_order(first, state@, limit, now),
            first.len() <= out@.len(),
            texts_of(out@).take(first.len() as int) == first,
            texts_of(out@).no_duplicates(),
            forall|a: int|
                first.len() <= a < texts_of(out@).len() ==> !too_long(
                    state@,
                    #[trigger] texts_of(out@)[a],
                    limit,
                    now,
                ) && state@.calls.contains_key(texts_of(out@)[a]) && quiet_test(texts_of(out@)[a]),
            forall|b: int| 0 <= b < i ==> texts_of(out@).contains(#[trigger] qs[b]),
        decreases quiet@.len() - i,
    {
        let ghost l = texts_of(out@);
        let ghost k = qs[i as int];
        assert(quiet@[i as int]@ == k);
        assert(state@.calls.contains_key(k) && quiet_test(k));
        let listed = is_listed(&out, &quiet[i]);
        if !listed {
            assert(!too_long(state@, k, limit, now)) by {
                if long(k) {
                    assert(first.contains(k));
                    let a = choose|a: int| 0 <= a < first.len() && first[a] == k;
                    assert(l.take(first.len() as int)[a] == l[a]);
                    assert(l.contains(k));
                }
            }
            out.push(quiet[i].clone());
            let ghost m = texts_of(out@);
            assert(m =~= l.push(k));
            assert(m.take(first.len() as int) =~= l.take(first.len() as int));
            assert(m[l.len() as int] == k);
        }
        proof {
            let m = texts_of(out@);
            assert forall|b: int| 0 <= b < i + 1 implies m.contains(#[trigger] qs[b]) by {
                if b < i {
                    assert(l.contains(qs[b]));
                    let a = choose|a: int| 0 <= a < l.len() && l[a] == qs[b];
                    assert(m[a] == qs[b]);
                }
            }
        }
        i += 1;
    }
    proof {
        let l = texts_of(out@);
        let n = first.len() as int;
        assert forall|a: int| 0 <= a < n implies #[trigger] l[a] == first[a] by {
            assert(l.take(n)[a] == l[a]);
        }
        assert forall|a: int| 0 <= a < l.len() implies state@.calls.contains_key(#[trigger] l[a]) && test(
            l[a],
        ) by {
            if a < n {
                assert(l[a] == first[a]);
                assert(long(first[a]));
            } else {
                assert(quiet_test(l[a]));
            }
        }
        assert forall|k: Seq<char>| #[trigger] state@.calls.contains_key(k) && test(k) implies l.contains(
            k,
        ) by {
            if long(k) {
                assert(first.contains(k));
                let a = choose|a: int| 0 <= a < first.len() && first[a] == k;
                assert(l[a] == k);
            } else {
                assert(quiet_test(k));
                assert(qs.contains(k));
                let b = choose|b: int| 0 <= b < qs.len() && qs[b] == k;
                assert(l.contains(qs[b]));
            }
        }
        assert forall|a: int, b: int|
            0 <= a < b < l.len() && too_long(state@, #[trigger] l[b], limit, now) implies {
            &&& too_long(state@, #[trigger] l[a], limit, now)
            &&& state@.calls[l[a]].started_at_ms >= state@.calls[l[b]].started_at_ms
        } by {
            assert(b < n);
            assert(l[a] == first[a] && l[b] == first[b]);
        }
    }
    out
}

/// The BYEs to the peers of a relayed call, where it is one.
pub open spec fn relay_parting(t: TransportView, call_id: Seq<char>, tok: TokensView) -> Seq<
    SipActionView,
> {
    match relay_of(t, call_id) {
        Some(relayed) => relay_byes(t.advertised_host, relayed, call_id, tok),
        None => Seq::empty(),
    }
}

/// What it changes and causes to end a call as the other side's BYE would, and to send a BYE to its
/// SIP peers.
pub open spec fn call_forced(x: Both, call_id: Seq<char>, tok: TokensView) -> (
    Both,
    Seq<SipActionView>,
) {
    let x1 = relay_stopped(x, call_id);
    let (y, more) = if x.bridge.transport.bridge {
        forced(x1, call_id, tok)
    } else {
        (x1, Seq::empty())
    };
    (
        sip_ended(y, call_id),
        relay_stop(x, call_id) + relay_parting(x.bridge.transport, call_id, tok) + more,
    )
}

/// What it changes and causes to end the listed calls one after the other.
pub open spec fn calls_forced(x: Both, ids: Seq<Seq<char>>, toks: Seq<TokensView>) -> (
    Both,
    Seq<SipActionView>,
)
    decreases ids.len(),
{
    if ids.len() == 0 {
        (x, Seq::empty())
    } else {
        let (y, done) = calls_forced(x, ids.drop_last(), toks.drop_last());
        let (z, more) = call_forced(y, ids.last(), toks.last());
        (z, done + more)
    }
}

fn part_relay(host: &str, relayed: Option<Relayed>, call_id: &str, tok: &Tokens) -> (r: Vec<SipAction>)
    ensures
        sip_actions_view(r@) == (match opt_relayed(relayed) {
            Some(relayed) => relay_byes(host@, relayed, call_id@, tok@),
            None => Seq::empty(),
        }),
{
    let mut actions = no_actions();
    match relayed {
        Some(relayed) => {
            let ghost want = relay_byes(host@, relayed@, call_id@, tok@);
            match &relayed.caller {
                Some(d) => {
                    let bye = make_bye(host, d, call_id, tok.dialog_branch.as_str());
                    push_action(&mut actions, SipAction::Send { message: bye, to: d.target_addr });
                },
                None => {},
            }
            let d = &relayed.callee;
            let bye = make_bye(host, d, call_id, tok.branch.as_str());
            push_action(&mut actions, SipAction::Send { message: bye, to: d.target_addr });
            assert(sip_actions_view(actions@) =~= want);
        },
        None => {},
    }
    actions
}

fn force_call(b: &mut BrewBridge, brew: &mut BrewState, call_id: &str, tok: &Tokens) -> (r: Vec<
    SipAction,
>)
    ensures
        (Both { bridge: final(b)@, brew: final(brew)@ }, sip_actions_view(r@)) == call_forced(
            (Both { bridge: old(b)@, brew: old(brew)@ }),
            call_id@,
            tok@,
        ),
{
    let (mut actions, relayed) = stop_relay(b, call_id, brew);
    let byes = part_relay(b.transport.advertised_host.as_str(), relayed, call_id, tok);
    push_actions(&mut actions, byes);
    if b.transport.bridge {
        let more = b.force_end(brew, call_id, tok);
        push_actions(&mut actions, more);
    }
    b.transport.state.end_call(call_id);
    assert(sip_actions_view(actions@) =~= call_forced(
        (Both { bridge: old(b)@, brew: old(brew)@ }),
        call_id@,
        tok@,
    ).1);
    actions
}

/// One round of the sweep: ends the calls that have run for `limit` seconds, the latest first, and
/// then those that were answered and have received no RTP for `idle` seconds (0 for none).
pub fn call_duration_sweep(
    b: &mut BrewBridge,
    brew: &mut BrewState,
    limit: u64,
    idle: u64,
    now: Now,
) -> (r: Vec<SipAction>)
    ensures
        exists|ids: Seq<Seq<char>>, toks: Seq<TokensView>|
            {
                &&& #[trigger] lists_ids(
                    ids,
                    old(b)@.transport.sip.calls,
                    overdue(old(b)@.transport.sip, limit, idle, now),
                )
                &&& in_sweep_order(ids, old(b)@.transport.sip, limit, now)
                &&& toks.len() == ids.len()
                &&& forall|i: int| 0 <= i < toks.len() ==> drawn(#[trigger] toks[i])
                &&& (Both { bridge: final(b)@, brew: final(brew)@ }, sip_actions_view(r@))
                    == #[trigger] calls_forced(
                    (Both { bridge: old(b)@, brew: old(brew)@ }),
                    ids,
                    toks,
                )
            },
{
    let list = overdue_calls(&b.transport.state, limit, idle, now);
    let ghost ids = texts_of(list@);
    let ghost mut toks: Seq<TokensView> = Seq::empty();
    let ghost x = Both { bridge: old(b)@, brew: old(brew)@ };
    let mut actions = no_actions();
    let mut k: usize = 0;
    assert(calls_forced(x, ids.take(0), toks) == (x, Seq::<SipActionView>::empty()));
    while k < list.len()
        invariant
            k <= list@.len(),
            ids == texts_of(list@),
            toks.len() == k,
            forall|i: int| 0 <= i < toks.len() ==> drawn(#[trigger] toks[i]),
            (Both { bridge: b@, brew: brew@ }, sip_actions_view(actions@)) == calls_forced(
                x,
                ids.take(k as int),
                toks,
            ),
        decreases list@.len() - k,
    {
        let tok = Tokens::draw();
        let ghost before = toks;
        let more = force_call(b, brew, list[k].as_str(), &tok);
        push_actions(&mut actions, more);
        proof {
            toks = toks.push(tok@);
            assert(toks.drop_last() =~= before);
            assert(ids.take(k + 1).drop_last() =~= ids.take(k as int));
            assert(ids.take(k + 1).last() == ids[k as int]);
        }
        k += 1;
    }
    assert(ids.take(k as int) =~= ids);
    assert(lists_ids(ids, x.bridge.transport.sip.calls, overdue(x.bridge.transport.sip, limit, idle, now)));
    assert((Both { bridge: b@, brew: brew@ }, sip_actions_view(actions@)) == calls_forced(
        x,
        ids,
        toks,
    ));
    actions
}

// ---- laws ----

/// After a BYE or a CANCEL nothing is left of the call: not in the SIP state, not among the relays,
/// and not on the Brew side.
pub proof fn hang_up_leaves_nothing(x: Both, peer: SocketAddress, req: RequestView, tok: TokensView)
    requires
        x.bridge.transport.bridge,
    ensures
        ({
            let id = or_empty(req.call_id);
            let y = hung_up(x, peer, req, tok).0;
            &&& !y.bridge.transport.sip.calls.contains_key(id)
            &&& !y.bridge.transport.sip.media.contains_key(id)
            &&& !y.bridge.transport.relays.contains_key(id)
            &&& !y.bridge.legs.contains_key(id)
            &&& x.bridge.legs.contains_key(id) ==> {
                let leg = x.bridge.legs[id];
                &&& !y.brew.clients.contains_key(leg.virtual_client)
                &&& !y.brew.calls.contains_key(leg.brew_call_id)
                &&& leg.group matches Some(g) ==> !y.brew.affiliated(g).contains(leg.virtual_client)
            }
        }),
{
}

/// A call that the sweep ends is ended as by a BYE of its peer.
pub proof fn sweep_ends_like_a_bye(
    x: Both,
    peer: SocketAddress,
    req: RequestView,
    tok: TokensView,
)
    ensures
        call_forced(x, or_empty(req.call_id), tok).0 == hung_up(x, peer, req, tok).0,
{
}

/// The SIP peers of a call that the sweep ends get a BYE: both peers of a relayed call, the caller as
/// far as its dialog is known, and the peer of a bridged one.
pub proof fn swept_peers_get_a_bye(x: Both, call_id: Seq<char>, tok: TokensView)
    ensures
        ({
            let t = x.bridge.transport;
            let host = t.advertised_host;
            let told = call_forced(x, call_id, tok).1;
            &&& relay_of(t, call_id) matches Some(relayed) ==> {
                &&& told.contains(bye_to(host, relayed.callee, call_id, tok.branch))
                &&& relayed.caller matches Some(d) ==> told.contains(
                    bye_to(host, d, call_id, tok.dialog_branch),
                )
            }
            &&& t.bridge && x.bridge.legs.contains_key(call_id) ==> (
            x.bridge.legs[call_id].bye matches Some(d) ==> told.contains(
                bye_to(host, d, call_id, tok.dialog_branch),
            ))
        }),
{
    let t = x.bridge.transport;
    let host = t.advertised_host;
    let stop = relay_stop(x, call_id);
    let byes = relay_parting(t, call_id, tok);
    let told = call_forced(x, call_id, tok).1;
    if let Some(relayed) = relay_of(t, call_id) {
        let n = byes.len() - 1;
        assert(byes[n] == bye_to(host, relayed.callee, call_id, tok.branch));
        assert(told[stop.len() + n] == byes[n]);
        if let Some(d) = relayed.caller {
            assert(told[stop.len() as int] == bye_to(host, d, call_id, tok.dialog_branch));
        }
    }
    if t.bridge && x.bridge.legs.contains_key(call_id) {
        if let Some(d) = x.bridge.legs[call_id].bye {
            let at = (stop + byes).len() as int;
            assert(told[at] == bye_to(host, d, call_id, tok.dialog_branch));
        }
    }
}

} // verus!
