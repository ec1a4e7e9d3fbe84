//! What bridged calls do, told message by message: what the SIP peer and the Brew clients are sent,
//! and what is left of a call.
use crate::addr::SocketAddress;
use crate::brew::{ActionView, BrewView, CallKind, CallState, FrameView, Now};
use crate::bridge::{
    bridges, brew_call_over, forced, responded, torn_down, transcoded, Both, BridgedView,
};
use crate::bridging::{controlled, HandshakeView};
use crate::dialog::DialogView;
use crate::media::{body_text, sdp_of};
use crate::message::{MethodView, SipMessageView, StartView, ValueView};
use crate::router_laws::{clients_where, indexed, takes_part};
use crate::sip_state::{call_answered, call_ended};
use crate::transport::{SipActionView, TokensView, TransportView};
use vstd::prelude::*;
use vstd::string::*;

verus! {

// ---- vocabulary ----

/// A text header.
pub open spec fn line(name: Seq<char>, value: Seq<char>) -> (Seq<char>, ValueView) {
    (name, ValueView::Text(value))
}

/// The Via header of a request of this server.
pub open spec fn own_via(host: Seq<char>, branch: Seq<char>) -> (Seq<char>, ValueView) {
    line("Via"@, "SIP/2.0/UDP "@ + host + ";branch=z9hG4bK"@ + branch)
}

/// A request inside a dialog, without a body.
pub open spec fn in_dialog(
    method: MethodView,
    cseq: Seq<char>,
    host: Seq<char>,
    d: DialogView,
    to: Seq<char>,
    call_id: Seq<char>,
    branch: Seq<char>,
) -> SipMessageView {
    SipMessageView {
        start: StartView::Request { method, uri: d.request_uri },
        headers: seq![
            own_via(host, branch),
            line("Max-Forwards"@, "70"@),
            line("From"@, d.from),
            line("To"@, to),
            line("Call-ID"@, call_id),
            line("CSeq"@, cseq),
        ],
        body: Seq::empty(),
    }
}

/// A BYE to the peer of a dialog.
pub open spec fn farewell_to(
    host: Seq<char>,
    d: DialogView,
    call_id: Seq<char>,
    branch: Seq<char>,
) -> SipActionView {
    SipActionView::Send {
        message: in_dialog(MethodView::Bye, "2 BYE"@, host, d, d.to, call_id, branch),
        to: d.target_addr,
    }
}

/// A frame to one Brew client, which gets it if it is connected.
pub open spec fn to_one(s: BrewView, c: u128, frame: FrameView) -> SipActionView {
    SipActionView::Brew(ActionView::Send { to: clients_where(s, |d: u128| d == c), frame })
}

proof fn lemma_to_one(s: BrewView, c: u128, frame: FrameView)
    ensures
        crate::bridge::to_client(s, c, frame) == to_one(s, c, frame),
{
    assert(s.connected(set![c]) =~= clients_where(s, |d: u128| d == c));
}

/// Nothing of the leg is left on the Brew side, and everything else is as it was.
pub open spec fn cleared(s: BrewView, t: BrewView, leg: BridgedView) -> bool {
    &&& t.clients == s.clients.remove(leg.virtual_client)
    &&& t.calls == s.calls.remove(leg.brew_call_id)
    &&& t.subscribers == s.subscribers
    &&& t.sds_routes == s.sds_routes
    &&& forall|g: u32, c: u128| #[trigger]
        indexed(t, g, c) <==> indexed(s, g, c) && !(leg.group == Some(g) && c
            == leg.virtual_client)
    &&& forall|g: u32| #[trigger]
        t.group_floor.contains_key(g) <==> s.group_floor.contains_key(g) && !(leg.group == Some(g)
            && s.group_floor[g] == leg.brew_call_id)
    &&& forall|g: u32| #[trigger]
        t.group_floor.contains_key(g) ==> t.group_floor[g] == s.group_floor[g]
}

// ---- the end of a bridged call ----

/// A bridged call that is torn down leaves nothing behind: its transcoder is stopped, every other
/// participant of its Brew call is told that it is over, and its virtual client is gone from
/// everywhere. A call that is not bridged is left alone.
pub proof fn teardown_clears_the_call(x: Both, call_id: Seq<char>)
    ensures
        ({
            let (y, actions) = torn_down(x, call_id);
            let leg = x.bridge.legs[call_id];
            let call = x.brew.calls[leg.brew_call_id];
            let told = SipActionView::Brew(
                ActionView::Send {
                    to: clients_where(
                        x.brew,
                        |c: u128| c != leg.virtual_client && takes_part(call, c),
                    ),
                    frame: FrameView::CallCause {
                        state: if call.kind == CallKind::Group {
                            CallState::GroupIdle
                        } else {
                            CallState::Release
                        },
                        call: leg.brew_call_id,
                        cause: 0,
                    },
                },
            );
            &&& !x.bridge.legs.contains_key(call_id) ==> y == x && actions.len() == 0
            &&& x.bridge.legs.contains_key(call_id) ==> {
                &&& y.bridge.legs == x.bridge.legs.remove(call_id)
                &&& y.bridge.transport == x.bridge.transport
                &&& cleared(x.brew, y.brew, leg)
                &&& actions.last() == SipActionView::Brew(
                    ActionView::CallEnded { id: leg.brew_call_id },
                )
                &&& leg.running ==> actions[0] == (SipActionView::AbortTranscoder { call_id })
                &&& x.brew.calls.contains_key(leg.brew_call_id) ==> actions[actions.len() - 2] == told
                &&& actions.len() == 1 + (if leg.running {
                    1int
                } else {
                    0
                }) + (if x.brew.calls.contains_key(leg.brew_call_id) {
                    1int
                } else {
                    0
                })
            }
        }),
{
    let leg = x.bridge.legs[call_id];
    let call = x.brew.calls[leg.brew_call_id];
    assert(x.brew.connected(call.participants().remove(leg.virtual_client)) =~= clients_where(
        x.brew,
        |c: u128| c != leg.virtual_client && takes_part(call, c),
    ));
}

/// A bridged call that is ended from this side is torn down, and its SIP peer gets a BYE first where
/// its dialog is known.
pub proof fn forced_end_says_bye(x: Both, call_id: Seq<char>, tok: TokensView)
    ensures
        ({
            let (y, actions) = forced(x, call_id, tok);
            let (z, torn) = torn_down(x, call_id);
            let leg = x.bridge.legs[call_id];
            &&& y == z
            &&& x.bridge.legs.contains_key(call_id) && leg.bye is Some ==> actions == seq![
                farewell_to(
                    x.bridge.transport.advertised_host,
                    leg.bye->0,
                    call_id,
                    tok.dialog_branch,
                ),
            ] + torn
            &&& !(x.bridge.legs.contains_key(call_id) && leg.bye is Some) ==> actions == torn
        }),
{
    let (y, actions) = forced(x, call_id, tok);
    let torn = torn_down(x, call_id).1;
    if !(x.bridge.legs.contains_key(call_id) && x.bridge.legs[call_id].bye is Some) {
        assert(actions =~= torn);
    }
}

/// When the Brew side has ended a call, the SIP call that it is bridged to is ended from this side,
/// with its record; where it is bridged to none nothing happens.
pub proof fn brew_end_ends_the_sip_call(x: Both, brew_call: u128, found: Option<Seq<char>>, tok: TokensView)
    requires
        bridges(x.bridge.legs, brew_call, found),
    ensures
        ({
            let (y, actions) = brew_call_over(x, found, tok);
            &&& found matches Some(call_id) ==> {
                let (z, told) = forced(x, call_id, tok);
                &&& x.bridge.legs.contains_key(call_id)
                &&& x.bridge.legs[call_id].brew_call_id == brew_call
                &&& actions == told
                &&& y.brew == z.brew && y.bridge.legs == z.bridge.legs
                &&& y.bridge.transport == (TransportView {
                    sip: call_ended(x.bridge.transport.sip, call_id),
                    ..x.bridge.transport
                })
            }
            &&& found is None ==> {
                &&& y == x && actions.len() == 0
                &&& forall|k: Seq<char>| #[trigger]
                    x.bridge.legs.contains_key(k) ==> x.bridge.legs[k].brew_call_id != brew_call
            }
        }),
{
}

// ---- responses of the SIP peer ----

/// Whether a response to the call still counts: it was placed for a subscriber whose client is
/// connected, and has been neither answered nor refused.
pub open spec fn waiting(x: Both, call_id: Seq<char>) -> bool {
    &&& x.bridge.legs.contains_key(call_id)
    &&& x.bridge.legs[call_id].subscriber is Some
    &&& x.brew.clients.contains_key(x.bridge.legs[call_id].subscriber->0)
    &&& !x.bridge.legs[call_id].connected
}

/// Every final failure, be it 4xx, 5xx or 6xx, releases the call: the subscriber is told, nothing of
/// the call is left on the Brew side or among the bridged calls, and the SIP call is ended.
pub proof fn failure_releases_the_subscriber(
    x: Both,
    call_id: Seq<char>,
    code: u16,
    to: Option<Seq<char>>,
    peer: SocketAddress,
    body: Seq<u8>,
    media: Option<SocketAddress>,
    now: Now,
    tok: TokensView,
)
    requires
        waiting(x, call_id),
        code >= 400,
    ensures
        ({
            let leg = x.bridge.legs[call_id];
            let (y, actions) = responded(x, call_id, code, to, peer, body, media, now, tok);
            &&& actions == seq![
                to_one(
                    x.brew,
                    leg.subscriber->0,
                    FrameView::CallCause {
                        state: CallState::Release,
                        call: leg.brew_call_id,
                        cause: 0,
                    },
                ),
            ] + torn_down(x, call_id).1
            &&& y.bridge.legs == x.bridge.legs.remove(call_id)
            &&& cleared(x.brew, y.brew, leg)
            &&& !y.brew.clients.contains_key(leg.virtual_client)
            &&& !y.brew.calls.contains_key(leg.brew_call_id)
            &&& !y.bridge.transport.sip.calls.contains_key(call_id)
            &&& y.bridge.transport == (TransportView {
                sip: call_ended(x.bridge.transport.sip, call_id),
                ..x.bridge.transport
            })
        }),
{
    teardown_clears_the_call(x, call_id);
    let leg = x.bridge.legs[call_id];
    lemma_to_one(
        x.brew,
        leg.subscriber->0,
        FrameView::CallCause { state: CallState::Release, call: leg.brew_call_id, cause: 0 },
    );
}

/// The first sign of ringing alerts the subscriber, and no later one does; nothing else changes but
/// that the call has rung.
pub proof fn ringing_alerts_the_subscriber(
    x: Both,
    call_id: Seq<char>,
    code: u16,
    to: Option<Seq<char>>,
    peer: SocketAddress,
    body: Seq<u8>,
    media: Option<SocketAddress>,
    now: Now,
    tok: TokensView,
)
    requires
        waiting(x, call_id),
        code == 180 || code == 183,
    ensures
        ({
            let leg = x.bridge.legs[call_id];
            let (y, actions) = responded(x, call_id, code, to, peer, body, media, now, tok);
            &&& leg.rang ==> y == x && actions.len() == 0
            &&& !leg.rang ==> {
                &&& actions == seq![
                    to_one(
                        x.brew,
                        leg.subscriber->0,
                        FrameView::Control { state: CallState::Alert, call: leg.brew_call_id },
                    ),
                ]
                &&& y.brew == x.brew && y.bridge.transport == x.bridge.transport
                &&& y.bridge.legs == x.bridge.legs.insert(
                    call_id,
                    BridgedView { rang: true, ..leg },
                )
            }
        }),
{
    let leg = x.bridge.legs[call_id];
    lemma_to_one(
        x.brew,
        leg.subscriber->0,
        FrameView::Control { state: CallState::Alert, call: leg.brew_call_id },
    );
}

/// An answer connects the subscriber, marks the SIP call as answered, starts the transcoder on the
/// waiting leg where the answer has a description, and is acknowledged to the peer that it came from,
/// under the To header of the answer.
pub proof fn answer_connects_the_subscriber(
    x: Both,
    call_id: Seq<char>,
    to: Option<Seq<char>>,
    peer: SocketAddress,
    body: Seq<u8>,
    media: Option<SocketAddress>,
    now: Now,
    tok: TokensView,
)
    requires
        waiting(x, call_id),
    ensures
        ({
            let leg = x.bridge.legs[call_id];
            let sdp = sdp_of(body_text(body));
            let starts = sdp is Some && leg.pending is Some;
            let host = x.bridge.transport.advertised_host;
            let (y, actions) = responded(x, call_id, 200, to, peer, body, media, now, tok);
            let n = if starts {
                2int
            } else {
                1
            };
            &&& actions[0] == to_one(
                x.brew,
                leg.subscriber->0,
                FrameView::ConnectRequest {
                    call: leg.brew_call_id,
                    source: 0,
                    destination: leg.subscriber_issi,
                    priority: 0,
                },
            )
            &&& starts ==> {
                let pending = leg.pending->0;
                &&& actions[1] matches SipActionView::StartTranscoder { call_id: k, leg: l, media: m }
                &&& k == call_id
                &&& l.local_port == pending.leg.local_port && l.last_rx_ms
                    == pending.leg.last_rx_ms
                &&& l.remote == (if media is Some {
                    media
                } else {
                    pending.leg.remote
                })
                &&& m.brew_call == leg.brew_call_id && m.client == leg.virtual_client
                &&& m.targets == pending.targets
                &&& first_g711(sdp->0.payload_types, m.payload_type)
            }
            &&& leg.bye matches Some(d) ==> actions[n] == (SipActionView::Send {
                message: in_dialog(
                    MethodView::Ack,
                    "1 ACK"@,
                    host,
                    d,
                    if to is Some {
                        to->0
                    } else {
                        d.to
                    },
                    call_id,
                    tok.dialog_branch,
                ),
                to: peer,
            })
            &&& actions.len() == n + (if leg.bye is Some {
                1int
            } else {
                0
            })
            &&& y.brew == x.brew
            &&& y.bridge.legs == x.bridge.legs.insert(
                call_id,
                BridgedView {
                    connected: true,
                    running: leg.running || starts,
                    pending: if starts {
                        None
                    } else {
                        leg.pending
                    },
                    ..leg
                },
            )
            &&& y.bridge.transport == (TransportView {
                sip: call_answered(x.bridge.transport.sip, call_id, now.epoch_ms),
                ..x.bridge.transport
            })
        }),
{
    let leg = x.bridge.legs[call_id];
    lemma_to_one(
        x.brew,
        leg.subscriber->0,
        FrameView::ConnectRequest {
            call: leg.brew_call_id,
            source: 0,
            destination: leg.subscriber_issi,
            priority: 0,
        },
    );
    if let Some(sdp) = sdp_of(body_text(body)) {
        transcoder_takes_the_first_g711(sdp.payload_types);
    }
}

/// Whether no payload type among the first `n` of a list is PCMU or PCMA.
pub open spec fn none_before(list: Seq<u8>, n: int) -> bool {
    forall|j: int| 0 <= j < n ==> #[trigger] list[j] != 0 && list[j] != 8
}

/// `p` is the first payload type of the list that is PCMU or PCMA, or PCMU where it has neither.
pub open spec fn first_g711(list: Seq<u8>, p: u8) -> bool {
    &&& forall|i: int|
        0 <= i < list.len() && (list[i] == 0 || list[i] == 8) && none_before(list, i) ==> p
            == #[trigger] list[i]
    &&& none_before(list, list.len() as int) ==> p == 0
}

proof fn lemma_transcoded(list: Seq<u8>, i: int)
    requires
        0 <= i <= list.len(),
        none_before(list, i),
        i < list.len() ==> list[i] == 0 || list[i] == 8,
    ensures
        transcoded(list) == if i < list.len() {
            list[i]
        } else {
            0
        },
    decreases i,
{
    if i > 0 {
        let rest = list.drop_first();
        assert(list[0] != 0 && list[0] != 8);
        assert forall|j: int| 0 <= j < i - 1 implies #[trigger] rest[j] != 0 && rest[j] != 8 by {
            assert(rest[j] == list[j + 1]);
        }
        lemma_transcoded(rest, i - 1);
    }
}

/// A transcoder runs at the first G.711 payload type of the list, or at PCMU where there is none.
pub proof fn transcoder_takes_the_first_g711(list: Seq<u8>)
    ensures
        first_g711(list, transcoded(list)),
{
    assert forall|i: int|
        0 <= i < list.len() && (list[i] == 0 || list[i] == 8) && none_before(
            list,
            i,
        ) implies transcoded(list) == #[trigger] list[i] by {
        lemma_transcoded(list, i);
    }
    if none_before(list, list.len() as int) {
        lemma_transcoded(list, list.len() as int);
    }
}

/// Any other response, and any response to a call that does not wait for one, does nothing.
pub proof fn other_responses_are_ignored(
    x: Both,
    call_id: Seq<char>,
    code: u16,
    to: Option<Seq<char>>,
    peer: SocketAddress,
    body: Seq<u8>,
    media: Option<SocketAddress>,
    now: Now,
    tok: TokensView,
)
    requires
        !waiting(x, call_id) || (code != 180 && code != 183 && code != 200 && code < 400),
    ensures
        responded(x, call_id, code, to, peer, body, media, now, tok) == (
            x,
            Seq::<SipActionView>::empty(),
        ),
{
}

// ---- the callee of a call from SIP ----

/// Acceptance or an alert of the callee gets the caller the prepared ringing, once.
pub proof fn callee_rings_the_caller_once(
    x: Both,
    call_id: Seq<char>,
    h: HandshakeView,
    state: CallState,
    now: Now,
)
    requires
        state == CallState::SetupAccept || state == CallState::Alert,
    ensures
        ({
            let (y, g, actions, over) = controlled(x, call_id, h, state, now);
            &&& y == x && !over
            &&& g == (HandshakeView { rang: true, ..h })
            &&& actions == (if h.rang {
                Seq::empty()
            } else {
                seq![SipActionView::Send { message: h.ringing, to: h.caller }]
            })
        }),
{
}

/// A connect request of the callee is confirmed to its client, gets the caller the prepared answer,
/// and marks the SIP call as answered.
pub proof fn callee_answers_the_caller(x: Both, call_id: Seq<char>, h: HandshakeView, now: Now)
    ensures
        ({
            let (y, g, actions, over) = controlled(
                x,
                call_id,
                h,
                CallState::ConnectRequest,
                now,
            );
            let ok = SipActionView::Send { message: h.ok, to: h.caller };
            &&& over
            &&& g == h
            &&& h.confirm matches Some(c) ==> actions == seq![
                to_one(
                    x.brew,
                    c,
                    FrameView::ConnectConfirm { call: h.brew_call_id, grant: 0, permission: 0 },
                ),
                ok,
            ]
            &&& h.confirm is None ==> actions == seq![ok]
            &&& y.brew == x.brew && y.bridge.legs == x.bridge.legs
            &&& y.bridge.transport == (TransportView {
                sip: call_answered(x.bridge.transport.sip, call_id, now.epoch_ms),
                ..x.bridge.transport
            })
        }),
{
    if let Some(c) = h.confirm {
        lemma_to_one(
            x.brew,
            c,
            FrameView::ConnectConfirm { call: h.brew_call_id, grant: 0, permission: 0 },
        );
    }
    let actions = controlled(x, call_id, h, CallState::ConnectRequest, now).2;
    if h.confirm is None {
        assert(actions =~= seq![SipActionView::Send { message: h.ok, to: h.caller }]);
    }
}

/// A refusal or a release of the callee gets the caller the prepared refusal, and ends the call on
/// both sides.
pub proof fn callee_refuses_the_caller(
    x: Both,
    call_id: Seq<char>,
    h: HandshakeView,
    state: CallState,
    now: Now,
)
    requires
        state == CallState::SetupReject || state == CallState::Release,
    ensures
        ({
            let (y, g, actions, over) = controlled(x, call_id, h, state, now);
            let (z, torn) = torn_down(x, call_id);
            &&& over
            &&& actions == seq![SipActionView::Send { message: h.reject, to: h.caller }] + torn
            &&& y.brew == z.brew && y.bridge.legs == z.bridge.legs
            &&& y.bridge.transport == (TransportView {
                sip: call_ended(x.bridge.transport.sip, call_id),
                ..x.bridge.transport
            })
        }),
{
}

/// No other control of the callee reaches the caller.
pub proof fn other_control_stays_on_the_brew_side(
    x: Both,
    call_id: Seq<char>,
    h: HandshakeView,
    state: CallState,
    now: Now,
)
    requires
        state != CallState::SetupAccept && state != CallState::Alert,
        state != CallState::ConnectRequest,
        state != CallState::SetupReject && state != CallState::Release,
    ensures
        controlled(x, call_id, h, state, now) == (x, h, Seq::<SipActionView>::empty(), false),
{
}

} // verus!
