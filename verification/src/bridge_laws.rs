//! What holds of bridged calls.
use crate::addr::SocketAddress;
use crate::brew::{ActionView, BrewView, CallState, FrameView, Now};
use crate::brew_laws::floors_held;
use crate::bridge::{
    brew_call_over, farewell, media_start, responded, transcoded, unbridged, Both, BrewCallLink,
    BridgedView,
};
use crate::bridging::{
    controlled, dialog_to, group_bridged, handshake, inbound_leg, private_bridged,
    virtual_client, HandshakeView,
};
use crate::media::{body_text, sdp_of};
use crate::dialog::{caller_dialog, DialogView};
use crate::message::{response_headers, text_header, RequestView, SipMessageView};
use crate::outbound::outbound_bridged;
use crate::router::{call_frame, others};
use crate::sweep::{holds_floor, silent};
use crate::transport::{SipActionView, TokensView};
use vstd::prelude::*;
use vstd::string::*;

verus! {

// ---- responses of the SIP peer ----

/// A ringing response that is sent again changes nothing and causes nothing.
pub proof fn repeated_ringing_is_ignored(
    x: Both,
    call_id: Seq<char>,
    first: u16,
    second: u16,
    to: Option<Seq<char>>,
    peer: SocketAddress,
    body: Seq<u8>,
    media: Option<SocketAddress>,
    now: Now,
    later: Now,
    tok: TokensView,
    tok2: TokensView,
)
    requires
        first == 180 || first == 183,
        second == 180 || second == 183,
    ensures
        ({
            let y = responded(x, call_id, first, to, peer, body, media, now, tok).0;
            responded(y, call_id, second, to, peer, body, media, later, tok2) == (
                y,
                Seq::<SipActionView>::empty(),
            )
        }),
{
}

/// Once the peer has answered, no further response changes anything or causes anything.
pub proof fn repeated_answer_is_ignored(
    x: Both,
    call_id: Seq<char>,
    code: u16,
    to: Option<Seq<char>>,
    peer: SocketAddress,
    body: Seq<u8>,
    again: Seq<u8>,
    media: Option<SocketAddress>,
    now: Now,
    later: Now,
    tok: TokensView,
    tok2: TokensView,
)
    ensures
        ({
            let y = responded(x, call_id, 200, to, peer, body, media, now, tok).0;
            responded(y, call_id, code, to, peer, again, media, later, tok2) == (
                y,
                Seq::<SipActionView>::empty(),
            )
        }),
{
}

/// The transcoder of a call to SIP is started at the codec of the peer's answer, and not before.
pub proof fn transcoder_waits_for_the_answer(
    leg: BridgedView,
    call_id: Seq<char>,
    body: Seq<u8>,
    media: Option<SocketAddress>,
)
    requires
        leg.pending is Some,
        sdp_of(body_text(body)) is Some,
    ensures
        media_start(call_id, leg, body, media).len() == 1,
        media_start(call_id, leg, body, media)[0] matches SipActionView::StartTranscoder {
            media: m,
            ..
        } && m.payload_type == transcoded(sdp_of(body_text(body))->0.payload_types),
{
}

// ---- the dialog with a SIP caller ----

/// The message has the To header.
pub open spec fn has_to(m: SipMessageView, to: Seq<char>) -> bool {
    m.headers.contains(text_header("To"@, to))
}

proof fn lemma_to(req: RequestView, to: Seq<char>)
    ensures
        response_headers(req, Some(to)).contains(text_header("To"@, to)),
{
    let hs = response_headers(req, Some(to));
    let i = req.vias.len() + (if req.from is Some {
        1int
    } else {
        0
    });
    assert(hs[i] == text_header("To"@, to));
}

/// Whatever the caller of a private call is answered, it is in one dialog: the ringing, the answer
/// and the refusal carry the same To header, and a later BYE names it as its sender.
pub proof fn responses_share_one_dialog(
    host: Seq<char>,
    caller: SocketAddress,
    caller_text: Seq<char>,
    req: RequestView,
    port: u16,
    payloads: Seq<u8>,
    confirm: Option<u128>,
    tok: TokensView,
)
    ensures
        ({
            let h = handshake(host, caller, req, port, payloads, confirm, tok);
            let to = dialog_to(req, tok);
            &&& has_to(h.ringing, to)
            &&& has_to(h.ok, to)
            &&& has_to(h.reject, to)
            &&& caller_dialog(req, caller, caller_text, Some(to)) matches Some(d) ==> d.from == to
        }),
{
    let to = dialog_to(req, tok);
    lemma_to(req, to);
    let hs = response_headers(req, Some(to));
    let i = choose|i: int| 0 <= i < hs.len() && hs[i] == text_header("To"@, to);
    let h = handshake(host, caller, req, port, payloads, confirm, tok);
    assert(h.ringing.headers[i] == hs[i]);
    assert(h.ok.headers[i] == hs[i]);
    assert(h.reject.headers[i] == hs[i]);
}

/// The caller hears of ringing once, however often the callee says so.
pub proof fn ringing_is_told_once(
    x: Both,
    call_id: Seq<char>,
    h: HandshakeView,
    first: CallState,
    second: CallState,
    now: Now,
    later: Now,
)
    requires
        first == CallState::SetupAccept || first == CallState::Alert,
        second == CallState::SetupAccept || second == CallState::Alert,
    ensures
        ({
            let (y, g, _, _) = controlled(x, call_id, h, first, now);
            controlled(y, call_id, g, second, later) == (
                y,
                g,
                Seq::<SipActionView>::empty(),
                false,
            )
        }),
{
}

// ---- traces ----

/// A private call from SIP leaves no trace on the Brew side.
pub proof fn private_bridge_leaves_no_trace(
    s: BrewView,
    issi: u32,
    target: u128,
    bye: Option<DialogView>,
    now: Now,
    tok: TokensView,
)
    requires
        !s.clients.contains_key(tok.client),
        !s.calls.contains_key(tok.brew_call),
    ensures
        unbridged(private_bridged(s, issi, target, now, tok), inbound_leg(None, bye, tok)) == s,
{
    let t = unbridged(private_bridged(s, issi, target, now, tok), inbound_leg(None, bye, tok));
    assert(t.clients =~= s.clients);
    assert(t.calls =~= s.calls);
}

/// A group call from SIP leaves nothing on the Brew side but that the floor of the group is free.
pub proof fn group_bridge_leaves_no_trace(
    s: BrewView,
    gssi: u32,
    bye: Option<DialogView>,
    now: Now,
    tok: TokensView,
    g: u32,
)
    requires
        !s.clients.contains_key(tok.client),
        !s.calls.contains_key(tok.brew_call),
        !s.affiliated(gssi).contains(tok.client),
    ensures
        ({
            let t = unbridged(
                group_bridged(s, gssi, now, tok),
                inbound_leg(Some(gssi), bye, tok),
            );
            &&& t.clients == s.clients
            &&& t.calls == s.calls
            &&& t.subscribers == s.subscribers
            &&& t.affiliated(g) == s.affiliated(g)
            &&& t.group_floor == s.group_floor.remove(gssi)
        }),
{
    let t = unbridged(group_bridged(s, gssi, now, tok), inbound_leg(Some(gssi), bye, tok));
    assert(t.clients =~= s.clients);
    assert(t.calls =~= s.calls);
    assert(t.affiliated(g) =~= s.affiliated(g));
    assert(t.group_floor =~= s.group_floor.remove(gssi));
}

/// A call to SIP leaves no trace on the Brew side.
pub proof fn outbound_bridge_leaves_no_trace(
    s: BrewView,
    link: BrewCallLink,
    leg: BridgedView,
    now: Now,
    tok: TokensView,
)
    requires
        !s.clients.contains_key(tok.client),
        !s.calls.contains_key(link.call_id),
        leg.virtual_client == tok.client,
        leg.brew_call_id == link.call_id,
        leg.group is None,
    ensures
        unbridged(outbound_bridged(s, link, now, tok), leg) == s,
{
    let t = unbridged(outbound_bridged(s, link, now, tok), leg);
    assert(t.clients =~= s.clients);
    assert(t.calls =~= s.calls);
}

/// When the Brew side has ended a bridged call, its participants are not told again, and nothing of
/// the call is left on the SIP side.
pub proof fn brew_hang_up_is_told_once(
    x: Both,
    call_id: Seq<char>,
    tok: TokensView,
)
    requires
        x.bridge.legs.contains_key(call_id),
        !x.brew.calls.contains_key(x.bridge.legs[call_id].brew_call_id),
    ensures
        farewell(x.brew, x.bridge.legs[call_id]).len() == 0,
        !brew_call_over(x, Some(call_id), tok).0.bridge.legs.contains_key(call_id),
        !brew_call_over(x, Some(call_id), tok).0.bridge.transport.sip.calls.contains_key(call_id),
{
}

// ---- media and timeouts ----

/// The router takes the callee's frames to the virtual client, and those of the virtual client to
/// the callee.
pub proof fn frames_cross_the_bridge(
    s: BrewView,
    issi: u32,
    target: u128,
    now: Now,
    later: Now,
    tok: TokensView,
)
    requires
        s.clients.contains_key(target),
        target != tok.client,
    ensures
        ({
            let t = private_bridged(s, issi, target, now, tok);
            &&& call_frame(t, target, tok.brew_call, true, later).1 =~= seq![
                ActionView::VoiceFrame { id: tok.brew_call },
                ActionView::Send { to: set![tok.client], frame: FrameView::Verbatim },
            ]
            &&& call_frame(t, tok.client, tok.brew_call, true, later).1 =~= seq![
                ActionView::VoiceFrame { id: tok.brew_call },
                ActionView::Send { to: set![target], frame: FrameView::Verbatim },
            ]
        }),
{
    let t = private_bridged(s, issi, target, now, tok);
    let call = t.calls[tok.brew_call];
    assert(t.connected(others(call, target)) =~= set![tok.client]);
    assert(t.connected(others(call, tok.client)) =~= set![target]);
}

/// A bridged call is never ended for its silence on the Brew side: that is judged by its RTP.
pub proof fn bridged_calls_are_not_silent(
    s: BrewView,
    issi: u32,
    target: u128,
    gssi: u32,
    link: BrewCallLink,
    idle_ms: u64,
    now: Now,
    later: Now,
    tok: TokensView,
)
    ensures
        ({
            let t = private_bridged(s, issi, target, now, tok);
            !silent(idle_ms, t.bridged(), later)(t.calls[tok.brew_call])
        }),
        ({
            let t = group_bridged(s, gssi, now, tok);
            !silent(idle_ms, t.bridged(), later)(t.calls[tok.brew_call])
        }),
        ({
            let t = outbound_bridged(s, link, now, tok);
            !silent(idle_ms, t.bridged(), later)(t.calls[link.call_id])
        }),
{
    let a = private_bridged(s, issi, target, now, tok);
    assert(a.bridged().contains(tok.client));
    assert(a.calls[tok.brew_call].participants().contains(tok.client));
    let b = group_bridged(s, gssi, now, tok);
    assert(b.bridged().contains(tok.client));
    assert(b.calls[tok.brew_call].participants().contains(tok.client));
    let c = outbound_bridged(s, link, now, tok);
    assert(c.bridged().contains(tok.client));
    assert(c.calls[link.call_id].participants().contains(tok.client));
}

/// Bridged calls, too, leave no floor with a call that is not one to its group.
pub proof fn bridging_keeps_floors(
    s: BrewView,
    gssi: u32,
    bye: Option<DialogView>,
    now: Now,
    tok: TokensView,
)
    requires
        floors_held(s),
        !s.calls.contains_key(tok.brew_call),
    ensures
        floors_held(group_bridged(s, gssi, now, tok)),
        floors_held(
            unbridged(group_bridged(s, gssi, now, tok), inbound_leg(Some(gssi), bye, tok)),
        ),
{
    let t = group_bridged(s, gssi, now, tok);
    assert forall|g: u32| #[trigger] t.group_floor.contains_key(g) implies holds_floor(t, g) by {
        if g != gssi {
            assert(holds_floor(s, g));
        }
    }
    let u = unbridged(t, inbound_leg(Some(gssi), bye, tok));
    assert forall|g: u32| #[trigger] u.group_floor.contains_key(g) implies holds_floor(u, g) by {
        assert(g != gssi);
        assert(holds_floor(s, g));
    }
}

} // verus!
