//! How calls are put through and placed, told by what each side is sent.
use crate::addr::SocketAddress;
use crate::brew::{
    ActionView, BrewView, CallKind, CallState, CallView, Client, ClientMode, FrameView, Now,
};
use crate::bridge::{transcoded, Both, BrewCallLink, BridgedView, PendingView};
use crate::bridging::HandshakeView;
use crate::config::Config;
use crate::dialog::DialogView;
use crate::dispatch::dispatched;
use crate::invite::InvitationView;
use crate::media::sdp_text;
use crate::message::{MethodView, RequestView, SipMessageView, StartView, ValueView};
use crate::outbound::{destination, offered_to_sip};
use crate::peer_laws::{line, own_via};
use crate::request_laws::{echo, response_echoes_the_request, says, to_with};
use crate::router_laws::{clients_where, indexed};
use crate::routing::{resolved, routes_view, OriginView};
use crate::rtp::RtpLeg;
use crate::sip_state::{call_answered, call_ended, call_started, LegView, SipCallView, SipView};
use crate::text::{before_first, decimal};
use crate::transport::{SipActionView, TokensView, TransportView};
use vstd::prelude::*;
use vstd::string::*;
use vstd::utf8::*;

verus! {

// ---- vocabulary ----

/// The URI of a user at a host.
pub open spec fn uri_of(user: Seq<char>, host: Seq<char>) -> Seq<char> {
    "sip:"@ + user + "@"@ + host
}

/// A URI as it stands in a header.
pub open spec fn bracketed(uri: Seq<char>) -> Seq<char> {
    "<"@ + uri + ">"@
}

/// The part of a host before its port.
pub open spec fn bare_host(host: Seq<char>) -> Seq<char> {
    before_first(host, ':')
}

/// An INVITE of this server with a description of its media.
pub open spec fn invites(
    target: SocketAddress,
    uri: Seq<char>,
    host: Seq<char>,
    branch: Seq<char>,
    from: Seq<char>,
    to: Seq<char>,
    call_id: Seq<char>,
    contact: Seq<char>,
    port: u16,
    payloads: Seq<u8>,
) -> SipActionView {
    SipActionView::Send {
        message: SipMessageView {
            start: StartView::Request { method: MethodView::Invite, uri },
            headers: seq![
                own_via(host, branch),
                line("Max-Forwards"@, "70"@),
                line("From"@, from),
                line("To"@, to),
                line("Call-ID"@, call_id),
                line("CSeq"@, "1 INVITE"@),
                line("Contact"@, contact),
                line("Content-Type"@, "application/sdp"@),
            ],
            body: encode_utf8(sdp_text(host, port, payloads)),
        },
        to: target,
    }
}

/// The Contact of this server.
pub open spec fn own_contact(host: Seq<char>) -> (Seq<char>, ValueView) {
    line("Contact"@, bracketed(uri_of("brew"@, host)))
}

/// The answer that a caller gets, with a description of the media of this server.
pub open spec fn takes(
    req: RequestView,
    to: Option<Seq<char>>,
    host: Seq<char>,
    port: u16,
    payloads: Seq<u8>,
) -> SipMessageView {
    echo(
        req,
        200,
        "OK"@,
        to,
        seq![own_contact(host), line("Content-Type"@, "application/sdp"@)],
        encode_utf8(sdp_text(host, port, payloads)),
    )
}

/// What ends the dialog with a caller: it is addressed at its contact where it gave one, and else at
/// its address; the two ends of the dialog change places.
pub open spec fn way_back(
    req: RequestView,
    caller: SocketAddress,
    caller_text: Seq<char>,
    to: Option<Seq<char>>,
    d: Option<DialogView>,
) -> bool {
    &&& d is Some <==> to is Some && req.from is Some
    &&& d matches Some(d) ==> {
        &&& d.target_addr == caller
        &&& d.from == to->0 && d.to == req.from->0
        &&& req.contact is Some ==> d.request_uri == req.contact_uri
        &&& req.contact is None ==> d.request_uri == "sip:"@ + caller_text
    }
}

/// The leg of the caller sends to where its offer says, where that is known.
pub open spec fn sends_to(leg: RtpLeg, media: Option<SocketAddress>, l: RtpLeg) -> bool {
    &&& l.local_port == leg.local_port && l.last_rx_ms == leg.last_rx_ms
    &&& media is Some ==> l.remote == media
    &&& media is None ==> l.remote == leg.remote
}

/// The state of a call has the ports and the clocks of its legs, behind the clocks that it had.
pub open spec fn notes_legs(s: SipView, t: SipView, id: Seq<char>, legs: Seq<RtpLeg>) -> bool {
    let old = if s.media.contains_key(id) {
        s.media[id]
    } else {
        seq![]
    };
    &&& t.media == s.media.insert(id, old + Seq::new(legs.len(), |i: int| legs[i].last_rx_ms))
    &&& t == (SipView { media: t.media, calls: t.calls, ..s })
    &&& !s.calls.contains_key(id) ==> t.calls == s.calls
    &&& s.calls.contains_key(id) ==> t.calls == s.calls.insert(
        id,
        SipCallView {
            rtp_a_port: Some(legs[0].local_port),
            rtp_b_port: if legs.len() > 1 {
                Some(legs[1].local_port)
            } else {
                s.calls[id].rtp_b_port
            },
            ..s.calls[id]
        },
    )
}

// ---- calls that stay on the SIP side ----

/// A call that cannot be put through is answered with the code, and its record is gone.
pub open spec fn given_up(
    x: Both,
    y: Both,
    actions: Seq<SipActionView>,
    caller: SocketAddress,
    req: RequestView,
    id: Seq<char>,
    code: u16,
    reason: Seq<char>,
    tok: TokensView,
) -> bool {
    &&& actions == seq![says(caller, req, code, reason, seq![], tok)]
    &&& y.brew == x.brew && y.bridge.legs == x.bridge.legs
    &&& y.bridge.transport == (TransportView {
        sip: call_ended(x.bridge.transport.sip, id),
        ..x.bridge.transport
    })
}

/// A call that is put through: the two legs are relayed, the caller is answered with the port of the
/// first and the callee invited with that of the second, the call is noted as answered, and both
/// dialogs are kept for its end.
pub open spec fn connected_through(
    x: Both,
    y: Both,
    actions: Seq<SipActionView>,
    caller: SocketAddress,
    caller_text: Seq<char>,
    req: RequestView,
    call: InvitationView,
    media: Option<SocketAddress>,
    first: RtpLeg,
    second: RtpLeg,
    now: Now,
    tok: TokensView,
    target: SocketAddress,
    uri: Seq<char>,
    from: Seq<char>,
    contact: Seq<char>,
) -> bool {
    let t = x.bridge.transport;
    let u = y.bridge.transport;
    let host = t.advertised_host;
    let id = call.call_id;
    &&& actions.len() == 3
    &&& actions[0] matches SipActionView::StartRelay { call_id, a, b } && call_id == id && sends_to(
        first,
        media,
        a,
    ) && b == second
    &&& actions[1] == (SipActionView::Send {
        message: takes(req, to_with(req, tok.tag), host, first.local_port, call.payloads),
        to: caller,
    })
    &&& actions[2] == invites(
        target,
        uri,
        host,
        tok.branch,
        from,
        bracketed(uri),
        id,
        contact,
        second.local_port,
        call.payloads,
    )
    &&& y.brew == x.brew && y.bridge.legs == x.bridge.legs
    &&& u == (TransportView { sip: u.sip, relays: u.relays, ..t })
    &&& u.relays == t.relays.insert(id, u.relays[id])
    &&& way_back(req, caller, caller_text, to_with(req, tok.tag), u.relays[id].caller)
    &&& u.relays[id].callee == (DialogView {
        request_uri: uri,
        target_addr: target,
        from,
        to: bracketed(uri),
    })
    &&& exists|noted: SipView|
        notes_legs(t.sip, noted, id, seq![first, second]) && u.sip == #[trigger] call_answered(
            noted,
            id,
            now.epoch_ms,
        )
}

proof fn lemma_takes(
    req: RequestView,
    host: Seq<char>,
    port: u16,
    payloads: Seq<u8>,
    tag: Seq<char>,
)
    ensures
        crate::invite::answer(req, host, port, payloads, tag) == takes(
            req,
            to_with(req, tag),
            host,
            port,
            payloads,
        ),
{
    response_echoes_the_request(req, 200, "OK"@, tag, seq![]);
    assert(crate::invite::answer(req, host, port, payloads, tag).headers =~= takes(
        req,
        to_with(req, tag),
        host,
        port,
        payloads,
    ).headers);
}

/// A call to an extension goes to where it has registered, as long as its binding lasts: the call is
/// put through there, at the contact that it gave. Without a binding it is unavailable, and without
/// two legs the call cannot be had.
pub proof fn extension_is_called_at_its_contact(
    x: Both,
    config: Config,
    caller: SocketAddress,
    caller_text: Seq<char>,
    req: RequestView,
    call: InvitationView,
    configured: Option<SocketAddress>,
    media: Option<SocketAddress>,
    first: Option<RtpLeg>,
    second: Option<RtpLeg>,
    now: Now,
    tok: TokensView,
    aor: Seq<char>,
)
    requires
        call.to == (LegView::SipExtension { aor }),
    ensures
        ({
            let s = x.bridge.transport.sip;
            let host = x.bridge.transport.advertised_host;
            let reg = s.registrations[aor];
            let user = crate::request_laws::user_of(req);
            let (y, actions, h) = dispatched(
                x,
                config,
                caller,
                caller_text,
                req,
                call,
                configured,
                media,
                first,
                second,
                now,
                tok,
            );
            &&& h is None
            &&& if !(s.registrations.contains_key(aor) && reg.expires_at_ms > now.epoch_ms) {
                given_up(
                    x,
                    y,
                    actions,
                    caller,
                    req,
                    call.call_id,
                    480,
                    "Temporarily Unavailable"@,
                    tok,
                )
            } else if first is None || second is None {
                given_up(
                    x,
                    y,
                    actions,
                    caller,
                    req,
                    call.call_id,
                    500,
                    "Server Internal Error"@,
                    tok,
                )
            } else {
                connected_through(
                    x,
                    y,
                    actions,
                    caller,
                    caller_text,
                    req,
                    call,
                    media,
                    first->0,
                    second->0,
                    now,
                    tok,
                    reg.source,
                    reg.contact,
                    bracketed(uri_of(user, host)) + ";tag="@ + tok.local_tag,
                    bracketed(uri_of("brew"@, host)),
                )
            }
        }),
{
    response_echoes_the_request(req, 480, "Temporarily Unavailable"@, tok.tag, seq![]);
    response_echoes_the_request(req, 500, "Server Internal Error"@, tok.tag, seq![]);
    if first is Some && second is Some {
        let host = x.bridge.transport.advertised_host;
        lemma_takes(req, host, first->0.local_port, call.payloads, tok.tag);
        lemma_noted(
            x.bridge.transport.sip,
            call.call_id,
            crate::invite::aimed(first->0, media),
            first->0,
            second->0,
        );
    }
}

proof fn lemma_noted(s: SipView, id: Seq<char>, a: RtpLeg, first: RtpLeg, second: RtpLeg)
    requires
        a.local_port == first.local_port,
        a.last_rx_ms == first.last_rx_ms,
    ensures
        notes_legs(s, crate::invite::legs_noted(s, id, a, second), id, seq![first, second]),
{
    let noted = crate::invite::legs_noted(s, id, a, second);
    let old = if s.media.contains_key(id) {
        s.media[id]
    } else {
        seq![]
    };
    let legs = seq![first, second];
    assert(old.push(a.last_rx_ms).push(second.last_rx_ms) =~= old + Seq::new(
        legs.len(),
        |i: int| legs[i].last_rx_ms,
    ));
    assert(notes_legs(s, noted, id, legs));
}

/// A call to a provisioned trunk goes to where its peer was last heard from, or else to where it is
/// configured to be: the call is put through there, to the number at its host, from its user name (or
/// its name where it has none).
pub proof fn trunk_is_called_at_its_peer(
    x: Both,
    config: Config,
    caller: SocketAddress,
    caller_text: Seq<char>,
    req: RequestView,
    call: InvitationView,
    configured: Option<SocketAddress>,
    media: Option<SocketAddress>,
    first: Option<RtpLeg>,
    second: Option<RtpLeg>,
    now: Now,
    tok: TokensView,
    trunk: Seq<char>,
    number: Seq<char>,
)
    requires
        call.to == (LegView::SipTrunk { trunk, number }),
    ensures
        ({
            let s = x.bridge.transport.sip;
            let host = x.bridge.transport.advertised_host;
            let tc = config.sip.trunks@[trunk];
            let learned = s.trunks.contains_key(trunk) && s.trunks[trunk].peer_addr is Some;
            let target = if learned {
                s.trunks[trunk].peer_addr
            } else {
                configured
            };
            let own = bracketed(
                uri_of(
                    if tc.username.len() > 0 {
                        tc.username
                    } else {
                        trunk
                    },
                    host,
                ),
            );
            let (y, actions, h) = dispatched(
                x,
                config,
                caller,
                caller_text,
                req,
                call,
                configured,
                media,
                first,
                second,
                now,
                tok,
            );
            &&& h is None
            &&& if !config.sip.trunks@.contains_key(trunk) {
                given_up(x, y, actions, caller, req, call.call_id, 404, "Not Found"@, tok)
            } else if target is None {
                given_up(x, y, actions, caller, req, call.call_id, 502, "Bad Gateway"@, tok)
            } else if first is None || second is None {
                given_up(
                    x,
                    y,
                    actions,
                    caller,
                    req,
                    call.call_id,
                    500,
                    "Server Internal Error"@,
                    tok,
                )
            } else {
                connected_through(
                    x,
                    y,
                    actions,
                    caller,
                    caller_text,
                    req,
                    call,
                    media,
                    first->0,
                    second->0,
                    now,
                    tok,
                    target->0,
                    uri_of(number, bare_host(tc.remote_host)),
                    own + ";tag="@ + tok.local_tag,
                    own,
                )
            }
        }),
{
    response_echoes_the_request(req, 404, "Not Found"@, tok.tag, seq![]);
    response_echoes_the_request(req, 502, "Bad Gateway"@, tok.tag, seq![]);
    response_echoes_the_request(req, 500, "Server Internal Error"@, tok.tag, seq![]);
    if first is Some && second is Some {
        let host = x.bridge.transport.advertised_host;
        lemma_takes(req, host, first->0.local_port, call.payloads, tok.tag);
        lemma_noted(
            x.bridge.transport.sip,
            call.call_id,
            crate::invite::aimed(first->0, media),
            first->0,
            second->0,
        );
    }
}

/// A call to a URI outside is not put through, and is answered as not found.
pub proof fn external_uri_is_not_found(
    x: Both,
    config: Config,
    caller: SocketAddress,
    caller_text: Seq<char>,
    req: RequestView,
    call: InvitationView,
    configured: Option<SocketAddress>,
    media: Option<SocketAddress>,
    first: Option<RtpLeg>,
    second: Option<RtpLeg>,
    now: Now,
    tok: TokensView,
)
    requires
        call.to is SipExternal,
    ensures
        dispatched(
            x,
            config,
            caller,
            caller_text,
            req,
            call,
            configured,
            media,
            first,
            second,
            now,
            tok,
        ) == (x, seq![says(caller, req, 404, "Not Found"@, seq![], tok)], None::<HandshakeView>),
{
    response_echoes_the_request(req, 404, "Not Found"@, tok.tag, seq![]);
}

// ---- calls from SIP to the Brew side ----

/// A client that stands for the SIP side.
pub open spec fn stand_in(c: Client) -> bool {
    c.mode == ClientMode::Terminal && c.remote_addr is None && c.version == 1
}

/// A call of the bridge on the Brew side, between a client that owns it and others.
pub open spec fn bridge_has(
    call: CallView,
    kind: CallKind,
    owner: u128,
    destination: u32,
    now: Now,
) -> bool {
    &&& call.kind == kind && call.owner == owner && call.destination == destination
    &&& call.source_issi == 0 && call.priority == 0
    &&& call.started_at == now.mono_ns && call.last_activity_ms == now.epoch_ms
}

/// The Brew side has the client that stands for the SIP side, and the call.
pub open spec fn joined(s: BrewView, t: BrewView, client: u128, id: u128) -> bool {
    &&& t.clients == s.clients.insert(client, t.clients[client])
    &&& stand_in(t.clients[client])
    &&& t.calls == s.calls.insert(id, t.calls[id])
    &&& t.subscribers == s.subscribers
    &&& t.sds_routes == s.sds_routes
}

/// A leg of a call from SIP, whose transcoder runs from the start.
pub open spec fn from_sip(leg: BridgedView, group: Option<u32>, tok: TokensView) -> bool {
    &&& leg.virtual_client == tok.client && leg.brew_call_id == tok.brew_call
    &&& leg.group == group && leg.running && leg.pending is None
    &&& leg.subscriber is None && leg.subscriber_issi == 0
    &&& !leg.rang && !leg.connected
}

/// A transcoder between the caller's leg and the Brew call is started, at a codec of the call.
pub open spec fn transcodes(
    a: SipActionView,
    call: InvitationView,
    leg: RtpLeg,
    media: Option<SocketAddress>,
    targets: Set<u128>,
    tok: TokensView,
) -> bool {
    &&& a matches SipActionView::StartTranscoder { call_id, leg: l, media: m }
    &&& call_id == call.call_id
    &&& sends_to(leg, media, l)
    &&& m.brew_call == tok.brew_call && m.client == tok.client && m.targets == targets
    &&& m.payload_type == transcoded(call.payloads)
}

/// A call to a subscriber that is registered rings at its client: it is told of the call, media runs
/// at once, and the caller is answered only as the callee does, all in one dialog whose tag is that
/// of the handshake. A subscriber that is not registered is unavailable, and without a leg the call
/// cannot be had.
pub proof fn subscriber_is_called_at_its_client(
    x: Both,
    config: Config,
    caller: SocketAddress,
    caller_text: Seq<char>,
    req: RequestView,
    call: InvitationView,
    configured: Option<SocketAddress>,
    media: Option<SocketAddress>,
    first: Option<RtpLeg>,
    second: Option<RtpLeg>,
    now: Now,
    tok: TokensView,
    issi: u32,
)
    requires
        call.to == (LegView::BrewPrivate { issi }),
    ensures
        ({
            let (y, actions, h) = dispatched(
                x,
                config,
                caller,
                caller_text,
                req,
                call,
                configured,
                media,
                first,
                second,
                now,
                tok,
            );
            let id = call.call_id;
            let host = x.bridge.transport.advertised_host;
            let there = x.brew.subscribers.contains_key(issi);
            let target = x.brew.subscribers[issi].client_id;
            let to = (if req.to is Some {
                req.to->0
            } else {
                seq![]
            }) + ";tag="@ + tok.dialog_tag;
            let reached = clients_where(y.brew, |c: u128| c == target);
            if !there {
                h is None && given_up(
                    x,
                    y,
                    actions,
                    caller,
                    req,
                    id,
                    480,
                    "Temporarily Unavailable"@,
                    tok,
                )
            } else if first is None {
                h is None && given_up(
                    x,
                    y,
                    actions,
                    caller,
                    req,
                    id,
                    500,
                    "Server Internal Error"@,
                    tok,
                )
            } else {
                let leg = y.bridge.legs[id];
                let c = y.brew.calls[tok.brew_call];
                &&& joined(x.brew, y.brew, tok.client, tok.brew_call)
                &&& y.brew.group_clients == x.brew.group_clients
                &&& y.brew.group_floor == x.brew.group_floor
                &&& bridge_has(c, CallKind::Private, tok.client, issi, now)
                &&& c.peers == set![target]
                &&& y.bridge.legs == x.bridge.legs.insert(id, leg)
                &&& from_sip(leg, None, tok)
                &&& way_back(req, caller, caller_text, Some(to), leg.bye)
                &&& y.bridge.transport == (TransportView {
                    sip: y.bridge.transport.sip,
                    ..x.bridge.transport
                })
                &&& notes_legs(
                    x.bridge.transport.sip,
                    y.bridge.transport.sip,
                    id,
                    seq![first->0],
                )
                &&& actions.len() == 2
                &&& actions[0] == SipActionView::Brew(
                    ActionView::Send {
                        to: reached,
                        frame: FrameView::CircularSetup {
                            call: tok.brew_call,
                            source: 0,
                            destination: issi,
                            priority: 0,
                        },
                    },
                )
                &&& transcodes(actions[1], call, first->0, media, reached, tok)
                &&& h == Some(
                    HandshakeView {
                        caller,
                        brew_call_id: tok.brew_call,
                        confirm: if y.brew.clients.contains_key(target) {
                            Some(target)
                        } else {
                            None
                        },
                        ringing: echo(
                            req,
                            180,
                            "Ringing"@,
                            Some(to),
                            seq![own_contact(host)],
                            Seq::empty(),
                        ),
                        ok: takes(req, Some(to), host, first->0.local_port, call.payloads),
                        reject: echo(req, 486, "Busy Here"@, Some(to), seq![], Seq::empty()),
                        rang: false,
                    },
                )
            }
        }),
{
    response_echoes_the_request(req, 480, "Temporarily Unavailable"@, tok.tag, seq![]);
    response_echoes_the_request(req, 500, "Server Internal Error"@, tok.tag, seq![]);
    let (y, actions, h) = dispatched(
        x,
        config,
        caller,
        caller_text,
        req,
        call,
        configured,
        media,
        first,
        second,
        now,
        tok,
    );
    if x.brew.subscribers.contains_key(issi) && first is Some {
        let target = x.brew.subscribers[issi].client_id;
        let host = x.bridge.transport.advertised_host;
        let to = (if req.to is Some {
            req.to->0
        } else {
            seq![]
        }) + ";tag="@ + tok.dialog_tag;
        assert(y.brew.connected(set![target]) =~= clients_where(y.brew, |c: u128| c == target));
        response_echoes_the_request(req, 180, "Ringing"@, tok.tag, to);
        response_echoes_the_request(req, 200, "OK"@, tok.tag, to);
        response_echoes_the_request(req, 486, "Busy Here"@, tok.tag, to);
        assert(h->0.ringing.headers =~= echo(
            req,
            180,
            "Ringing"@,
            Some(to),
            seq![own_contact(host)],
            Seq::empty(),
        ).headers);
        assert(h->0.ok.headers =~= takes(
            req,
            Some(to),
            host,
            first->0.local_port,
            call.payloads,
        ).headers);
        lemma_one_leg(
            x.bridge.transport.sip,
            call.call_id,
            crate::invite::aimed(first->0, media),
            first->0,
        );
    }
}

proof fn lemma_one_leg(s: SipView, id: Seq<char>, a: RtpLeg, first: RtpLeg)
    requires
        a.local_port == first.local_port,
        a.last_rx_ms == first.last_rx_ms,
    ensures
        notes_legs(s, crate::bridging::leg_noted(s, id, a), id, seq![first]),
{
    let old = if s.media.contains_key(id) {
        s.media[id]
    } else {
        seq![]
    };
    let legs = seq![first];
    assert(old.push(a.last_rx_ms) =~= old + Seq::new(legs.len(), |i: int| legs[i].last_rx_ms));
}

/// A call to a group takes its floor: every other member is told of the transmission, media runs, and
/// the caller is answered. Where nobody is in the group, and such calls are not configured, the group
/// is unavailable; without a leg the call cannot be had.
pub proof fn group_is_called_at_its_members(
    x: Both,
    config: Config,
    caller: SocketAddress,
    caller_text: Seq<char>,
    req: RequestView,
    call: InvitationView,
    configured: Option<SocketAddress>,
    media: Option<SocketAddress>,
    first: Option<RtpLeg>,
    second: Option<RtpLeg>,
    now: Now,
    tok: TokensView,
    gssi: u32,
)
    requires
        call.to == (LegView::BrewGroup { gssi }),
    ensures
        ({
            let (y, actions, h) = dispatched(
                x,
                config,
                caller,
                caller_text,
                req,
                call,
                configured,
                media,
                first,
                second,
                now,
                tok,
            );
            let id = call.call_id;
            let host = x.bridge.transport.advertised_host;
            let reached = clients_where(
                y.brew,
                |c: u128| c != tok.client && indexed(x.brew, gssi, c),
            );
            &&& h is None
            &&& if (forall|c: u128| !#[trigger] indexed(x.brew, gssi, c))
                && !config.fallback_broadcast_when_no_affiliations {
                given_up(x, y, actions, caller, req, id, 480, "Temporarily Unavailable"@, tok)
            } else if first is None {
                given_up(x, y, actions, caller, req, id, 500, "Server Internal Error"@, tok)
            } else {
                let leg = y.bridge.legs[id];
                let c = y.brew.calls[tok.brew_call];
                &&& joined(x.brew, y.brew, tok.client, tok.brew_call)
                &&& forall|g: u32, d: u128| #[trigger]
                    indexed(y.brew, g, d) <==> indexed(x.brew, g, d) || (g == gssi && d
                        == tok.client)
                &&& y.brew.group_floor == x.brew.group_floor.insert(gssi, tok.brew_call)
                &&& bridge_has(c, CallKind::Group, tok.client, gssi, now)
                &&& forall|d: u128| #[trigger]
                    c.peers.contains(d) <==> d != tok.client && indexed(x.brew, gssi, d)
                &&& y.bridge.legs == x.bridge.legs.insert(id, leg)
                &&& from_sip(leg, Some(gssi), tok)
                &&& way_back(req, caller, caller_text, to_with(req, tok.tag), leg.bye)
                &&& y.bridge.transport == (TransportView {
                    sip: y.bridge.transport.sip,
                    ..x.bridge.transport
                })
                &&& exists|noted: SipView|
                    notes_legs(x.bridge.transport.sip, noted, id, seq![first->0])
                        && y.bridge.transport.sip == #[trigger] call_answered(
                        noted,
                        id,
                        now.epoch_ms,
                    )
                &&& actions.len() == 3
                &&& actions[0] == SipActionView::Brew(
                    ActionView::Send {
                        to: reached,
                        frame: FrameView::GroupTx {
                            call: tok.brew_call,
                            source: 0,
                            destination: gssi,
                            priority: 0,
                        },
                    },
                )
                &&& transcodes(actions[1], call, first->0, media, reached, tok)
                &&& actions[2] == (SipActionView::Send {
                    message: takes(
                        req,
                        to_with(req, tok.tag),
                        host,
                        first->0.local_port,
                        call.payloads,
                    ),
                    to: caller,
                })
            }
        }),
{
    response_echoes_the_request(req, 480, "Temporarily Unavailable"@, tok.tag, seq![]);
    response_echoes_the_request(req, 500, "Server Internal Error"@, tok.tag, seq![]);
    let (y, actions, h) = dispatched(
        x,
        config,
        caller,
        caller_text,
        req,
        call,
        configured,
        media,
        first,
        second,
        now,
        tok,
    );
    let s = x.brew;
    let nobody = forall|c: u128| !#[trigger] indexed(s, gssi, c);
    assert(nobody == (s.affiliated(gssi) =~= Set::<u128>::empty())) by {
        if nobody {
            assert forall|c: u128| !s.affiliated(gssi).contains(c) by {
                assert(!indexed(s, gssi, c));
            }
        } else {
            let c = choose|c: u128| #[trigger] indexed(s, gssi, c);
            assert(s.affiliated(gssi).contains(c));
        }
    }
    if !(nobody && !config.fallback_broadcast_when_no_affiliations) && first is Some {
        let members = s.affiliated(gssi).remove(tok.client);
        assert(y.brew.connected(members) =~= clients_where(
            y.brew,
            |c: u128| c != tok.client && indexed(s, gssi, c),
        ));
        lemma_takes(
            req,
            x.bridge.transport.advertised_host,
            first->0.local_port,
            call.payloads,
            tok.tag,
        );
        lemma_one_leg(
            x.bridge.transport.sip,
            call.call_id,
            crate::invite::aimed(first->0, media),
            first->0,
        );
    }
}

// ---- calls from the Brew side to SIP ----

/// Where a call from the Brew side goes: to an extension that the routes take it to and whose binding
/// lasts, at its contact; or to a provisioned trunk that they take it to, at the number, where its
/// peer is configured to be, or else where it was last heard from. Anything else is nowhere.
pub proof fn brew_call_goes_by_the_routes(
    s: SipView,
    config: Config,
    configured: Map<Seq<char>, SocketAddress>,
    origin: OriginView,
    dialled: Seq<char>,
    now_ms: u64,
)
    ensures
        ({
            let d = destination(s, config, configured, origin, dialled, now_ms);
            match resolved(routes_view(config.sip.routes@), origin, dialled) {
                Some(LegView::SipExtension { aor }) => {
                    let there = s.registrations.contains_key(aor)
                        && s.registrations[aor].expires_at_ms > now_ms;
                    &&& d is Some <==> there
                    &&& there ==> d->0.leg == (LegView::SipExtension { aor }) && d->0.uri
                        == s.registrations[aor].contact && d->0.addr
                        == s.registrations[aor].source
                },
                Some(LegView::SipTrunk { trunk, number }) => {
                    let set = configured.contains_key(trunk);
                    let learned = s.trunks.contains_key(trunk) && s.trunks[trunk].peer_addr is Some;
                    &&& d is Some <==> config.sip.trunks@.contains_key(trunk) && (set || learned)
                    &&& d is Some ==> {
                        &&& d->0.leg == (LegView::SipTrunk { trunk, number })
                        &&& d->0.uri == uri_of(
                            number,
                            bare_host(config.sip.trunks@[trunk].remote_host),
                        )
                        &&& set ==> d->0.addr == configured[trunk]
                        &&& !set ==> d->0.addr == s.trunks[trunk].peer_addr->0
                    }
                },
                _ => d is None,
            }
        }),
{
}

/// A call from the Brew side that has somewhere to go is taken. Where a leg could be had, the caller
/// is told that its set-up is accepted, the destination is invited in the caller's name with both
/// G.711 codecs and DTMF events, and the call is on record on both sides, waiting for its answer. One
/// that has nowhere to go is not taken and changes nothing.
pub proof fn brew_call_is_placed(
    x: Both,
    config: Config,
    configured: Map<Seq<char>, SocketAddress>,
    origin: OriginView,
    dialled: Seq<char>,
    to_uri: Seq<char>,
    link: BrewCallLink,
    leg: Option<RtpLeg>,
    now: Now,
    tok: TokensView,
)
    ensures
        ({
            let (y, actions, taken) = offered_to_sip(
                x,
                config,
                configured,
                origin,
                dialled,
                to_uri,
                link,
                leg,
                now,
                tok,
            );
            let t = x.bridge.transport;
            let d = destination(t.sip, config, configured, origin, dialled, now.epoch_ms);
            let id = "brew-"@ + tok.call;
            let own = bracketed(
                uri_of(
                    if link.source_issi == 0 {
                        "brew"@
                    } else {
                        decimal(link.source_issi as nat)
                    },
                    t.advertised_host,
                ),
            );
            let from = own + ";tag="@ + tok.dialog_tag;
            let reached = clients_where(y.brew, |c: u128| c == link.client);
            &&& taken <==> d is Some
            &&& d is None || leg is None ==> y == x && actions.len() == 0
            &&& d is Some && leg is Some ==> {
                let b = y.bridge.legs[id];
                let c = y.brew.calls[link.call_id];
                let rtp = leg->0;
                let record = SipCallView {
                    call_id: id,
                    from: match origin {
                        OriginView::SipExtension(user) => LegView::SipExtension { aor: user },
                        OriginView::SipTrunk(name) => LegView::SipTrunk {
                            trunk: name,
                            number: seq![],
                        },
                        OriginView::BrewPrivate(issi) => LegView::BrewPrivate { issi },
                    },
                    to: d->0.leg,
                    started_at_ms: now.epoch_ms,
                    answered_at_ms: None,
                    state: "brew-originated"@,
                    rtp_a_port: Some(rtp.local_port),
                    rtp_b_port: None,
                };
                let started = call_started(t.sip, record);
                &&& joined(x.brew, y.brew, tok.client, link.call_id)
                &&& y.brew.group_clients == x.brew.group_clients
                &&& y.brew.group_floor == x.brew.group_floor
                &&& bridge_has(c, CallKind::Private, link.client, 0, now)
                &&& c.peers == set![tok.client]
                &&& y.bridge.legs == x.bridge.legs.insert(id, b)
                &&& b.virtual_client == tok.client && b.brew_call_id == link.call_id
                &&& b.group is None && !b.running && !b.rang && !b.connected
                &&& b.subscriber == Some(link.client) && b.subscriber_issi == link.source_issi
                &&& b.pending == Some(PendingView { leg: rtp, targets: reached })
                &&& b.bye == Some(
                    DialogView {
                        request_uri: d->0.uri,
                        target_addr: d->0.addr,
                        from,
                        to: bracketed(to_uri),
                    },
                )
                &&& y.bridge.transport == (TransportView {
                    sip: y.bridge.transport.sip,
                    ..t
                })
                &&& y.bridge.transport.sip == (SipView {
                    media: started.media.insert(
                        id,
                        (if t.sip.media.contains_key(id) {
                            t.sip.media[id]
                        } else {
                            seq![]
                        }).push(rtp.last_rx_ms),
                    ),
                    ..started
                })
                &&& actions == seq![
                    SipActionView::Brew(
                        ActionView::Send {
                            to: reached,
                            frame: FrameView::Control {
                                state: CallState::SetupAccept,
                                call: link.call_id,
                            },
                        },
                    ),
                    invites(
                        d->0.addr,
                        d->0.uri,
                        t.advertised_host,
                        tok.dialog_branch,
                        from,
                        bracketed(to_uri),
                        id,
                        own,
                        rtp.local_port,
                        seq![0, 8, 101],
                    ),
                ]
            }
        }),
{
    let (y, actions, taken) = offered_to_sip(
        x,
        config,
        configured,
        origin,
        dialled,
        to_uri,
        link,
        leg,
        now,
        tok,
    );
    assert(y.brew.connected(set![link.client]) =~= clients_where(
        y.brew,
        |c: u128| c == link.client,
    ));
}

} // verus!
