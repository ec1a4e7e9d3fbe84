//! Where the routes take a call, and how trunks are provisioned and registered, told case by case.
use crate::addr::SocketAddress;
use crate::brew::Now;
use crate::bridge::{responded, Both};
use crate::call_laws::{bare_host, bracketed, uri_of};
use crate::calls::{answered, SipResponse};
use crate::config::{EndpointView, RouteView, TrunkView};
use crate::invite::peer_trunk;
use crate::message::{MethodView, StartView, ValueView};
use crate::peer_laws::{line, own_via};
use crate::routing::{first_route, resolved, route_matches, OriginView};
use crate::sip_state::{trunk_updated, LegView, SipView, TrunkStatus};
use crate::startup::{lists_registering, seeded};
use crate::text::{decimal, opt_text};
use crate::transport::{host_choice, SipActionView, TokensView, TransportView};
use crate::trunk_register::{
    fresh_registration, register_message, replied, Phase, RegisterReply, RegisterView, StepView,
    TrunkRegistrationView,
};
use vstd::prelude::*;
use vstd::string::*;

verus! {

// ---- routes ----

/// Whether a number fits a pattern: one that ends in a star fits everything that begins with what
/// stands before the star, and any other fits itself.
pub open spec fn fits(pattern: Seq<char>, dialled: Seq<char>) -> bool {
    ||| exists|head: Seq<char>, rest: Seq<char>|
        pattern == #[trigger] head.push('*') && dialled == #[trigger] (head + rest)
    ||| pattern == dialled && !(pattern.len() > 0 && pattern[pattern.len() - 1] == '*')
}

/// Whether a route takes a call: it is enabled, leads somewhere, fits the number, and where it names
/// an origin that is where the call comes from. A trunk with a number is an origin only of calls to
/// that number.
pub open spec fn takes_call(r: RouteView, origin: OriginView, dialled: Seq<char>) -> bool {
    &&& r.enabled
    &&& r.to is Some
    &&& fits(r.match_pattern, dialled)
    &&& match r.from {
        None => true,
        Some(EndpointView::SipExtension { user }) => origin == OriginView::SipExtension(user),
        Some(EndpointView::SipTrunk { trunk, number }) => origin == OriginView::SipTrunk(trunk) && (
        number == dialled || number.len() == 0),
        Some(EndpointView::BrewPrivate { issi }) => origin == OriginView::BrewPrivate(issi),
        Some(EndpointView::BrewGroup { gssi }) => false,
    }
}

proof fn lemma_takes_call(r: RouteView, origin: OriginView, dialled: Seq<char>)
    ensures
        route_matches(r, origin, dialled) <==> takes_call(r, origin, dialled),
{
    let p = r.match_pattern;
    assert(crate::routing::pattern_matches(p, dialled) <==> fits(p, dialled)) by {
        if p.len() > 0 && p.last() == '*' {
            let head = p.drop_last();
            assert(p =~= head.push('*'));
            if crate::routing::pattern_matches(p, dialled) {
                let rest = dialled.skip(head.len() as int);
                assert(dialled =~= head + rest);
            }
            if fits(p, dialled) {
                let (h, rest) = choose|h: Seq<char>, rest: Seq<char>|
                    p == #[trigger] h.push('*') && dialled == #[trigger] (h + rest);
                assert(h =~= head) by {
                    assert(h.push('*').drop_last() =~= h);
                }
                assert(dialled.take(head.len() as int) =~= head);
            }
        } else if fits(p, dialled) {
            if exists|h: Seq<char>, rest: Seq<char>|
                p == #[trigger] h.push('*') && dialled == #[trigger] (h + rest) {
                let (h, rest) = choose|h: Seq<char>, rest: Seq<char>|
                    p == #[trigger] h.push('*') && dialled == #[trigger] (h + rest);
                assert(p.last() == '*');
            }
        }
    }
}

proof fn lemma_first_route(
    routes: Seq<RouteView>,
    origin: OriginView,
    dialled: Seq<char>,
    from: int,
    k: int,
)
    requires
        0 <= from <= k <= routes.len(),
        forall|j: int| from <= j < k ==> !takes_call(#[trigger] routes[j], origin, dialled),
        k < routes.len() ==> takes_call(routes[k], origin, dialled),
    ensures
        first_route(routes, origin, dialled, from) == if k < routes.len() {
            Some(k)
        } else {
            None
        },
    decreases k - from,
{
    if from < routes.len() {
        lemma_takes_call(routes[from], origin, dialled);
    }
    if from < k {
        lemma_first_route(routes, origin, dialled, from + 1, k);
    }
}

/// The first route that takes a call decides where it goes: to the extension, subscriber or group
/// that it leads to; over a trunk, to its number, or where it has none to the number dialled without
/// the prefix that the route strips. A call that no route takes goes nowhere.
pub proof fn first_taking_route_decides(
    routes: Seq<RouteView>,
    origin: OriginView,
    dialled: Seq<char>,
    k: int,
)
    requires
        0 <= k <= routes.len(),
        forall|j: int| 0 <= j < k ==> !takes_call(#[trigger] routes[j], origin, dialled),
        k < routes.len() ==> takes_call(routes[k], origin, dialled),
    ensures
        ({
            let r = resolved(routes, origin, dialled);
            &&& k == routes.len() ==> r is None
            &&& k < routes.len() ==> match routes[k].to->0 {
                EndpointView::SipExtension { user } => r == Some(LegView::SipExtension { aor: user }),
                EndpointView::BrewPrivate { issi } => r == Some(LegView::BrewPrivate { issi }),
                EndpointView::BrewGroup { gssi } => r == Some(LegView::BrewGroup { gssi }),
                EndpointView::SipTrunk { trunk, number } => {
                    &&& number.len() > 0 ==> r == Some(LegView::SipTrunk { trunk, number })
                    &&& number.len() == 0 ==> {
                        &&& forall|rest: Seq<char>|
                            dialled == #[trigger] (routes[k].strip_prefix + rest) ==> r == Some(
                                LegView::SipTrunk { trunk, number: rest },
                            )
                        &&& (forall|rest: Seq<char>|
                            dialled != #[trigger] (routes[k].strip_prefix + rest)) ==> r == Some(
                            LegView::SipTrunk { trunk, number: dialled },
                        )
                    }
                },
            }
        }),
{
    lemma_first_route(routes, origin, dialled, 0, k);
    if k < routes.len() {
        let p = routes[k].strip_prefix;
        assert forall|rest: Seq<char>| dialled == #[trigger] (p + rest) implies dialled.skip(
            p.len() as int,
        ) == rest && crate::text::starts_with(dialled, p) by {
            assert(dialled.skip(p.len() as int) =~= rest);
            assert(dialled.take(p.len() as int) =~= p);
        }
        if crate::text::starts_with(dialled, p) {
            assert(dialled =~= p + dialled.skip(p.len() as int));
        }
    }
}

// ---- provisioning ----

/// Every configured trunk, and no other, starts down, at the address that its host is, with no calls;
/// its detail says whether it is enabled.
pub proof fn trunks_start_down(
    trunks: Map<Seq<char>, TrunkView>,
    addresses: Map<Seq<char>, SocketAddress>,
    now_ms: u64,
    k: Seq<char>,
)
    ensures
        ({
            let m = seeded(trunks, addresses, now_ms);
            let t = m[k];
            &&& m.contains_key(k) <==> trunks.contains_key(k)
            &&& m.contains_key(k) ==> {
                &&& t.name == k && t.status is Down && t.active_calls == 0
                &&& t.remote_host == trunks[k].remote_host && t.last_event_ms == now_ms
                &&& t.peer_addr == (if addresses.contains_key(k) {
                    Some(addresses[k])
                } else {
                    None
                })
                &&& t.detail == (if trunks[k].enabled {
                    "provisioned"@
                } else {
                    "disabled"@
                })
                &&& trunks[k].direction is Inbound ==> t.direction == "inbound"@
                &&& trunks[k].direction is Outbound ==> t.direction == "outbound"@
                &&& trunks[k].direction is Peer ==> t.direction == "peer"@
            }
        }),
{
}

/// This server registers with every enabled outbound trunk that has a host, once, and with no other.
pub proof fn outbound_trunks_are_registered(
    names: Seq<Seq<char>>,
    trunks: Map<Seq<char>, TrunkView>,
    k: Seq<char>,
)
    requires
        lists_registering(names, trunks),
    ensures
        names.contains(k) <==> trunks.contains_key(k) && trunks[k].enabled
            && trunks[k].direction is Outbound && trunks[k].remote_host.len() > 0,
        forall|i: int, j: int| 0 <= i < j < names.len() ==> names[i] != names[j],
{
}

/// The host that the server names is the configured one where there is one, without its port; else
/// that of its socket, unless the socket is on every address, where it is the detected one.
pub proof fn configured_host_is_named(
    host: Seq<char>,
    port: nat,
    local: SocketAddress,
    local_host: Seq<char>,
    detected: Seq<char>,
)
    requires
        host.len() > 0,
        !host.contains(':'),
        port <= 0xFFFF,
    ensures
        host_choice(host, local, local_host, detected) == host,
        host_choice(host + seq![':'] + decimal(port), local, local_host, detected) == host,
        host_choice(seq![], local, local_host, detected) == (if (match local {
            SocketAddress::V4 { ip, .. } => ip == 0,
            SocketAddress::V6 { ip6, .. } => ip6 == 0,
        }) {
            detected
        } else {
            local_host
        }),
{
    let other = crate::text::other_than(':');
    assert forall|i: int| 0 <= i < host.len() implies #[trigger] host[i] != ':' by {
        assert(host.contains(host[i]));
    }
    crate::text::lemma_span_is(host, other, host.len() as int);
    let s = host + seq![':'] + decimal(port);
    assert forall|i: int| 0 <= i < host.len() implies other(#[trigger] s[i]) by {
        assert(s[i] == host[i]);
    }
    assert(s[host.len() as int] == ':');
    crate::text::lemma_span_is(s, other, host.len() as int);
    let after = s.skip(host.len() as int + 1);
    assert(after =~= decimal(port));
    crate::text::decimal_round_trip(port, 0xFFFF);
    crate::text::lemma_decimal(port);
    assert(!after.contains(':')) by {
        assert forall|i: int| 0 <= i < after.len() implies #[trigger] after[i] != ':' by {
            assert(crate::text::is_digit(decimal(port)[i]));
        }
    }
    assert(s.take(host.len() as int) =~= host);
}

// ---- registration with a trunk ----

/// A registration is with the host of the trunk without its port, as its user name or its name where
/// it has none, and pauses as long as is configured, but half a minute at least.
pub proof fn registration_is_of_the_trunk(name: Seq<char>, tc: TrunkView, peer: SocketAddress)
    ensures
        ({
            let r = fresh_registration(name, tc, peer);
            &&& r.name == name && r.peer == peer && r.password == tc.password
            &&& r.host == bare_host(tc.remote_host)
            &&& tc.username.len() > 0 ==> r.user == tc.username
            &&& tc.username.len() == 0 ==> r.user == name
            &&& r.interval >= 30 && r.interval >= tc.register_interval_seconds
            &&& r.interval == 30 || r.interval == tc.register_interval_seconds
            &&& r.cseq == 1 && r.phase is Resting
        }),
{
}

/// A challenge to the first REGISTER is answered under the same Call-ID with the credentials of the
/// trunk, in the header that goes with it; the trunk stays as it is meanwhile. Without a challenge to
/// answer the registration rests.
pub proof fn challenge_is_answered(
    r: TrunkRegistrationView,
    s: SipView,
    reply: RegisterReply,
    now: Now,
    cnonce: Seq<char>,
)
    requires
        r.phase is Asked,
        reply.code == Some(401u16) || reply.code == Some(407u16),
        r.cseq < u32::MAX,
    ensures
        ({
            let (q, t, step) = replied(r, s, Some(reply), now, cnonce);
            &&& t == s
            &&& reply.challenge matches Some(c) ==> {
                &&& q == (TrunkRegistrationView { phase: Phase::Answered, cseq: q.cseq, ..r })
                &&& q.cseq == r.cseq + 1
                &&& step == StepView::Send(
                    RegisterView {
                        call_id: r.call_id,
                        cseq: r.cseq,
                        auth: Some(
                            (
                                if reply.code == Some(401u16) {
                                    "Authorization"@
                                } else {
                                    "Proxy-Authorization"@
                                },
                                ValueView::Answer {
                                    challenge: c@,
                                    user: r.user,
                                    password: r.password,
                                    uri: "sip:"@ + r.host,
                                    cnonce,
                                },
                            ),
                        ),
                    },
                )
            }
            &&& reply.challenge is None ==> {
                &&& q == (TrunkRegistrationView { phase: Phase::Resting, ..r })
                &&& step == StepView::Sleep(r.interval)
            }
        }),
{
}

/// Any other answer settles the registration: the trunk is up where the answer is 200, and has failed
/// where it is anything else or does not come; the registration then rests for its interval.
pub proof fn answer_settles_the_registration(
    r: TrunkRegistrationView,
    s: SipView,
    reply: Option<RegisterReply>,
    now: Now,
    cnonce: Seq<char>,
)
    requires
        !(r.phase is Resting),
        r.phase is Asked && reply is Some ==> reply->0.code != Some(401u16) && reply->0.code != Some(
            407u16,
        ),
    ensures
        ({
            let (q, t, step) = replied(r, s, reply, now, cnonce);
            let good = reply is Some && reply->0.code == Some(200u16);
            let first = r.phase is Asked;
            let number = decimal(
                if reply is Some && reply->0.code is Some {
                    reply->0.code->0 as nat
                } else {
                    0
                },
            );
            let silent = reply is None || (!first && reply->0.code is None);
            &&& q == (TrunkRegistrationView { phase: Phase::Resting, ..r })
            &&& step == StepView::Sleep(r.interval)
            &&& t == trunk_updated(
                s,
                r.name,
                if good {
                    TrunkStatus::Up
                } else {
                    TrunkStatus::Failed
                },
                if good && first {
                    "200 OK"@
                } else if good {
                    "200 OK (auth)"@
                } else if silent && first {
                    "no response"@
                } else if silent {
                    "no response to auth"@
                } else if first {
                    number
                } else {
                    number + " after auth"@
                },
                Some(r.peer),
                now.epoch_ms,
            )
        }),
{
}

/// An answer that comes while the registration rests changes nothing.
pub proof fn late_answer_is_ignored(
    r: TrunkRegistrationView,
    s: SipView,
    reply: Option<RegisterReply>,
    now: Now,
    cnonce: Seq<char>,
)
    requires
        r.phase is Resting,
    ensures
        replied(r, s, reply, now, cnonce) == (r, s, StepView::Sleep(r.interval)),
{
}

/// A REGISTER names the user at the host of the trunk as both ends, gives the contact of this server,
/// and asks for five minutes; the credentials stand behind, where there are some.
pub proof fn register_names_the_user(
    r: TrunkRegistrationView,
    req: RegisterView,
    host: Seq<char>,
    local: Seq<char>,
    branch: Seq<char>,
    tag: Seq<char>,
)
    ensures
        ({
            let m = register_message(r, req, host, local, branch, tag);
            let own = bracketed(uri_of(r.user, r.host));
            &&& m.start == (StartView::Request {
                method: MethodView::Register,
                uri: "sip:"@ + r.host,
            })
            &&& m.body.len() == 0
            &&& m.headers.take(8) == seq![
                own_via(local, branch),
                line("Max-Forwards"@, "70"@),
                line("From"@, own + ";tag="@ + tag),
                line("To"@, own),
                line("Call-ID"@, req.call_id),
                line("CSeq"@, decimal(req.cseq as nat) + " REGISTER"@),
                line("Contact"@, bracketed(uri_of(r.user, host))),
                line("Expires"@, "300"@),
            ]
            &&& req.auth is None ==> m.headers.len() == 8
            &&& req.auth matches Some(h) ==> m.headers.len() == 9 && m.headers[8] == h
        }),
{
}

// ---- responses ----

/// A trunk is the one whose peer is at the address; there is none where no trunk's peer is there.
pub proof fn trunk_is_known_by_its_peer(
    s: SipView,
    peer: SocketAddress,
    trunk: Option<Seq<char>>,
    k: Seq<char>,
)
    requires
        peer_trunk(s, peer, trunk),
    ensures
        trunk is Some ==> s.trunks.contains_key(trunk->0) && s.trunks[trunk->0].peer_addr == Some(
            peer,
        ),
        trunk is None && s.trunks.contains_key(k) ==> s.trunks[k].peer_addr != Some(peer),
{
}

/// A response to a REGISTER brings the trunk of the peer up where it is 200 and fails it where it is
/// anything but a challenge; a challenge, and a response from no trunk, change nothing. It is not
/// acted on otherwise.
pub proof fn register_response_settles_the_trunk(
    x: Both,
    peer: SocketAddress,
    resp: SipResponse,
    trunk: Option<Seq<char>>,
    media: Option<SocketAddress>,
    now: Now,
    tok: TokensView,
)
    requires
        resp.method matches Some(m) && m@ == "REGISTER"@,
    ensures
        ({
            let (y, actions) = answered(x, peer, resp, trunk, media, now, tok);
            let s = x.bridge.transport.sip;
            &&& actions.len() == 0
            &&& y.brew == x.brew && y.bridge.legs == x.bridge.legs
            &&& y.bridge.transport == (TransportView {
                sip: y.bridge.transport.sip,
                ..x.bridge.transport
            })
            &&& trunk is None || resp.code == 401 || resp.code == 407 ==> y.bridge.transport.sip == s
            &&& trunk is Some && resp.code == 200 ==> y.bridge.transport.sip == trunk_updated(
                s,
                trunk->0,
                TrunkStatus::Up,
                "200 OK"@,
                Some(peer),
                now.epoch_ms,
            )
            &&& trunk is Some && resp.code != 200 && resp.code != 401 && resp.code != 407
                ==> y.bridge.transport.sip == trunk_updated(
                s,
                trunk->0,
                TrunkStatus::Failed,
                decimal(resp.code as nat),
                Some(peer),
                now.epoch_ms,
            )
        }),
{
}

/// A response to an INVITE is taken to the bridged call of its Call-ID, where there is a bridge; any
/// other response changes nothing.
pub proof fn invite_response_reaches_the_bridge(
    x: Both,
    peer: SocketAddress,
    resp: SipResponse,
    trunk: Option<Seq<char>>,
    media: Option<SocketAddress>,
    now: Now,
    tok: TokensView,
)
    requires
        resp.method matches Some(m) ==> m@ != "REGISTER"@,
    ensures
        ({
            let r = answered(x, peer, resp, trunk, media, now, tok);
            if resp.method is Some && resp.method->0@ == "INVITE"@ && resp.call_id is Some
                && x.bridge.transport.bridge {
                r == responded(
                    x,
                    resp.call_id->0@,
                    resp.code,
                    opt_text(resp.to),
                    peer,
                    resp.body@,
                    media,
                    now,
                    tok,
                )
            } else {
                r == (x, Seq::<SipActionView>::empty())
            }
        }),
{
    reveal_strlit("REGISTER");
    reveal_strlit("INVITE");
    assert("REGISTER"@.len() == 8 && "INVITE"@.len() == 6);
    assert(Seq::<char>::empty().len() == 0);
}

} // verus!
