//! How SIP requests are answered, told request by request.
use crate::addr::SocketAddress;
use crate::auth::{header_of, secret_of};
use crate::brew::Now;
use crate::bridge::{torn_down, Both};
use crate::calls::{acceptable, requested};
use crate::config::Config;
use crate::invite::InvitationView;
use crate::media::{body_text, negotiated, sdp_of};
use crate::message::{
    method_of, response, response_to, MethodView, RequestView, SipMessageView, StartView, ValueView,
};
use crate::peer_laws::line;
use crate::routing::{resolved, routes_view, OriginView};
use crate::sip_state::{call_ended, call_started, LegView, SipCallView, SipView};
use crate::text::decimal;
use crate::transport::{SipActionView, TokensView, TransportView};
use vstd::prelude::*;
use vstd::string::*;

verus! {

// ---- vocabulary ----

/// A header line that is there where its value is.
pub open spec fn line_of(name: Seq<char>, value: Option<Seq<char>>) -> Seq<(Seq<char>, ValueView)> {
    if let Some(v) = value {
        seq![line(name, v)]
    } else {
        seq![]
    }
}

/// The Via lines of a request, in their order.
pub open spec fn via_lines(req: RequestView) -> Seq<(Seq<char>, ValueView)> {
    Seq::new(req.vias.len(), |i: int| line("Via"@, req.vias[i]))
}

/// A response: what it takes over from the request, the To header, the name of the server, and more
/// headers behind.
pub open spec fn echo(
    req: RequestView,
    code: u16,
    reason: Seq<char>,
    to: Option<Seq<char>>,
    more: Seq<(Seq<char>, ValueView)>,
    body: Seq<u8>,
) -> SipMessageView {
    SipMessageView {
        start: StartView::Response { code, reason },
        headers: via_lines(req) + line_of("From"@, req.from) + line_of("To"@, to) + line_of(
            "Call-ID"@,
            req.call_id,
        ) + line_of("CSeq"@, req.cseq) + seq![line("Server"@, "brew-server"@)] + more,
        body,
    }
}

/// The To header of a request with the tag added, where it is there and has none yet.
pub open spec fn to_with(req: RequestView, tag: Seq<char>) -> Option<Seq<char>> {
    if req.to is Some && !req.to_tagged {
        Some(req.to->0 + ";tag="@ + tag)
    } else {
        req.to
    }
}

/// A final response with more headers, to where the request came from.
pub open spec fn says(
    peer: SocketAddress,
    req: RequestView,
    code: u16,
    reason: Seq<char>,
    more: Seq<(Seq<char>, ValueView)>,
    tok: TokensView,
) -> SipActionView {
    SipActionView::Send {
        message: echo(req, code, reason, to_with(req, tok.tag), more, Seq::empty()),
        to: peer,
    }
}

/// The provisional response that an INVITE gets at once, without a tag.
pub open spec fn trying(peer: SocketAddress, req: RequestView) -> SipActionView {
    SipActionView::Send {
        message: echo(req, 100, "Trying"@, req.to, Seq::empty(), Seq::empty()),
        to: peer,
    }
}

/// A digest challenge header.
pub open spec fn asks(
    name: Seq<char>,
    config: Config,
    tok: TokensView,
) -> Seq<(Seq<char>, ValueView)> {
    seq![(name, ValueView::Challenge { realm: config.sip.realm@, nonce: tok.nonce })]
}

/// Whether the request answers rightly a nonce that was issued less than two minutes ago.
pub open spec fn proven(t: TransportView, req: RequestView, now: Now) -> bool {
    &&& req.credentials is Some
    &&& (req.credentials->0).1
    &&& t.nonces.contains_key((req.credentials->0).0)
    &&& now.mono_ns < t.nonces[(req.credentials->0).0] + 120_000_000_000
}

/// Only the nonces change: `extra` is added, and of the others, where the credentials of the request
/// were looked at, those are dropped that are two minutes old.
pub open spec fn only_nonces(
    t: TransportView,
    u: TransportView,
    extra: Option<Seq<char>>,
    looked: bool,
    now: Now,
) -> bool {
    &&& u == (TransportView { nonces: u.nonces, ..t })
    &&& extra matches Some(n) ==> u.nonces.contains_key(n) && u.nonces[n] == now.mono_ns
    &&& forall|n: Seq<char>|
        Some(n) != extra ==> (#[trigger] u.nonces.contains_key(n) <==> t.nonces.contains_key(n) && (
        looked ==> now.mono_ns < t.nonces[n] + 120_000_000_000))
    &&& forall|n: Seq<char>| #[trigger]
        u.nonces.contains_key(n) && Some(n) != extra ==> u.nonces[n] == t.nonces[n]
}

/// Whether the credentials of a request are looked at: it has some, and comes from an extension with
/// a password.
pub open spec fn looked_at(config: Config, req: RequestView, user: Seq<char>) -> bool {
    &&& config.sip.extensions@.contains_key(user)
    &&& config.sip.extensions@[user].password.len() > 0
    &&& req.credentials is Some
}

/// Who a request is from.
pub open spec fn user_of(req: RequestView) -> Seq<char> {
    if req.from_user is Some {
        req.from_user->0
    } else {
        seq![]
    }
}

/// Both sides are the same but for the transport.
pub open spec fn only_transport(x: Both, y: Both) -> bool {
    y.brew == x.brew && y.bridge.legs == x.bridge.legs
}

/// Every response takes over the Via headers of its request in their order, then its From, Call-ID
/// and CSeq, names the server, and has no body. A final one tags the To header where it has no tag
/// yet; the provisional 100 leaves it alone.
pub proof fn response_echoes_the_request(
    req: RequestView,
    code: u16,
    reason: Seq<char>,
    tag: Seq<char>,
    to: Seq<char>,
)
    ensures
        code != 100 ==> response(req, code, reason, tag) == echo(
            req,
            code,
            reason,
            to_with(req, tag),
            Seq::empty(),
            Seq::empty(),
        ),
        code == 100 ==> response(req, code, reason, tag) == echo(
            req,
            code,
            reason,
            req.to,
            Seq::empty(),
            Seq::empty(),
        ),
        response_to(req, code, reason, to) == echo(
            req,
            code,
            reason,
            Some(to),
            Seq::empty(),
            Seq::empty(),
        ),
{
    let t = if code == 100 {
        req.to
    } else {
        to_with(req, tag)
    };
    let r = response(req, code, reason, tag);
    let e = echo(req, code, reason, t, Seq::empty(), Seq::empty());
    assert(r.headers =~= e.headers);
    assert(response_to(req, code, reason, to).headers =~= echo(
        req,
        code,
        reason,
        Some(to),
        Seq::empty(),
        Seq::empty(),
    ).headers);
}

// ---- REGISTER ----

/// A registration for nobody, and one for an extension that is not provisioned, are answered and
/// change nothing.
pub proof fn unknown_extension_is_not_registered(
    x: Both,
    config: Config,
    peer: SocketAddress,
    req: RequestView,
    trunk: Option<Seq<char>>,
    now: Now,
    tok: TokensView,
)
    requires
        req.method is Register,
        req.to_user is Some ==> !config.sip.extensions@.contains_key(req.to_user->0),
    ensures
        requested(x, config, peer, req, trunk, now, tok) == (
            x,
            seq![
                if req.to_user is None {
                    says(peer, req, 400, "Bad Request"@, seq![], tok)
                } else {
                    says(peer, req, 404, "Not Found"@, seq![], tok)
                },
            ],
            None::<InvitationView>,
        ),
{
    response_echoes_the_request(req, 400, "Bad Request"@, tok.tag, seq![]);
    response_echoes_the_request(req, 404, "Not Found"@, tok.tag, seq![]);
}

/// An extension with a password that has not proved it is challenged with a new nonce, which is
/// noted, and is not registered.
pub proof fn unproven_extension_is_challenged(
    x: Both,
    config: Config,
    peer: SocketAddress,
    req: RequestView,
    trunk: Option<Seq<char>>,
    now: Now,
    tok: TokensView,
)
    requires
        req.method is Register,
        req.to_user is Some,
        config.sip.extensions@.contains_key(req.to_user->0),
        config.sip.extensions@[req.to_user->0].password.len() > 0,
        !proven(x.bridge.transport, req, now),
    ensures
        ({
            let (y, actions, next) = requested(x, config, peer, req, trunk, now, tok);
            &&& next is None
            &&& only_transport(x, y)
            &&& only_nonces(
                x.bridge.transport,
                y.bridge.transport,
                Some(tok.nonce),
                req.credentials is Some,
                now,
            )
            &&& actions == seq![
                says(
                    peer,
                    req,
                    401,
                    "Unauthorized"@,
                    asks("WWW-Authenticate"@, config, tok),
                    tok,
                ),
            ]
        }),
{
    response_echoes_the_request(req, 401, "Unauthorized"@, tok.tag, seq![]);
    let m = response(req, 401, "Unauthorized"@, tok.tag);
    let a = asks("WWW-Authenticate"@, config, tok);
    assert(m.headers.push(a[0]) =~= echo(
        req,
        401,
        "Unauthorized"@,
        to_with(req, tok.tag),
        a,
        Seq::empty(),
    ).headers);
}

/// What the answer to a registration says of the contact: it is repeated with its lifetime where it
/// was given, and the lifetime is told again where there is one.
pub open spec fn told_lifetime(req: RequestView, life: u64) -> Seq<(Seq<char>, ValueView)> {
    (if req.contact is Some && req.contact->0.len() > 0 {
        seq![line("Contact"@, req.contact->0 + ";expires="@ + decimal(life as nat))]
    } else {
        seq![]
    }) + (if life > 0 {
        seq![line("Expires"@, decimal(life as nat))]
    } else {
        seq![]
    })
}

/// An extension that has no password, or has proved it, is registered for as long as it asks, or else
/// for as long as is configured, at the contact that it gives and where it was heard from; with a
/// lifetime of nothing its binding is removed instead. Nobody else's binding changes.
pub proof fn proven_extension_is_registered(
    x: Both,
    config: Config,
    peer: SocketAddress,
    req: RequestView,
    trunk: Option<Seq<char>>,
    now: Now,
    tok: TokensView,
)
    requires
        req.method is Register,
        acceptable(x.bridge, config, req, now),
        req.to_user is Some,
        config.sip.extensions@.contains_key(req.to_user->0),
        config.sip.extensions@[req.to_user->0].password.len() > 0 ==> proven(
            x.bridge.transport,
            req,
            now,
        ),
    ensures
        ({
            let (y, actions, next) = requested(x, config, peer, req, trunk, now, tok);
            let aor = req.to_user->0;
            let life = if req.expires is Some {
                req.expires->0
            } else {
                config.sip.registration_ttl_seconds
            };
            let s = x.bridge.transport.sip;
            let t = y.bridge.transport.sip;
            let b = t.registrations[aor];
            &&& next is None
            &&& only_transport(x, y)
            &&& only_nonces(
                x.bridge.transport,
                (TransportView { sip: s, ..y.bridge.transport }),
                None,
                looked_at(config, req, aor),
                now,
            )
            &&& t == (SipView {
                registrations: t.registrations,
                total_registrations: t.total_registrations,
                ..s
            })
            &&& life == 0 ==> t.registrations == s.registrations.remove(aor)
                && t.total_registrations == s.total_registrations
            &&& life > 0 ==> {
                &&& t.registrations == s.registrations.insert(aor, b)
                &&& t.total_registrations == s.total_registrations + (
                if s.registrations.contains_key(aor) {
                    0int
                } else {
                    1
                })
                &&& b.aor == aor && b.contact == req.contact_uri && b.source == peer
                &&& b.user_agent == (if req.user_agent is Some {
                    req.user_agent->0
                } else {
                    seq![]
                })
                &&& b.registered_at_ms == now.epoch_ms
                &&& b.expires_at_ms == now.epoch_ms + life * 1000
                &&& b.authenticated <==> config.sip.extensions@[aor].password.len() > 0
            }
            &&& actions == seq![says(peer, req, 200, "OK"@, told_lifetime(req, life), tok)]
        }),
{
    response_echoes_the_request(req, 200, "OK"@, tok.tag, seq![]);
    let (y, actions, next) = requested(x, config, peer, req, trunk, now, tok);
    let life = if req.expires is Some {
        req.expires->0
    } else {
        config.sip.registration_ttl_seconds
    };
    let want = echo(
        req,
        200,
        "OK"@,
        to_with(req, tok.tag),
        told_lifetime(req, life),
        Seq::empty(),
    );
    assert(actions[0]->message.headers =~= want.headers);
    if life == 0 {
        assert(y.bridge.transport.sip.registrations
            =~= x.bridge.transport.sip.registrations.remove(req.to_user->0));
    }
}

// ---- INVITE ----

/// Where a caller is known to call from: a trunk, else a provisioned extension that has no password
/// or has proved it.
pub open spec fn known_caller(
    t: TransportView,
    config: Config,
    req: RequestView,
    trunk: Option<Seq<char>>,
    now: Now,
    origin: OriginView,
) -> bool {
    let user = user_of(req);
    if trunk is Some {
        origin == OriginView::SipTrunk(trunk->0)
    } else {
        &&& config.sip.extensions@.contains_key(user)
        &&& config.sip.extensions@[user].password.len() > 0 ==> proven(t, req, now)
        &&& origin == OriginView::SipExtension(user)
    }
}

/// What was dialled.
pub open spec fn number_of(req: RequestView) -> Seq<char> {
    if req.to_user is Some {
        req.to_user->0
    } else {
        seq![]
    }
}

/// A caller that comes over no trunk and is no provisioned extension may not call; one that has a
/// password and has not proved it is challenged. Neither starts a call.
pub proof fn unknown_caller_is_refused(
    x: Both,
    config: Config,
    peer: SocketAddress,
    req: RequestView,
    now: Now,
    tok: TokensView,
    user: Seq<char>,
)
    requires
        req.method is Invite,
        user == user_of(req),
        !(config.sip.extensions@.contains_key(user) && (config.sip.extensions@[user].password.len()
            > 0 ==> proven(x.bridge.transport, req, now))),
    ensures
        ({
            let (y, actions, next) = requested(x, config, peer, req, None, now, tok);
            &&& next is None
            &&& only_transport(x, y)
            &&& !config.sip.extensions@.contains_key(user) ==> {
                &&& y == x
                &&& actions == seq![
                    trying(peer, req),
                    says(peer, req, 403, "Forbidden"@, seq![], tok),
                ]
            }
            &&& config.sip.extensions@.contains_key(user) ==> {
                &&& only_nonces(
                    x.bridge.transport,
                    y.bridge.transport,
                    Some(tok.nonce),
                    req.credentials is Some,
                    now,
                )
                &&& actions == seq![
                    trying(peer, req),
                    says(
                        peer,
                        req,
                        407,
                        "Proxy Authentication Required"@,
                        asks("Proxy-Authenticate"@, config, tok),
                        tok,
                    ),
                ]
            }
        }),
{
    response_echoes_the_request(req, 100, "Trying"@, tok.tag, seq![]);
    response_echoes_the_request(req, 403, "Forbidden"@, tok.tag, seq![]);
    response_echoes_the_request(req, 407, "Proxy Authentication Required"@, tok.tag, seq![]);
    let m = response(req, 407, "Proxy Authentication Required"@, tok.tag);
    let a = asks("Proxy-Authenticate"@, config, tok);
    assert(m.headers.push(a[0]) =~= echo(
        req,
        407,
        "Proxy Authentication Required"@,
        to_with(req, tok.tag),
        a,
        Seq::empty(),
    ).headers);
}

/// Whether a call to there from the origin is not allowed: it would leave over a trunk, and comes
/// from an extension that may not place such calls.
pub open spec fn not_allowed(config: Config, origin: OriginView, to: LegView) -> bool {
    (to is SipTrunk) && (origin is SipExtension)
        && !config.sip.extensions@[origin->SipExtension_0].allow_outbound
}

/// A known caller's call that no route takes, that is not allowed, or that offers no media, is
/// answered so and does not start.
pub proof fn impossible_call_is_refused(
    x: Both,
    config: Config,
    peer: SocketAddress,
    req: RequestView,
    trunk: Option<Seq<char>>,
    now: Now,
    tok: TokensView,
    origin: OriginView,
)
    requires
        req.method is Invite,
        known_caller(x.bridge.transport, config, req, trunk, now, origin),
        ({
            let to = resolved(routes_view(config.sip.routes@), origin, number_of(req));
            to is None || not_allowed(config, origin, to->0) || sdp_of(body_text(req.body)) is None
        }),
    ensures
        ({
            let (y, actions, next) = requested(x, config, peer, req, trunk, now, tok);
            let to = resolved(routes_view(config.sip.routes@), origin, number_of(req));
            &&& next is None
            &&& only_transport(x, y)
            &&& only_nonces(
                x.bridge.transport,
                y.bridge.transport,
                None,
                trunk is None && looked_at(config, req, user_of(req)),
                now,
            )
            &&& actions == seq![
                trying(peer, req),
                if to is None {
                    says(peer, req, 404, "Not Found"@, seq![], tok)
                } else if not_allowed(config, origin, to->0) {
                    says(peer, req, 403, "Forbidden"@, seq![], tok)
                } else {
                    says(peer, req, 488, "Not Acceptable Here"@, seq![], tok)
                },
            ]
        }),
{
    response_echoes_the_request(req, 100, "Trying"@, tok.tag, seq![]);
    response_echoes_the_request(req, 404, "Not Found"@, tok.tag, seq![]);
    response_echoes_the_request(req, 403, "Forbidden"@, tok.tag, seq![]);
    response_echoes_the_request(req, 488, "Not Acceptable Here"@, tok.tag, seq![]);
}

/// Every other call of a known caller starts: it is counted under its Call-ID, from where it came and
/// to where the routes take it. It is then put through at the codecs that suit, unless it would go to
/// the Brew side and there is no bridge.
pub proof fn possible_call_starts(
    x: Both,
    config: Config,
    peer: SocketAddress,
    req: RequestView,
    trunk: Option<Seq<char>>,
    now: Now,
    tok: TokensView,
    origin: OriginView,
    to: LegView,
)
    requires
        req.method is Invite,
        known_caller(x.bridge.transport, config, req, trunk, now, origin),
        resolved(routes_view(config.sip.routes@), origin, number_of(req)) == Some(to),
        !not_allowed(config, origin, to),
        sdp_of(body_text(req.body)) is Some,
    ensures
        ({
            let (y, actions, next) = requested(x, config, peer, req, trunk, now, tok);
            let t = x.bridge.transport;
            let id = if req.call_id is Some {
                req.call_id->0
            } else {
                seq![]
            };
            let from = match origin {
                OriginView::SipExtension(user) => LegView::SipExtension { aor: user },
                OriginView::SipTrunk(name) => LegView::SipTrunk { trunk: name, number: seq![] },
                OriginView::BrewPrivate(issi) => LegView::BrewPrivate { issi },
            };
            let record = SipCallView {
                call_id: id,
                from,
                to,
                started_at_ms: now.epoch_ms,
                answered_at_ms: None,
                state: "routing"@,
                rtp_a_port: None,
                rtp_b_port: None,
            };
            let offer = sdp_of(body_text(req.body))->0;
            &&& only_transport(x, y)
            &&& only_nonces(
                t,
                (TransportView { sip: t.sip, ..y.bridge.transport }),
                None,
                trunk is None && looked_at(config, req, user_of(req)),
                now,
            )
            &&& y.bridge.transport.sip == call_started(t.sip, record)
            &&& if (to is BrewPrivate || to is BrewGroup) && !t.bridge {
                &&& next is None
                &&& actions == seq![
                    trying(peer, req),
                    says(peer, req, 480, "Temporarily Unavailable"@, seq![], tok),
                ]
            } else {
                &&& actions == seq![trying(peer, req)]
                &&& next == Some(
                    InvitationView {
                        call_id: id,
                        offer,
                        payloads: negotiated(offer.payload_types),
                        to,
                    },
                )
            }
        }),
{
    response_echoes_the_request(req, 100, "Trying"@, tok.tag, seq![]);
    response_echoes_the_request(req, 480, "Temporarily Unavailable"@, tok.tag, seq![]);
}

// ---- the other methods ----

/// A BYE or a CANCEL is answered, and ends the call whatever it was: its relay is stopped, it is torn
/// down on the Brew side where there is a bridge, and its record is gone. No other call is touched.
pub proof fn hang_up_ends_the_call(
    x: Both,
    config: Config,
    peer: SocketAddress,
    req: RequestView,
    trunk: Option<Seq<char>>,
    now: Now,
    tok: TokensView,
    id: Seq<char>,
)
    requires
        req.method is Bye || req.method is Cancel,
        id == (if req.call_id is Some {
            req.call_id->0
        } else {
            seq![]
        }),
    ensures
        ({
            let (y, actions, next) = requested(x, config, peer, req, trunk, now, tok);
            let t = x.bridge.transport;
            let torn = torn_down(x, id);
            &&& next is None
            &&& y.bridge.transport == (TransportView {
                sip: call_ended(t.sip, id),
                relays: t.relays.remove(id),
                ..t
            })
            &&& t.bridge ==> y.brew == torn.0.brew && y.bridge.legs == x.bridge.legs.remove(id)
            &&& !t.bridge ==> only_transport(x, y)
            &&& actions == (if t.relays.contains_key(id) {
                seq![SipActionView::AbortRelay { call_id: id }]
            } else {
                seq![]
            }) + (if t.bridge {
                torn.1
            } else {
                seq![]
            }) + seq![says(peer, req, 200, "OK"@, seq![], tok)]
        }),
{
    response_echoes_the_request(req, 200, "OK"@, tok.tag, seq![]);
    let (y, actions, next) = requested(x, config, peer, req, trunk, now, tok);
    assert(y.bridge.legs =~= if x.bridge.transport.bridge {
        x.bridge.legs.remove(id)
    } else {
        x.bridge.legs
    });
}

/// An ACK is not answered, an OPTIONS always is, and no other method is allowed; none of them changes
/// anything.
pub proof fn other_requests_change_nothing(
    x: Both,
    config: Config,
    peer: SocketAddress,
    req: RequestView,
    trunk: Option<Seq<char>>,
    now: Now,
    tok: TokensView,
)
    requires
        req.method is Ack || req.method is Options || req.method is Other,
    ensures
        requested(x, config, peer, req, trunk, now, tok) == (
            x,
            if req.method is Ack {
                seq![]
            } else if req.method is Options {
                seq![says(peer, req, 200, "OK"@, seq![], tok)]
            } else {
                seq![says(peer, req, 405, "Method Not Allowed"@, seq![], tok)]
            },
            None::<InvitationView>,
        ),
{
    response_echoes_the_request(req, 200, "OK"@, tok.tag, seq![]);
    response_echoes_the_request(req, 405, "Method Not Allowed"@, tok.tag, seq![]);
}

// ---- methods ----

/// A method that is known is known by its name, whichever it is; a name that is none of theirs is that
/// of another method, under that name.
pub proof fn methods_are_known_by_their_names(m: MethodView, name: Seq<char>)
    ensures
        !(m is Other) ==> method_of(m.name()) == m,
        method_of(name).name() == name,
        method_of(name) is Other <==> name != "REGISTER"@ && name != "INVITE"@ && name != "ACK"@
            && name != "BYE"@ && name != "CANCEL"@ && name != "OPTIONS"@,
{
    reveal_strlit("REGISTER");
    reveal_strlit("INVITE");
    reveal_strlit("ACK");
    reveal_strlit("BYE");
    reveal_strlit("CANCEL");
    reveal_strlit("OPTIONS");
    assert("REGISTER"@.len() == 8 && "INVITE"@.len() == 6 && "OPTIONS"@.len() == 7);
    assert("ACK"@.len() == 3 && "BYE"@.len() == 3 && "CANCEL"@.len() == 6);
    assert("ACK"@[0] == 'A' && "BYE"@[0] == 'B');
    assert("INVITE"@[0] == 'I' && "CANCEL"@[0] == 'C');
}

// ---- digests ----

/// A digest is that of the extension that is registered, or of the caller, where it is provisioned and
/// has a password; no other request has one that counts.
pub proof fn digest_is_of_the_extension(
    config: Config,
    method: MethodView,
    to_user: Option<Seq<char>>,
    from_user: Option<Seq<char>>,
)
    ensures
        ({
            let r = secret_of(config, method, to_user, from_user);
            let user = if method is Register {
                to_user
            } else if from_user is Some {
                from_user
            } else {
                Some(seq![])
            };
            let has = user is Some && config.sip.extensions@.contains_key(user->0)
                && config.sip.extensions@[user->0].password.len() > 0;
            &&& r is Some <==> (method is Register || method is Invite) && has
            &&& r is Some ==> r->0 == config.sip.extensions@[user->0].password
        }),
{
}

/// The digest of a registration stands in its Authorization header; that of a call may also stand in
/// its Proxy-Authorization header, where it has no other; no other request has one that counts.
pub proof fn digest_stands_in_its_header(
    method: MethodView,
    authorization: Option<Seq<char>>,
    proxy: Option<Seq<char>>,
)
    ensures
        ({
            let r = header_of(method, authorization, proxy);
            &&& method is Register ==> r == authorization
            &&& method is Invite && authorization is Some ==> r == authorization
            &&& method is Invite && authorization is None ==> r == proxy
            &&& !(method is Register) && !(method is Invite) ==> r is None
        }),
{
}

} // verus!
