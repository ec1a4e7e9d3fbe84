//! INVITE: who may call, where the call goes, and the calls that stay on the SIP side.
use crate::addr::SocketAddress;
use crate::brew::Now;
use crate::config::{Config, SipTrunkConfig, TrunkView};
use crate::dialog::{
    answered_to, caller_dialog, make_dialog, DialogBye, DialogView, Relayed, RelayedView,
};
use crate::media::{body_text, negotiate_payloads, negotiated, sdp_of, sdp_text, Sdp, SdpView};
use crate::message::{
    or_empty, respond, response, tagged_to, text_header, text_or_empty, Method, MethodView,
    RequestView, SipMessage, SipMessageView, SipRequest, StartView, ValueView,
};
use crate::registrar::{
    ask_credentials, authenticated, challenge, check_credentials, checked, issued, reply,
    with_header,
};
use crate::routing::{origin_leg, resolve, resolved, routes_view, CallOrigin, OriginView};
use crate::rtp::RtpLeg;
use crate::sip_state::{
    call_answered, call_ended, call_started, has_room, live, LegEndpoint, LegView, SipCall,
    SipCallView, SipView,
};
use crate::text::{before_first, decimal, push_decimal, take_before};
use crate::transport::{
    sip_actions_view, SipAction, SipActionView, SipTransport, Tokens, TokensView, TransportView,
};
use vstd::prelude::*;
use vstd::string::*;
use vstd::utf8::*;

verus! {

// ---- who may call, and where to ----

/// A call whose destination is known.
pub struct Invitation {
    pub call_id: String,
    pub offer: Sdp,
    pub payloads: Vec<u8>,
    pub to: LegEndpoint,
}

/// The contents of an `Invitation`.
#[verifier::ext_equal]
pub struct InvitationView {
    pub call_id: Seq<char>,
    pub offer: SdpView,
    pub payloads: Seq<u8>,
    pub to: LegView,
}

impl View for Invitation {
    type V = InvitationView;

    open spec fn view(&self) -> InvitationView {
        InvitationView {
            call_id: self.call_id@,
            offer: self.offer@,
            payloads: self.payloads@,
            to: self.to@,
        }
    }
}

/// The contents of an optional invitation.
pub open spec fn opt_invitation(i: Option<Invitation>) -> Option<InvitationView> {
    match i {
        Some(i) => Some(i@),
        None => None,
    }
}

/// `trunk` is a trunk whose peer is at the address, or nothing where there is none.
pub open spec fn peer_trunk(sip: SipView, peer: SocketAddress, trunk: Option<Seq<char>>) -> bool {
    match trunk {
        Some(name) => sip.trunks.contains_key(name) && sip.trunks[name].peer_addr == Some(peer),
        None => forall|k: Seq<char>| #[trigger]
            sip.trunks.contains_key(k) ==> sip.trunks[k].peer_addr != Some(peer),
    }
}

/// Why a caller is turned away.
pub enum Refusal {
    /// It has to authenticate first.
    Challenge,
    /// It may not call.
    Forbidden,
}

/// Where the call comes from: the trunk of the peer, else an extension that has authenticated if it
/// has a password.
pub open spec fn caller(
    t: TransportView,
    config: Config,
    req: RequestView,
    trunk: Option<Seq<char>>,
    now: Now,
) -> Result<OriginView, Refusal> {
    match trunk {
        Some(name) => Ok(OriginView::SipTrunk(name)),
        None => {
            let user = or_empty(req.from_user);
            if !config.sip.extensions@.contains_key(user) {
                Err(Refusal::Forbidden)
            } else {
                let ext = config.sip.extensions@[user];
                if ext.password.len() > 0 && !authenticated(t, req, now) {
                    Err(Refusal::Challenge)
                } else {
                    Ok(OriginView::SipExtension(user))
                }
            }
        },
    }
}

/// Whether the call would go out to a trunk, from an extension that may not place such calls.
pub open spec fn barred(config: Config, origin: OriginView, to: LegView) -> bool {
    &&& to is SipTrunk
    &&& origin matches OriginView::SipExtension(user) && !config.sip.extensions@[user].allow_outbound
}

/// The transport once it is known where the call comes from.
pub open spec fn caller_checked(
    t: TransportView,
    config: Config,
    req: RequestView,
    trunk: Option<Seq<char>>,
    now: Now,
) -> TransportView {
    let user = or_empty(req.from_user);
    if trunk is None && config.sip.extensions@.contains_key(user)
        && config.sip.extensions@[user].password.len() > 0 {
        checked(t, req, now)
    } else {
        t
    }
}

/// The record of a call that is being routed.
pub open spec fn routed_call(
    call_id: Seq<char>,
    from: LegView,
    to: LegView,
    now: Now,
) -> SipCallView {
    SipCallView {
        call_id,
        from,
        to,
        started_at_ms: now.epoch_ms,
        answered_at_ms: None,
        state: "routing"@,
        rtp_a_port: None,
        rtp_b_port: None,
    }
}

/// Whether the leg is on the Brew side.
pub open spec fn on_brew(to: LegView) -> bool {
    to is BrewPrivate || to is BrewGroup
}

/// What an INVITE changes and causes, up to where the call goes.
pub open spec fn invite(
    t: TransportView,
    config: Config,
    peer: SocketAddress,
    req: RequestView,
    trunk: Option<Seq<char>>,
    now: Now,
    tok: TokensView,
) -> (TransportView, Seq<SipActionView>, Option<InvitationView>) {
    let trying = reply(response(req, 100, "Trying"@, tok.tag), peer);
    let dialled = or_empty(req.to_user);
    let t1 = caller_checked(t, config, req, trunk, now);
    match caller(t, config, req, trunk, now) {
        Err(Refusal::Challenge) => (
            issued(t1, tok.nonce, now),
            seq![
                trying,
                reply(
                    challenge(
                        config,
                        req,
                        407,
                        "Proxy Authentication Required"@,
                        "Proxy-Authenticate"@,
                        tok,
                    ),
                    peer,
                ),
            ],
            None,
        ),
        Err(Refusal::Forbidden) => (
            t1,
            seq![trying, reply(response(req, 403, "Forbidden"@, tok.tag), peer)],
            None,
        ),
        Ok(origin) => match resolved(routes_view(config.sip.routes@), origin, dialled) {
            None => (
                t1,
                seq![trying, reply(response(req, 404, "Not Found"@, tok.tag), peer)],
                None,
            ),
            Some(to) if barred(config, origin, to) => (
                t1,
                seq![trying, reply(response(req, 403, "Forbidden"@, tok.tag), peer)],
                None,
            ),
            Some(to) => match sdp_of(body_text(req.body)) {
                None => (
                    t1,
                    seq![trying, reply(response(req, 488, "Not Acceptable Here"@, tok.tag), peer)],
                    None,
                ),
                Some(offer) => {
                    let call_id = or_empty(req.call_id);
                    let t2 = TransportView {
                        sip: call_started(
                            t1.sip,
                            routed_call(call_id, origin_leg(origin), to, now),
                        ),
                        ..t1
                    };
                    if on_brew(to) && !t.bridge {
                        (
                            t2,
                            seq![
                                trying,
                                reply(response(req, 480, "Temporarily Unavailable"@, tok.tag), peer),
                            ],
                            None,
                        )
                    } else {
                        (
                            t2,
                            seq![trying],
                            Some(
                                InvitationView {
                                    call_id,
                                    offer,
                                    payloads: negotiated(offer.payload_types),
                                    to,
                                },
                            ),
                        )
                    }
                },
            },
        },
    }
}

fn push_reply(actions: &mut Vec<SipAction>, message: SipMessage, to: SocketAddress)
    ensures
        sip_actions_view(final(actions)@) == sip_actions_view(old(actions)@).push(
            reply(message@, to),
        ),
{
    let ghost before = actions@;
    let ghost m = message@;
    actions.push(SipAction::Send { message, to });
    assert(sip_actions_view(actions@) =~= sip_actions_view(before).push(reply(m, to)));
}

fn find_caller(
    t: &mut SipTransport,
    config: &Config,
    req: &SipRequest,
    trunk: Option<String>,
    now: Now,
) -> (r: Result<CallOrigin, Refusal>)
    ensures
        final(t)@ == caller_checked(old(t)@, *config, req@, crate::text::opt_text(trunk), now),
        match (r, caller(old(t)@, *config, req@, crate::text::opt_text(trunk), now)) {
            (Ok(o), Ok(v)) => o@ == v,
            (Err(a), Err(b)) => a == b,
            _ => false,
        },
{
    match trunk {
        Some(name) => Ok(CallOrigin::SipTrunk(name)),
        None => {
            let user = text_or_empty(&req.from_user);
            match config.sip.extensions.get(&user) {
                Some(ext) => {
                    if ext.password.as_str().unicode_len() > 0 {
                        let authed = check_credentials(t, req, now);
                        if !authed {
                            return Err(Refusal::Challenge);
                        }
                    }
                    Ok(CallOrigin::SipExtension(user))
                },
                None => Err(Refusal::Forbidden),
            }
        },
    }
}

fn is_barred(config: &Config, origin: &CallOrigin, to: &LegEndpoint) -> (r: bool)
    requires
        origin@ matches OriginView::SipExtension(user) ==> config.sip.extensions@.contains_key(user),
    ensures
        r == barred(*config, origin@, to@),
{
    match (origin, to) {
        (CallOrigin::SipExtension(user), LegEndpoint::SipTrunk { .. }) => {
            match config.sip.extensions.get(user) {
                Some(ext) => !ext.allow_outbound,
                None => false,
            }
        },
        _ => false,
    }
}

/// Handles an INVITE up to where the call goes, with the given random values. The second part of
/// the result is the call that is then to be put through.
pub fn invite_with(
    t: &mut SipTransport,
    config: &Config,
    peer: SocketAddress,
    req: &SipRequest,
    now: Now,
    tok: &Tokens,
) -> (r: (Vec<SipAction>, Option<Invitation>))
    requires
        has_room(old(t)@.sip),
    ensures
        exists|trunk: Option<Seq<char>>| #[trigger]
            peer_trunk(old(t)@.sip, peer, trunk) && (
                final(t)@,
                sip_actions_view(r.0@),
                opt_invitation(r.1),
            ) == invite(old(t)@, *config, peer, req@, trunk, now, tok@),
{
    let mut actions: Vec<SipAction> = Vec::new();
    push_reply(&mut actions, respond(req, 100, "Trying", tok.tag.as_str()), peer);
    let ghost trying = reply(response(req@, 100, "Trying"@, tok@.tag), peer);
    assert(sip_actions_view(actions@) =~= seq![trying]);
    let trunk = t.state.trunk_for_peer(&peer);
    let ghost name = crate::text::opt_text(trunk);
    assert(peer_trunk(old(t)@.sip, peer, name));
    let ghost want = invite(old(t)@, *config, peer, req@, name, now, tok@);
    let ghost had_bridge = t@.bridge;
    let origin = match find_caller(t, config, req, trunk, now) {
        Ok(origin) => origin,
        Err(Refusal::Challenge) => {
            let resp = ask_credentials(
                t,
                config,
                req,
                407,
                "Proxy Authentication Required",
                "Proxy-Authenticate",
                tok,
                now,
            );
            push_reply(&mut actions, resp, peer);
            assert(sip_actions_view(actions@) =~= want.1);
            return (actions, None);
        },
        Err(Refusal::Forbidden) => {
            push_reply(&mut actions, respond(req, 403, "Forbidden", tok.tag.as_str()), peer);
            assert(sip_actions_view(actions@) =~= want.1);
            return (actions, None);
        },
    };
    let dialled = text_or_empty(&req.to_user);
    let to = match resolve(&config.sip.routes, &origin, dialled.as_str()) {
        Some((to, _)) => to,
        None => {
            push_reply(&mut actions, respond(req, 404, "Not Found", tok.tag.as_str()), peer);
            assert(sip_actions_view(actions@) =~= want.1);
            return (actions, None);
        },
    };
    if is_barred(config, &origin, &to) {
        push_reply(&mut actions, respond(req, 403, "Forbidden", tok.tag.as_str()), peer);
        assert(sip_actions_view(actions@) =~= want.1);
        return (actions, None);
    }
    let offer = match Sdp::parse(req.body.as_slice()) {
        Some(offer) => offer,
        None => {
            push_reply(
                &mut actions,
                respond(req, 488, "Not Acceptable Here", tok.tag.as_str()),
                peer,
            );
            assert(sip_actions_view(actions@) =~= want.1);
            return (actions, None);
        },
    };
    let payloads = negotiate_payloads(offer.payload_types.as_slice());
    let call_id = text_or_empty(&req.call_id);
    let call = SipCall {
        call_id: call_id.clone(),
        from: origin.to_leg(),
        to: to.dup(),
        started_at_ms: now.epoch_ms,
        answered_at_ms: None,
        state: "routing".to_string(),
        rtp_a_port: None,
        rtp_b_port: None,
    };
    assert(call@ == routed_call(call_id@, origin_leg(origin@), to@, now));
    t.state.start_call(call);
    let brew = match &to {
        LegEndpoint::BrewPrivate { .. } | LegEndpoint::BrewGroup { .. } => true,
        _ => false,
    };
    if brew && !t.bridge {
        push_reply(
            &mut actions,
            respond(req, 480, "Temporarily Unavailable", tok.tag.as_str()),
            peer,
        );
        assert(sip_actions_view(actions@) =~= want.1);
        assert(t@ =~= want.0);
        return (actions, None);
    }
    assert(t@ =~= want.0);
    let next = Invitation { call_id, offer, payloads, to };
    (actions, Some(next))
}

// ---- calls that stay on the SIP side ----

/// A URI in angle brackets.
pub open spec fn angled(uri: Seq<char>) -> Seq<char> {
    "<"@ + uri + ">"@
}

/// A SIP URI.
pub open spec fn sip_uri(user: Seq<char>, host: Seq<char>) -> Seq<char> {
    "sip:"@ + user + "@"@ + host
}

/// A SIP URI.
pub fn make_uri(user: &str, host: &str) -> (r: String)
    ensures
        r@ == sip_uri(user@, host@),
{
    let mut s = String::new();
    s.append("sip:");
    s.append(user);
    s.append("@");
    s.append(host);
    assert(s@ =~= sip_uri(user@, host@));
    s
}

/// A URI in angle brackets.
pub fn make_angled(uri: &str) -> (r: String)
    ensures
        r@ == angled(uri@),
{
    let mut s = String::new();
    s.append("<");
    s.append(uri);
    s.append(">");
    assert(s@ =~= angled(uri@));
    s
}

/// A header value with a tag.
pub open spec fn with_tag(value: Seq<char>, tag: Seq<char>) -> Seq<char> {
    value + ";tag="@ + tag
}

/// A header value with a tag.
pub fn add_tag(value: String, tag: &str) -> (r: String)
    ensures
        r@ == with_tag(value@, tag@),
{
    let mut s = value;
    s.append(";tag=");
    s.append(tag);
    s
}

/// The Via header of a request.
pub open spec fn via_value(host: Seq<char>, branch: Seq<char>) -> Seq<char> {
    "SIP/2.0/UDP "@ + host + ";branch=z9hG4bK"@ + branch
}

/// The Via header of a request.
pub fn make_via(host: &str, branch: &str) -> (r: String)
    ensures
        r@ == via_value(host@, branch@),
{
    let mut s = String::new();
    s.append("SIP/2.0/UDP ");
    s.append(host);
    s.append(";branch=z9hG4bK");
    s.append(branch);
    assert(s@ =~= via_value(host@, branch@));
    s
}

/// The parts of an INVITE.
pub struct Outgoing {
    pub uri: String,
    pub host: String,
    pub branch: String,
    pub from: String,
    pub to: String,
    pub call_id: String,
    pub contact: String,
}

/// The contents of `Outgoing`.
#[verifier::ext_equal]
pub struct OutgoingView {
    pub uri: Seq<char>,
    pub host: Seq<char>,
    pub branch: Seq<char>,
    pub from: Seq<char>,
    pub to: Seq<char>,
    pub call_id: Seq<char>,
    pub contact: Seq<char>,
}

impl View for Outgoing {
    type V = OutgoingView;

    open spec fn view(&self) -> OutgoingView {
        OutgoingView {
            uri: self.uri@,
            host: self.host@,
            branch: self.branch@,
            from: self.from@,
            to: self.to@,
            call_id: self.call_id@,
            contact: self.contact@,
        }
    }
}

/// An INVITE with a session description for the given relay port.
pub open spec fn invitation(o: OutgoingView, port: u16, payloads: Seq<u8>) -> SipMessageView {
    SipMessageView {
        start: StartView::Request { method: MethodView::Invite, uri: o.uri },
        headers: seq![
            text_header("Via"@, via_value(o.host, o.branch)),
            text_header("Max-Forwards"@, "70"@),
            text_header("From"@, o.from),
            text_header("To"@, o.to),
            text_header("Call-ID"@, o.call_id),
            text_header("CSeq"@, "1 INVITE"@),
            text_header("Contact"@, o.contact),
            text_header("Content-Type"@, "application/sdp"@),
        ],
        body: encode_utf8(sdp_text(o.host, port, payloads)),
    }
}

/// An INVITE with a session description for the given relay port.
pub fn make_invitation(o: Outgoing, port: u16, payloads: &[u8]) -> (r: SipMessage)
    ensures
        r@ == invitation(o@, port, payloads@),
{
    let mut m = SipMessage::new_request(Method::Invite, o.uri);
    m.push_header("Via", make_via(o.host.as_str(), o.branch.as_str()));
    m.push_header("Max-Forwards", "70".to_string());
    m.push_header("From", o.from);
    m.push_header("To", o.to);
    m.push_header("Call-ID", o.call_id);
    m.push_header("CSeq", "1 INVITE".to_string());
    m.push_header("Contact", o.contact);
    m.push_header("Content-Type", "application/sdp".to_string());
    m.body = Sdp::build(o.host.as_str(), port, payloads);
    assert(m@.headers =~= invitation(o@, port, payloads@).headers);
    m
}

/// The answer to an INVITE, with a session description for the given relay port.
pub open spec fn answer(
    req: RequestView,
    host: Seq<char>,
    port: u16,
    payloads: Seq<u8>,
    tag: Seq<char>,
) -> SipMessageView {
    let ok = response(req, 200, "OK"@, tag);
    let named = with_header(ok, "Contact"@, ValueView::Text(angled(sip_uri("brew"@, host))));
    let typed = with_header(named, "Content-Type"@, ValueView::Text("application/sdp"@));
    SipMessageView { body: encode_utf8(sdp_text(host, port, payloads)), ..typed }
}

/// The answer to an INVITE, with a session description for the given relay port.
pub fn make_answer(
    req: &SipRequest,
    host: &str,
    port: u16,
    payloads: &[u8],
    tag: &str,
) -> (r: SipMessage)
    ensures
        r@ == answer(req@, host@, port, payloads@, tag@),
{
    let mut ok = respond(req, 200, "OK", tag);
    let uri = make_uri("brew", host);
    ok.push_header("Contact", make_angled(uri.as_str()));
    ok.push_header("Content-Type", "application/sdp".to_string());
    ok.body = Sdp::build(host, port, payloads);
    ok
}

/// The address of the caller's media, as text.
pub fn media_address(offer: &Sdp) -> (r: String)
    ensures
        r@ == offer@.connection_addr + ":"@ + decimal(offer@.audio_port as nat),
{
    let mut s = offer.connection_addr.clone();
    s.append(":");
    push_decimal(&mut s, offer.audio_port as u64);
    s
}

/// A leg that sends to the address, where it is known.
pub open spec fn aimed(leg: RtpLeg, media: Option<SocketAddress>) -> RtpLeg {
    if media is Some {
        RtpLeg { remote: media, ..leg }
    } else {
        leg
    }
}

/// The state with the relay legs of a call noted and their clocks tracked.
pub open spec fn legs_noted(sip: SipView, call_id: Seq<char>, a: RtpLeg, b: RtpLeg) -> SipView {
    let ported = if sip.calls.contains_key(call_id) {
        SipView {
            calls: sip.calls.insert(
                call_id,
                SipCallView {
                    rtp_a_port: Some(a.local_port),
                    rtp_b_port: Some(b.local_port),
                    ..sip.calls[call_id]
                },
            ),
            ..sip
        }
    } else {
        sip
    };
    let clocks = if sip.media.contains_key(call_id) {
        sip.media[call_id]
    } else {
        Seq::empty()
    };
    SipView {
        media: ported.media.insert(call_id, clocks.push(a.last_rx_ms).push(b.last_rx_ms)),
        ..ported
    }
}

/// What follows when a call cannot be put through: it is answered with the code and ended.
pub open spec fn turned_down(
    t: TransportView,
    caller: SocketAddress,
    req: RequestView,
    call_id: Seq<char>,
    code: u16,
    reason: Seq<char>,
    tok: TokensView,
) -> (TransportView, Seq<SipActionView>) {
    (
        TransportView { sip: call_ended(t.sip, call_id), ..t },
        seq![reply(response(req, code, reason, tok.tag), caller)],
    )
}

/// What follows when a call is put through to `target`: RTP is relayed, the caller is answered, the
/// callee invited, and what is needed to end both dialogs is kept.
pub open spec fn put_through(
    t: TransportView,
    caller: SocketAddress,
    caller_text: Seq<char>,
    req: RequestView,
    call: InvitationView,
    outgoing: OutgoingView,
    target: SocketAddress,
    a: RtpLeg,
    b: RtpLeg,
    now: Now,
    tok: TokensView,
) -> (TransportView, Seq<SipActionView>) {
    (
        TransportView {
            sip: call_answered(legs_noted(t.sip, call.call_id, a, b), call.call_id, now.epoch_ms),
            relays: t.relays.insert(
                call.call_id,
                RelayedView {
                    caller: caller_dialog(
                        req,
                        caller,
                        caller_text,
                        tagged_to(req, 200, tok.tag),
                    ),
                    callee: DialogView {
                        request_uri: outgoing.uri,
                        target_addr: target,
                        from: outgoing.from,
                        to: outgoing.to,
                    },
                },
            ),
            ..t
        },
        seq![
            SipActionView::StartRelay { call_id: call.call_id, a, b },
            reply(answer(req, t.advertised_host, a.local_port, call.payloads, tok.tag), caller),
            reply(invitation(outgoing, b.local_port, call.payloads), target),
        ],
    )
}

fn note_legs(t: &mut SipTransport, call_id: &str, a: &RtpLeg, b: &RtpLeg)
    ensures
        final(t)@ == (TransportView {
            sip: legs_noted(old(t)@.sip, call_id@, *a, *b),
            ..old(t)@
        }),
{
    t.state.set_call_rtp(call_id, Some(a.local_port), Some(b.local_port));
    let _ = t.state.track_media(call_id, a.activity());
    let _ = t.state.track_media(call_id, b.activity());
    assert(t@.sip.media =~= legs_noted(old(t)@.sip, call_id@, *a, *b).media);
    assert(t@.sip =~= legs_noted(old(t)@.sip, call_id@, *a, *b));
}

fn turn_down(
    t: &mut SipTransport,
    caller: SocketAddress,
    req: &SipRequest,
    call_id: &str,
    code: u16,
    reason: &str,
    tok: &Tokens,
) -> (r: Vec<SipAction>)
    ensures
        (final(t)@, sip_actions_view(r@)) == turned_down(
            old(t)@,
            caller,
            req@,
            call_id@,
            code,
            reason@,
            tok@,
        ),
{
    let mut actions: Vec<SipAction> = Vec::new();
    push_reply(&mut actions, respond(req, code, reason, tok.tag.as_str()), caller);
    t.state.end_call(call_id);
    assert(sip_actions_view(actions@) =~= seq![
        reply(response(req@, code, reason@, tok@.tag), caller),
    ]);
    actions
}

fn put_call_through(
    t: &mut SipTransport,
    caller: SocketAddress,
    caller_text: &str,
    req: &SipRequest,
    call: &Invitation,
    outgoing: Outgoing,
    target: SocketAddress,
    a: RtpLeg,
    b: RtpLeg,
    now: Now,
    tok: &Tokens,
) -> (r: Vec<SipAction>)
    ensures
        (final(t)@, sip_actions_view(r@)) == put_through(
            old(t)@,
            caller,
            caller_text@,
            req@,
            call@,
            outgoing@,
            target,
            a,
            b,
            now,
            tok@,
        ),
{
    let ghost want = put_through(
        old(t)@,
        caller,
        caller_text@,
        req@,
        call@,
        outgoing@,
        target,
        a,
        b,
        now,
        tok@,
    );
    note_legs(t, call.call_id.as_str(), &a, &b);
    let callee = DialogBye {
        request_uri: outgoing.uri.clone(),
        target_addr: target,
        from: outgoing.from.clone(),
        to: outgoing.to.clone(),
    };
    let to = answered_to(req, tok.tag.as_str());
    let relayed = Relayed { caller: make_dialog(req, caller, caller_text, to), callee };
    let invite = make_invitation(outgoing, b.local_port, call.payloads.as_slice());
    t.relays.insert(call.call_id.clone(), relayed);
    let ok = make_answer(
        req,
        t.advertised_host.as_str(),
        a.local_port,
        call.payloads.as_slice(),
        tok.tag.as_str(),
    );
    let ghost (okv, invitev) = (ok@, invite@);
    let mut actions: Vec<SipAction> = Vec::new();
    actions.push(SipAction::StartRelay { call_id: call.call_id.clone(), a, b });
    actions.push(SipAction::Send { message: ok, to: caller });
    actions.push(SipAction::Send { message: invite, to: target });
    t.state.answer_call(call.call_id.as_str(), now.epoch_ms);
    assert(sip_actions_view(actions@) =~= want.1);
    assert(t@ =~= want.0);
    actions
}

/// The INVITE to a registered extension.
pub open spec fn extension_outgoing(
    host: Seq<char>,
    req: RequestView,
    contact: Seq<char>,
    call_id: Seq<char>,
    tok: TokensView,
) -> OutgoingView {
    OutgoingView {
        uri: contact,
        host,
        branch: tok.branch,
        from: with_tag(angled(sip_uri(or_empty(req.from_user), host)), tok.local_tag),
        to: angled(contact),
        call_id,
        contact: angled(sip_uri("brew"@, host)),
    }
}

/// What follows when a call goes to an extension: it is put through where the extension has a live
/// binding and two relay legs could be had.
pub open spec fn to_extension(
    t: TransportView,
    caller: SocketAddress,
    caller_text: Seq<char>,
    req: RequestView,
    aor: Seq<char>,
    call: InvitationView,
    media: Option<SocketAddress>,
    legs: Option<(RtpLeg, RtpLeg)>,
    now: Now,
    tok: TokensView,
) -> (TransportView, Seq<SipActionView>) {
    if !live(t.sip, aor, now.epoch_ms) {
        turned_down(t, caller, req, call.call_id, 480, "Temporarily Unavailable"@, tok)
    } else {
        let reg = t.sip.registrations[aor];
        match legs {
            None => turned_down(t, caller, req, call.call_id, 500, "Server Internal Error"@, tok),
            Some((a, b)) => put_through(
                t,
                caller,
                caller_text,
                req,
                call,
                extension_outgoing(t.advertised_host, req, reg.contact, call.call_id, tok),
                reg.source,
                aimed(a, media),
                b,
                now,
                tok,
            ),
        }
    }
}

/// Puts a call through to an extension, with the given random values. `caller_text` is the caller's
/// address as text, `media` the address of its media, and `legs` are the relay legs, which are asked
/// for only where the extension has a live binding.
pub fn terminate_to_extension(
    t: &mut SipTransport,
    caller: SocketAddress,
    caller_text: &str,
    req: &SipRequest,
    aor: &str,
    call: &Invitation,
    media: Option<SocketAddress>,
    legs: Option<(RtpLeg, RtpLeg)>,
    now: Now,
    tok: &Tokens,
) -> (r: Vec<SipAction>)
    ensures
        (final(t)@, sip_actions_view(r@)) == to_extension(
            old(t)@,
            caller,
            caller_text@,
            req@,
            aor@,
            call@,
            media,
            legs,
            now,
            tok@,
        ),
{
    let reg = match t.state.lookup_registration(aor, now.epoch_ms) {
        Some(reg) => reg,
        None => {
            return turn_down(
                t,
                caller,
                req,
                call.call_id.as_str(),
                480,
                "Temporarily Unavailable",
                tok,
            );
        },
    };
    let (mut a, b) = match legs {
        Some(legs) => legs,
        None => {
            return turn_down(
                t,
                caller,
                req,
                call.call_id.as_str(),
                500,
                "Server Internal Error",
                tok,
            );
        },
    };
    match media {
        Some(addr) => {
            a.set_remote(addr);
        },
        None => {},
    }
    let user = text_or_empty(&req.from_user);
    let from = make_uri(user.as_str(), t.advertised_host.as_str());
    let own = make_uri("brew", t.advertised_host.as_str());
    let outgoing = Outgoing {
        uri: reg.contact.clone(),
        host: t.advertised_host.clone(),
        branch: tok.branch.clone(),
        from: add_tag(make_angled(from.as_str()), tok.local_tag.as_str()),
        to: make_angled(reg.contact.as_str()),
        call_id: call.call_id.clone(),
        contact: make_angled(own.as_str()),
    };
    put_call_through(t, caller, caller_text, req, call, outgoing, reg.source, a, b, now, tok)
}

/// The address of a trunk's peer: the learned one, else the configured one.
pub open spec fn trunk_address(
    sip: SipView,
    trunk: Seq<char>,
    configured: Option<SocketAddress>,
) -> Option<SocketAddress> {
    if sip.trunks.contains_key(trunk) && sip.trunks[trunk].peer_addr is Some {
        sip.trunks[trunk].peer_addr
    } else {
        configured
    }
}

/// The user name that a trunk is addressed under.
pub open spec fn trunk_user(name: Seq<char>, tc: TrunkView) -> Seq<char> {
    if tc.username.len() == 0 {
        name
    } else {
        tc.username
    }
}

/// The user name that a trunk is addressed under.
pub fn user_of_trunk(name: &str, tc: &SipTrunkConfig) -> (r: String)
    ensures
        r@ == trunk_user(name@, tc@),
{
    if tc.username.as_str().unicode_len() == 0 {
        name.to_string()
    } else {
        tc.username.clone()
    }
}

/// The URI of a number at a trunk.
pub open spec fn trunk_uri(tc: TrunkView, number: Seq<char>) -> Seq<char> {
    sip_uri(number, before_first(tc.remote_host, ':'))
}

/// The INVITE to a trunk.
pub open spec fn trunk_outgoing(
    host: Seq<char>,
    trunk: Seq<char>,
    tc: TrunkView,
    number: Seq<char>,
    call_id: Seq<char>,
    tok: TokensView,
) -> OutgoingView {
    let own = angled(sip_uri(trunk_user(trunk, tc), host));
    OutgoingView {
        uri: trunk_uri(tc, number),
        host,
        branch: tok.branch,
        from: with_tag(own, tok.local_tag),
        to: angled(trunk_uri(tc, number)),
        call_id,
        contact: own,
    }
}

/// What follows when a call goes to a trunk: it is put through where the trunk is provisioned, its
/// peer's address is known, and two relay legs could be had.
pub open spec fn to_trunk(
    t: TransportView,
    config: Config,
    caller: SocketAddress,
    caller_text: Seq<char>,
    req: RequestView,
    trunk: Seq<char>,
    number: Seq<char>,
    call: InvitationView,
    configured: Option<SocketAddress>,
    media: Option<SocketAddress>,
    legs: Option<(RtpLeg, RtpLeg)>,
    now: Now,
    tok: TokensView,
) -> (TransportView, Seq<SipActionView>) {
    if !config.sip.trunks@.contains_key(trunk) {
        turned_down(t, caller, req, call.call_id, 404, "Not Found"@, tok)
    } else {
        match trunk_address(t.sip, trunk, configured) {
            None => turned_down(t, caller, req, call.call_id, 502, "Bad Gateway"@, tok),
            Some(target) => match legs {
                None => turned_down(
                    t,
                    caller,
                    req,
                    call.call_id,
                    500,
                    "Server Internal Error"@,
                    tok,
                ),
                Some((a, b)) => put_through(
                    t,
                    caller,
                    caller_text,
                    req,
                    call,
                    trunk_outgoing(
                        t.advertised_host,
                        trunk,
                        config.sip.trunks@[trunk],
                        number,
                        call.call_id,
                        tok,
                    ),
                    target,
                    aimed(a, media),
                    b,
                    now,
                    tok,
                ),
            },
        }
    }
}

/// The address of a trunk's peer: the learned one, else the configured one.
pub fn address_of_trunk(t: &SipTransport, trunk: &str, configured: Option<SocketAddress>) -> (r:
    Option<SocketAddress>)
    ensures
        r == trunk_address(t@.sip, trunk@, configured),
{
    match t.state.trunk_for_peer_addr(trunk) {
        Some(addr) => Some(addr),
        None => configured,
    }
}

/// Puts a call through to a trunk, with the given random values. `caller_text` is the caller's address
/// as text, `configured` the trunk's remote host read as an address, `media` the address of the
/// caller's media, and `legs` are the relay legs, which are asked for only where the peer's address
/// is known.
pub fn terminate_to_trunk(
    t: &mut SipTransport,
    config: &Config,
    caller: SocketAddress,
    caller_text: &str,
    req: &SipRequest,
    trunk: &str,
    number: &str,
    call: &Invitation,
    configured: Option<SocketAddress>,
    media: Option<SocketAddress>,
    legs: Option<(RtpLeg, RtpLeg)>,
    now: Now,
    tok: &Tokens,
) -> (r: Vec<SipAction>)
    ensures
        (final(t)@, sip_actions_view(r@)) == to_trunk(
            old(t)@,
            *config,
            caller,
            caller_text@,
            req@,
            trunk@,
            number@,
            call@,
            configured,
            media,
            legs,
            now,
            tok@,
        ),
{
    let id = call.call_id.as_str();
    let tc = match config.sip.trunks.get(&trunk.to_string()) {
        Some(tc) => tc,
        None => {
            return turn_down(t, caller, req, id, 404, "Not Found", tok);
        },
    };
    let target = match address_of_trunk(t, trunk, configured) {
        Some(target) => target,
        None => {
            return turn_down(t, caller, req, id, 502, "Bad Gateway", tok);
        },
    };
    let (mut a, b) = match legs {
        Some(legs) => legs,
        None => {
            return turn_down(t, caller, req, id, 500, "Server Internal Error", tok);
        },
    };
    match media {
        Some(addr) => {
            a.set_remote(addr);
        },
        None => {},
    }
    let peer_host = take_before(tc.remote_host.as_str(), ':');
    let uri = make_uri(number, peer_host.as_str());
    let user = user_of_trunk(trunk, tc);
    let own = make_uri(user.as_str(), t.advertised_host.as_str());
    let outgoing = Outgoing {
        uri: uri.clone(),
        host: t.advertised_host.clone(),
        branch: tok.branch.clone(),
        from: add_tag(make_angled(own.as_str()), tok.local_tag.as_str()),
        to: make_angled(uri.as_str()),
        call_id: call.call_id.clone(),
        contact: make_angled(own.as_str()),
    };
    put_call_through(t, caller, caller_text, req, call, outgoing, target, a, b, now, tok)
}

// ---- laws ----

/// A caller that is turned away before its call is routed leaves no call behind.
pub proof fn refused_caller_starts_no_call(
    t: TransportView,
    config: Config,
    peer: SocketAddress,
    req: RequestView,
    trunk: Option<Seq<char>>,
    now: Now,
    tok: TokensView,
)
    requires
        ({
            let origin = caller(t, config, req, trunk, now);
            let to = resolved(routes_view(config.sip.routes@), origin->Ok_0, or_empty(req.to_user));
            ||| origin is Err
            ||| to is None
            ||| barred(config, origin->Ok_0, to->0)
            ||| sdp_of(body_text(req.body)) is None
        }),
    ensures
        invite(t, config, peer, req, trunk, now, tok).0.sip == t.sip,
        invite(t, config, peer, req, trunk, now, tok).2 is None,
{
}

/// Only a provisioned extension can call, one with a password only once it has authenticated, and
/// one that may not place calls out to trunks reaches none.
pub proof fn only_permitted_extensions_call(
    t: TransportView,
    config: Config,
    peer: SocketAddress,
    req: RequestView,
    now: Now,
    tok: TokensView,
)
    ensures
        invite(t, config, peer, req, None, now, tok).2 matches Some(call) ==> {
            let user = or_empty(req.from_user);
            let ext = config.sip.extensions@[user];
            &&& config.sip.extensions@.contains_key(user)
            &&& ext.password.len() == 0 || authenticated(t, req, now)
            &&& call.to is SipTrunk ==> ext.allow_outbound
        },
{
}

} // verus!
