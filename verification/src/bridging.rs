//! Calls from SIP to the Brew side: their set-up, and what the Brew side answers.
use crate::addr::SocketAddress;
use crate::brew::{
    connected, Action, ActionView, ActiveCall, BrewState, BrewView, CallKind, CallState, CallView,
    Client, ClientMode, Frame, FrameView, Now,
};
use crate::bridge::{
    leg_set, no_actions, push_action, push_actions, send_frame, sip_ended, to_client, torn_down,
    transcoded, Both, BrewBridge, BridgeView, BridgedLeg, BridgedView,
};
use crate::config::Config;
use crate::dialog::{answered_to, caller_dialog, make_dialog, DialogView};
use crate::invite::{
    add_tag, aimed, angled, answer, make_angled, make_answer, make_uri, sip_uri, with_tag,
    Invitation, InvitationView,
};
use crate::media::{sdp_text, Sdp};
use crate::message::{
    or_empty, respond, respond_to, response, response_to, tagged_to, text_or_empty, RequestView,
    SipMessage, SipMessageView, SipRequest, ValueView,
};
use crate::registrar::{reply, with_header};
use crate::rtp::RtpLeg;
use crate::sip_state::{call_answered, SipCallView, SipView};
use crate::table::KeySet;
use crate::transport::{
    sip_actions_view, SipAction, SipActionView, SipTransport, Tokens, TokensView, Transcoding,
    TranscodingView, TransportView,
};
use vstd::prelude::*;
use vstd::string::*;
use vstd::utf8::*;

verus! {

// ---- what both directions share ----

/// A virtual client.
pub open spec fn virtual_client() -> Client {
    Client { mode: ClientMode::Terminal, remote_addr: None, version: 1 }
}

/// A virtual client.
pub fn make_virtual() -> (r: Client)
    ensures
        r == virtual_client(),
{
    Client { mode: ClientMode::Terminal, remote_addr: None, version: 1 }
}

/// A Brew call of a bridge.
pub open spec fn bridge_call(
    kind: CallKind,
    owner: u128,
    destination: u32,
    peers: Set<u128>,
    now: Now,
) -> CallView {
    CallView {
        kind,
        owner,
        source_issi: 0,
        destination,
        priority: 0,
        peers,
        started_at: now.mono_ns,
        last_activity_ms: now.epoch_ms,
    }
}

/// The SIP state with the relay leg of a bridged call noted and its clock tracked.
pub open spec fn leg_noted(sip: SipView, call_id: Seq<char>, leg: RtpLeg) -> SipView {
    let ported = if sip.calls.contains_key(call_id) {
        SipView {
            calls: sip.calls.insert(
                call_id,
                SipCallView { rtp_a_port: Some(leg.local_port), ..sip.calls[call_id] },
            ),
            ..sip
        }
    } else {
        sip
    };
    leg_tracked(ported, call_id, leg)
}

/// The SIP state with the clock of a leg tracked.
pub open spec fn leg_tracked(sip: SipView, call_id: Seq<char>, leg: RtpLeg) -> SipView {
    let clocks = if sip.media.contains_key(call_id) {
        sip.media[call_id]
    } else {
        Seq::empty()
    };
    SipView { media: sip.media.insert(call_id, clocks.push(leg.last_rx_ms)), ..sip }
}

fn note_leg(t: &mut SipTransport, call_id: &str, leg: &RtpLeg)
    ensures
        final(t)@ == (TransportView {
            sip: leg_noted(old(t)@.sip, call_id@, *leg),
            ..old(t)@
        }),
{
    t.state.set_call_rtp(call_id, Some(leg.local_port), None);
    let _ = t.state.track_media(call_id, leg.activity());
    assert(t@.sip =~= leg_noted(old(t)@.sip, call_id@, *leg));
}

/// Both sides with the SIP state changed.
pub open spec fn sip_set(x: Both, sip: SipView) -> Both {
    Both {
        bridge: BridgeView {
            transport: TransportView { sip, ..x.bridge.transport },
            ..x.bridge
        },
        ..x
    }
}

/// What follows when a SIP call cannot be bridged: it is answered with the code and ended.
pub open spec fn declined(
    x: Both,
    caller: SocketAddress,
    req: RequestView,
    call_id: Seq<char>,
    code: u16,
    reason: Seq<char>,
    tok: TokensView,
) -> (Both, Seq<SipActionView>) {
    (
        sip_ended(x, call_id),
        seq![reply(response(req, code, reason, tok.tag), caller)],
    )
}

fn decline(
    b: &mut BrewBridge,
    caller: SocketAddress,
    req: &SipRequest,
    call_id: &str,
    code: u16,
    reason: &str,
    tok: &Tokens,
    brew: &BrewState,
) -> (r: Vec<SipAction>)
    ensures
        (Both { bridge: final(b)@, brew: brew@ }, sip_actions_view(r@)) == declined(
            (Both { bridge: old(b)@, brew: brew@ }),
            caller,
            req@,
            call_id@,
            code,
            reason@,
            tok@,
        ),
{
    let mut actions = no_actions();
    push_action(
        &mut actions,
        SipAction::Send { message: respond(req, code, reason, tok.tag.as_str()), to: caller },
    );
    b.transport.state.end_call(call_id);
    assert(sip_actions_view(actions@) =~= seq![
        reply(response(req@, code, reason@, tok@.tag), caller),
    ]);
    actions
}

// ---- SIP to a Brew subscriber ----

/// The responses that the caller of a private call may get, all of one dialog.
pub struct PrivateCallHandshake {
    pub caller: SocketAddress,
    pub brew_call_id: u128,
    /// The client of the callee.
    pub confirm: Option<u128>,
    pub ringing: SipMessage,
    pub ok: SipMessage,
    pub reject: SipMessage,
    /// Whether the caller was told that the callee is ringing.
    pub rang: bool,
}

/// The contents of a `PrivateCallHandshake`.
#[verifier::ext_equal]
pub struct HandshakeView {
    pub caller: SocketAddress,
    pub brew_call_id: u128,
    pub confirm: Option<u128>,
    pub ringing: SipMessageView,
    pub ok: SipMessageView,
    pub reject: SipMessageView,
    pub rang: bool,
}

impl View for PrivateCallHandshake {
    type V = HandshakeView;

    open spec fn view(&self) -> HandshakeView {
        HandshakeView {
            caller: self.caller,
            brew_call_id: self.brew_call_id,
            confirm: self.confirm,
            ringing: self.ringing@,
            ok: self.ok@,
            reject: self.reject@,
            rang: self.rang,
        }
    }
}

/// The contents of an optional handshake.
pub open spec fn opt_handshake(h: Option<PrivateCallHandshake>) -> Option<HandshakeView> {
    match h {
        Some(h) => Some(h@),
        None => None,
    }
}

/// The To header that all responses of the dialog share.
pub open spec fn dialog_to(req: RequestView, tok: TokensView) -> Seq<char> {
    with_tag(or_empty(req.to), tok.dialog_tag)
}

/// A response with the contact of the server.
pub open spec fn contacted(m: SipMessageView, host: Seq<char>) -> SipMessageView {
    with_header(m, "Contact"@, ValueView::Text(angled(sip_uri("brew"@, host))))
}

/// The responses for the caller of a private call.
pub open spec fn handshake(
    host: Seq<char>,
    caller: SocketAddress,
    req: RequestView,
    port: u16,
    payloads: Seq<u8>,
    confirm: Option<u128>,
    tok: TokensView,
) -> HandshakeView {
    let to = dialog_to(req, tok);
    let ok = with_header(
        contacted(response_to(req, 200, "OK"@, to), host),
        "Content-Type"@,
        ValueView::Text("application/sdp"@),
    );
    HandshakeView {
        caller,
        brew_call_id: tok.brew_call,
        confirm,
        ringing: contacted(response_to(req, 180, "Ringing"@, to), host),
        ok: SipMessageView { body: encode_utf8(sdp_text(host, port, payloads)), ..ok },
        reject: response_to(req, 486, "Busy Here"@, to),
        rang: false,
    }
}

/// The Brew side with a private call from a virtual client to the client of the callee.
pub open spec fn private_bridged(
    s: BrewView,
    issi: u32,
    target: u128,
    now: Now,
    tok: TokensView,
) -> BrewView {
    BrewView {
        clients: s.clients.insert(tok.client, virtual_client()),
        calls: s.calls.insert(
            tok.brew_call,
            bridge_call(CallKind::Private, tok.client, issi, set![target], now),
        ),
        ..s
    }
}

/// A bridged call from SIP, with its transcoder running.
pub open spec fn inbound_leg(
    group: Option<u32>,
    bye: Option<DialogView>,
    tok: TokensView,
) -> BridgedView {
    BridgedView {
        virtual_client: tok.client,
        brew_call_id: tok.brew_call,
        group,
        running: true,
        bye,
        subscriber: None,
        subscriber_issi: 0,
        rang: false,
        connected: false,
        pending: None,
    }
}

/// The start of the transcoder of a call from SIP.
pub open spec fn inbound_media(
    call: InvitationView,
    leg: RtpLeg,
    targets: Set<u128>,
    tok: TokensView,
) -> SipActionView {
    SipActionView::StartTranscoder {
        call_id: call.call_id,
        leg,
        media: TranscodingView {
            payload_type: transcoded(call.payloads),
            brew_call: tok.brew_call,
            client: tok.client,
            targets,
        },
    }
}

/// What follows when a SIP call goes to a Brew subscriber: it rings there, where the subscriber is
/// registered and a relay leg could be had. The caller is answered only as the callee does.
pub open spec fn to_brew_private(
    x: Both,
    caller: SocketAddress,
    caller_text: Seq<char>,
    req: RequestView,
    issi: u32,
    call: InvitationView,
    media: Option<SocketAddress>,
    leg: Option<RtpLeg>,
    now: Now,
    tok: TokensView,
) -> (Both, Seq<SipActionView>, Option<HandshakeView>) {
    if !x.brew.subscribers.contains_key(issi) {
        let (y, actions) = declined(
            x,
            caller,
            req,
            call.call_id,
            480,
            "Temporarily Unavailable"@,
            tok,
        );
        (y, actions, None)
    } else if leg is None {
        let (y, actions) = declined(
            x,
            caller,
            req,
            call.call_id,
            500,
            "Server Internal Error"@,
            tok,
        );
        (y, actions, None)
    } else {
        let target = x.brew.subscribers[issi].client_id;
        let rtp = aimed(leg->0, media);
        let host = x.bridge.transport.advertised_host;
        let brew = private_bridged(x.brew, issi, target, now, tok);
        let reached = brew.connected(set![target]);
        let confirm = if brew.clients.contains_key(target) {
            Some(target)
        } else {
            None
        };
        let bye = caller_dialog(req, caller, caller_text, Some(dialog_to(req, tok)));
        let y = leg_set(
            sip_set(
                (Both { brew, ..x }),
                leg_noted(x.bridge.transport.sip, call.call_id, rtp),
            ),
            call.call_id,
            inbound_leg(None, bye, tok),
        );
        (
            y,
            seq![
                SipActionView::Brew(
                    ActionView::Send {
                        to: reached,
                        frame: FrameView::CircularSetup {
                            call: tok.brew_call,
                            source: 0,
                            destination: issi,
                            priority: 0,
                        },
                    },
                ),
                inbound_media(call, rtp, reached, tok),
            ],
            Some(handshake(host, caller, req, rtp.local_port, call.payloads, confirm, tok)),
        )
    }
}

fn make_handshake(
    host: &str,
    caller: SocketAddress,
    req: &SipRequest,
    port: u16,
    payloads: &[u8],
    confirm: Option<u128>,
    tok: &Tokens,
) -> (r: PrivateCallHandshake)
    ensures
        r@ == handshake(host@, caller, req@, port, payloads@, confirm, tok@),
{
    let to = add_tag(text_or_empty(&req.to), tok.dialog_tag.as_str());
    let own = make_uri("brew", host);
    let mut ringing = respond_to(req, 180, "Ringing", to.as_str());
    ringing.push_header("Contact", make_angled(own.as_str()));
    let mut ok = respond_to(req, 200, "OK", to.as_str());
    ok.push_header("Contact", make_angled(own.as_str()));
    ok.push_header("Content-Type", "application/sdp".to_string());
    ok.body = Sdp::build(host, port, payloads);
    let reject = respond_to(req, 486, "Busy Here", to.as_str());
    PrivateCallHandshake {
        caller,
        brew_call_id: tok.brew_call,
        confirm,
        ringing,
        ok,
        reject,
        rang: false,
    }
}

impl BrewBridge {
    /// Bridges a SIP call to a Brew subscriber, with the given random values. `caller_text` is the
    /// caller's address as text, `media` the address of its media, and `leg` the relay leg, which is
    /// asked for only where the subscriber is registered. The handshake that comes with the result
    /// is to be driven by the callee's call control, see `private_call_control`.
    pub fn sip_to_brew_private(
        &mut self,
        brew: &mut BrewState,
        caller: SocketAddress,
        caller_text: &str,
        req: &SipRequest,
        issi: u32,
        call: &Invitation,
        media: Option<SocketAddress>,
        leg: Option<RtpLeg>,
        now: Now,
        tok: &Tokens,
    ) -> (r: (Vec<SipAction>, Option<PrivateCallHandshake>))
        ensures
            (
                Both { bridge: final(self)@, brew: final(brew)@ },
                sip_actions_view(r.0@),
                opt_handshake(r.1),
            ) == to_brew_private(
                (Both { bridge: old(self)@, brew: old(brew)@ }),
                caller,
                caller_text@,
                req@,
                issi,
                call@,
                media,
                leg,
                now,
                tok@,
            ),
    {
        let ghost want = to_brew_private(
            (Both { bridge: old(self)@, brew: old(brew)@ }),
            caller,
            caller_text@,
            req@,
            issi,
            call@,
            media,
            leg,
            now,
            tok@,
        );
        let id = call.call_id.as_str();
        let target = match brew.subscribers.get(&issi) {
            Some(sub) => sub.client_id,
            None => {
                let actions = decline(
                    self,
                    caller,
                    req,
                    id,
                    480,
                    "Temporarily Unavailable",
                    tok,
                    brew,
                );
                return (actions, None);
            },
        };
        let mut rtp = match leg {
            Some(leg) => leg,
            None => {
                let actions = decline(
                    self,
                    caller,
                    req,
                    id,
                    500,
                    "Server Internal Error",
                    tok,
                    brew,
                );
                return (actions, None);
            },
        };
        match media {
            Some(addr) => {
                rtp.set_remote(addr);
            },
            None => {},
        }
        note_leg(&mut self.transport, id, &rtp);
        let mut peers: KeySet<u128> = KeySet::new();
        peers.insert(target);
        assert(peers@ =~= set![target]);
        brew.clients.insert(tok.client, make_virtual());
        let reached = connected(&brew.clients, &peers);
        let targets = reached.dup();
        brew.calls.insert(
            tok.brew_call,
            ActiveCall {
                kind: CallKind::Private,
                owner: tok.client,
                source_issi: 0,
                destination: issi,
                priority: 0,
                peers,
                started_at: now.mono_ns,
                last_activity_ms: now.epoch_ms,
            },
        );
        let confirm = if brew.clients.contains_key(&target) {
            Some(target)
        } else {
            None
        };
        let h = make_handshake(
            self.transport.advertised_host.as_str(),
            caller,
            req,
            rtp.local_port,
            call.payloads.as_slice(),
            confirm,
            tok,
        );
        let to = add_tag(text_or_empty(&req.to), tok.dialog_tag.as_str());
        let bye = make_dialog(req, caller, caller_text, Some(to));
        let payload_type = BrewBridge::transcoder_payload_type(call.payloads.as_slice());
        self.legs.insert(
            call.call_id.clone(),
            BridgedLeg {
                virtual_client: tok.client,
                brew_call_id: tok.brew_call,
                group: None,
                running: true,
                bye,
                subscriber: None,
                subscriber_issi: 0,
                rang: false,
                connected: false,
                pending: None,
            },
        );
        let mut actions = no_actions();
        push_action(
            &mut actions,
            SipAction::Brew(
                Action::Send {
                    to: reached,
                    frame: Frame::CircularSetup {
                        call: tok.brew_call,
                        source: 0,
                        destination: issi,
                        priority: 0,
                    },
                },
            ),
        );
        push_action(
            &mut actions,
            SipAction::StartTranscoder {
                call_id: call.call_id.clone(),
                leg: rtp,
                media: Transcoding {
                    payload_type,
                    brew_call: tok.brew_call,
                    client: tok.client,
                    targets,
                },
            },
        );
        assert(self@.legs =~= want.0.bridge.legs);
        assert(self@ =~= want.0.bridge);
        assert(brew@ =~= want.0.brew);
        assert(sip_actions_view(actions@) =~= want.1);
        (actions, Some(h))
    }
}

// ---- the callee of a private call ----

/// What call control of the callee changes and causes: the first sign of ringing gets the caller a
/// 180, acceptance confirms the call and gets the caller the 200, and a refusal gets the caller a
/// 486 and ends the call. The last part of the result is whether the handshake is over.
pub open spec fn controlled(
    x: Both,
    call_id: Seq<char>,
    h: HandshakeView,
    control: CallState,
    now: Now,
) -> (Both, HandshakeView, Seq<SipActionView>, bool) {
    match control {
        CallState::SetupAccept | CallState::Alert => {
            if h.rang {
                (x, h, Seq::empty(), false)
            } else {
                (x, HandshakeView { rang: true, ..h }, seq![reply(h.ringing, h.caller)], false)
            }
        },
        CallState::ConnectRequest => {
            let confirmed = match h.confirm {
                Some(c) => seq![
                    to_client(
                        x.brew,
                        c,
                        FrameView::ConnectConfirm { call: h.brew_call_id, grant: 0, permission: 0 },
                    ),
                ],
                None => Seq::empty(),
            };
            (
                sip_set(x, call_answered(x.bridge.transport.sip, call_id, now.epoch_ms)),
                h,
                confirmed + seq![reply(h.ok, h.caller)],
                true,
            )
        },
        CallState::SetupReject | CallState::Release => {
            let (y, more) = torn_down(x, call_id);
            (sip_ended(y, call_id), h, seq![reply(h.reject, h.caller)] + more, true)
        },
        _ => (x, h, Seq::empty(), false),
    }
}

impl BrewBridge {
    /// Drives the handshake of a private call from SIP by call control of the callee; whether the
    /// handshake is over.
    pub fn private_call_control(
        &mut self,
        brew: &mut BrewState,
        call_id: &str,
        h: &mut PrivateCallHandshake,
        control: CallState,
        now: Now,
    ) -> (r: (Vec<SipAction>, bool))
        ensures
            (
                Both { bridge: final(self)@, brew: final(brew)@ },
                final(h)@,
                sip_actions_view(r.0@),
                r.1,
            ) == controlled(
                (Both { bridge: old(self)@, brew: old(brew)@ }),
                call_id@,
                old(h)@,
                control,
                now,
            ),
    {
        let ghost want = controlled(
            (Both { bridge: old(self)@, brew: old(brew)@ }),
            call_id@,
            old(h)@,
            control,
            now,
        );
        let mut actions = no_actions();
        match control {
            CallState::SetupAccept | CallState::Alert => {
                if !h.rang {
                    h.rang = true;
                    push_action(
                        &mut actions,
                        SipAction::Send { message: h.ringing.dup(), to: h.caller },
                    );
                    assert(sip_actions_view(actions@) =~= want.2);
                }
                (actions, false)
            },
            CallState::ConnectRequest => {
                match h.confirm {
                    Some(c) => {
                        push_action(
                            &mut actions,
                            send_frame(
                                brew,
                                c,
                                Frame::ConnectConfirm {
                                    call: h.brew_call_id,
                                    grant: 0,
                                    permission: 0,
                                },
                            ),
                        );
                    },
                    None => {},
                }
                push_action(&mut actions, SipAction::Send { message: h.ok.dup(), to: h.caller });
                self.transport.state.answer_call(call_id, now.epoch_ms);
                assert(sip_actions_view(actions@) =~= want.2);
                (actions, true)
            },
            CallState::SetupReject | CallState::Release => {
                push_action(
                    &mut actions,
                    SipAction::Send { message: h.reject.dup(), to: h.caller },
                );
                let more = self.teardown(brew, call_id);
                push_actions(&mut actions, more);
                self.transport.state.end_call(call_id);
                assert(sip_actions_view(actions@) =~= want.2);
                (actions, true)
            },
            _ => (actions, false),
        }
    }
}

// ---- SIP to a Brew group ----

/// The clients of the group but for the virtual one.
pub open spec fn group_members(s: BrewView, gssi: u32, client: u128) -> Set<u128> {
    s.affiliated(gssi).remove(client)
}

/// The Brew side with a group call from a virtual client, which has joined the group.
pub open spec fn group_bridged(s: BrewView, gssi: u32, now: Now, tok: TokensView) -> BrewView {
    BrewView {
        clients: s.clients.insert(tok.client, virtual_client()),
        group_clients: s.group_clients.insert(gssi, s.affiliated(gssi).insert(tok.client)),
        calls: s.calls.insert(
            tok.brew_call,
            bridge_call(
                CallKind::Group,
                tok.client,
                gssi,
                group_members(s, gssi, tok.client),
                now,
            ),
        ),
        group_floor: s.group_floor.insert(gssi, tok.brew_call),
        ..s
    }
}

/// What follows when a SIP call goes to a Brew group: the floor is taken and the caller answered,
/// where someone is in the group, or the configuration has calls to empty groups, and a relay leg
/// could be had.
pub open spec fn to_brew_group(
    x: Both,
    config: Config,
    caller: SocketAddress,
    caller_text: Seq<char>,
    req: RequestView,
    gssi: u32,
    call: InvitationView,
    media: Option<SocketAddress>,
    leg: Option<RtpLeg>,
    now: Now,
    tok: TokensView,
) -> (Both, Seq<SipActionView>) {
    if x.brew.affiliated(gssi) =~= Set::<u128>::empty()
        && !config.fallback_broadcast_when_no_affiliations {
        declined(x, caller, req, call.call_id, 480, "Temporarily Unavailable"@, tok)
    } else if leg is None {
        declined(x, caller, req, call.call_id, 500, "Server Internal Error"@, tok)
    } else {
        let rtp = aimed(leg->0, media);
        let host = x.bridge.transport.advertised_host;
        let brew = group_bridged(x.brew, gssi, now, tok);
        let reached = brew.connected(group_members(x.brew, gssi, tok.client));
        let bye = caller_dialog(req, caller, caller_text, tagged_to(req, 200, tok.tag));
        let sip = call_answered(
            leg_noted(x.bridge.transport.sip, call.call_id, rtp),
            call.call_id,
            now.epoch_ms,
        );
        (
            leg_set(
                sip_set((Both { brew, ..x }), sip),
                call.call_id,
                inbound_leg(Some(gssi), bye, tok),
            ),
            seq![
                SipActionView::Brew(
                    ActionView::Send {
                        to: reached,
                        frame: FrameView::GroupTx {
                            call: tok.brew_call,
                            source: 0,
                            destination: gssi,
                            priority: 0,
                        },
                    },
                ),
                inbound_media(call, rtp, reached, tok),
                reply(answer(req, host, rtp.local_port, call.payloads, tok.tag), caller),
            ],
        )
    }
}

fn join_group(brew: &mut BrewState, gssi: u32, now: Now, tok: &Tokens) -> (r: KeySet<u128>)
    ensures
        final(brew)@ == group_bridged(old(brew)@, gssi, now, tok@),
        r@ == final(brew)@.connected(group_members(old(brew)@, gssi, tok@.client)),
{
    let ghost want = group_bridged(old(brew)@, gssi, now, tok@);
    brew.clients.insert(tok.client, make_virtual());
    let mut members = match brew.group_clients.remove(&gssi) {
        Some(members) => members,
        None => KeySet::new(),
    };
    let mut targets = members.dup();
    targets.remove(&tok.client);
    let reached = connected(&brew.clients, &targets);
    members.insert(tok.client);
    brew.group_clients.insert(gssi, members);
    brew.calls.insert(
        tok.brew_call,
        ActiveCall {
            kind: CallKind::Group,
            owner: tok.client,
            source_issi: 0,
            destination: gssi,
            priority: 0,
            peers: targets,
            started_at: now.mono_ns,
            last_activity_ms: now.epoch_ms,
        },
    );
    brew.group_floor.insert(gssi, tok.brew_call);
    assert(brew@.group_clients =~= want.group_clients);
    assert(brew@ =~= want);
    reached
}

impl BrewBridge {
    /// Bridges a SIP call to a Brew group, with the given random values. `caller_text` is the
    /// caller's address as text, `media` the address of its media, and `leg` the relay leg, which is
    /// asked for only where the call is not declined before.
    pub fn sip_to_brew_group(
        &mut self,
        brew: &mut BrewState,
        config: &Config,
        caller: SocketAddress,
        caller_text: &str,
        req: &SipRequest,
        gssi: u32,
        call: &Invitation,
        media: Option<SocketAddress>,
        leg: Option<RtpLeg>,
        now: Now,
        tok: &Tokens,
    ) -> (r: Vec<SipAction>)
        ensures
            (Both { bridge: final(self)@, brew: final(brew)@ }, sip_actions_view(r@))
                == to_brew_group(
                (Both { bridge: old(self)@, brew: old(brew)@ }),
                *config,
                caller,
                caller_text@,
                req@,
                gssi,
                call@,
                media,
                leg,
                now,
                tok@,
            ),
    {
        let ghost want = to_brew_group(
            (Both { bridge: old(self)@, brew: old(brew)@ }),
            *config,
            caller,
            caller_text@,
            req@,
            gssi,
            call@,
            media,
            leg,
            now,
            tok@,
        );
        let id = call.call_id.as_str();
        let empty = match brew.group_clients.get(&gssi) {
            Some(members) => members.is_empty(),
            None => true,
        };
        if empty && !config.fallback_broadcast_when_no_affiliations {
            return decline(self, caller, req, id, 480, "Temporarily Unavailable", tok, brew);
        }
        let mut rtp = match leg {
            Some(leg) => leg,
            None => {
                return decline(self, caller, req, id, 500, "Server Internal Error", tok, brew);
            },
        };
        match media {
            Some(addr) => {
                rtp.set_remote(addr);
            },
            None => {},
        }
        note_leg(&mut self.transport, id, &rtp);
        let reached = join_group(brew, gssi, now, tok);
        let targets = reached.dup();
        let ok = make_answer(
            req,
            self.transport.advertised_host.as_str(),
            rtp.local_port,
            call.payloads.as_slice(),
            tok.tag.as_str(),
        );
        let to = answered_to(req, tok.tag.as_str());
        let bye = make_dialog(req, caller, caller_text, to);
        let payload_type = BrewBridge::transcoder_payload_type(call.payloads.as_slice());
        self.legs.insert(
            call.call_id.clone(),
            BridgedLeg {
                virtual_client: tok.client,
                brew_call_id: tok.brew_call,
                group: Some(gssi),
                running: true,
                bye,
                subscriber: None,
                subscriber_issi: 0,
                rang: false,
                connected: false,
                pending: None,
            },
        );
        let mut actions = no_actions();
        push_action(
            &mut actions,
            SipAction::Brew(
                Action::Send {
                    to: reached,
                    frame: Frame::GroupTx {
                        call: tok.brew_call,
                        source: 0,
                        destination: gssi,
                        priority: 0,
                    },
                },
            ),
        );
        push_action(
            &mut actions,
            SipAction::StartTranscoder {
                call_id: call.call_id.clone(),
                leg: rtp,
                media: Transcoding {
                    payload_type,
                    brew_call: tok.brew_call,
                    client: tok.client,
                    targets,
                },
            },
        );
        push_action(&mut actions, SipAction::Send { message: ok, to: caller });
        self.transport.state.answer_call(id, now.epoch_ms);
        assert(self@.legs =~= want.0.bridge.legs);
        assert(self@ =~= want.0.bridge);
        assert(sip_actions_view(actions@) =~= want.1);
        actions
    }
}

} // verus!
