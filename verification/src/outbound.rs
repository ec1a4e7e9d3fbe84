//! Calls from the Brew side to SIP.
use crate::addr::SocketAddress;
use crate::brew::{
    connected, Action, ActionView, ActiveCall, BrewState, BrewView, CallKind, CallState, Frame,
    FrameView, Now,
};
use crate::bridge::{
    leg_set, no_actions, push_action, Both, BrewBridge, BrewCallLink, BridgedLeg, BridgedView,
    PendingMedia, PendingView,
};
use crate::bridging::{bridge_call, leg_tracked, make_virtual, sip_set, virtual_client};
use crate::config::Config;
use crate::dialog::{DialogBye, DialogView};
use crate::invite::{
    add_tag, angled, invitation, make_angled, make_invitation, make_uri, sip_uri, trunk_uri,
    with_tag, Outgoing, OutgoingView,
};
use crate::registrar::reply;
use crate::routing::{origin_leg, resolve, resolved, routes_view, CallOrigin, OriginView};
use crate::rtp::RtpLeg;
use crate::sip_state::{
    call_started, has_room, live, LegEndpoint, LegView, SipCall, SipCallView, SipView,
};
use crate::table::{KeySet, Table};
use crate::text::{decimal, decimal_string, take_before};
use crate::transport::{sip_actions_view, SipAction, SipActionView, Tokens, TokensView};
use vstd::prelude::*;
use vstd::string::*;

verus! {

/// Where a call to SIP goes.
pub struct Destination {
    pub leg: LegEndpoint,
    pub uri: String,
    pub addr: SocketAddress,
}

/// The contents of a `Destination`.
#[verifier::ext_equal]
pub struct DestinationView {
    pub leg: LegView,
    pub uri: Seq<char>,
    pub addr: SocketAddress,
}

impl View for Destination {
    type V = DestinationView;

    open spec fn view(&self) -> DestinationView {
        DestinationView { leg: self.leg@, uri: self.uri@, addr: self.addr }
    }
}

/// The contents of an optional destination.
pub open spec fn opt_destination(d: Option<Destination>) -> Option<DestinationView> {
    match d {
        Some(d) => Some(d@),
        None => None,
    }
}

/// The address of a trunk's peer: the configured one, else the learned one.
pub open spec fn dialled_address(
    sip: SipView,
    configured: Map<Seq<char>, SocketAddress>,
    trunk: Seq<char>,
) -> Option<SocketAddress> {
    if configured.contains_key(trunk) {
        Some(configured[trunk])
    } else if sip.trunks.contains_key(trunk) {
        sip.trunks[trunk].peer_addr
    } else {
        None
    }
}

/// Where the routes take a call from the Brew side: to an extension that has a live binding, or to a
/// provisioned trunk whose peer's address is known.
pub open spec fn destination(
    sip: SipView,
    config: Config,
    configured: Map<Seq<char>, SocketAddress>,
    origin: OriginView,
    dialled: Seq<char>,
    now_ms: u64,
) -> Option<DestinationView> {
    match resolved(routes_view(config.sip.routes@), origin, dialled) {
        Some(LegView::SipExtension { aor }) => {
            if live(sip, aor, now_ms) {
                let reg = sip.registrations[aor];
                Some(
                    DestinationView {
                        leg: LegView::SipExtension { aor },
                        uri: reg.contact,
                        addr: reg.source,
                    },
                )
            } else {
                None
            }
        },
        Some(LegView::SipTrunk { trunk, number }) => {
            if config.sip.trunks@.contains_key(trunk) {
                match dialled_address(sip, configured, trunk) {
                    Some(addr) => Some(
                        DestinationView {
                            leg: LegView::SipTrunk { trunk, number },
                            uri: trunk_uri(config.sip.trunks@[trunk], number),
                            addr,
                        },
                    ),
                    None => None,
                }
            } else {
                None
            }
        },
        _ => None,
    }
}

/// The user that the SIP side sees as the caller.
pub open spec fn caller_id(issi: u32) -> Seq<char> {
    if issi != 0 {
        decimal(issi as nat)
    } else {
        "brew"@
    }
}

/// The INVITE for a call from the Brew side to `uri`; `to_uri` is the URI that its To header names.
pub open spec fn brew_outgoing(
    host: Seq<char>,
    uri: Seq<char>,
    to_uri: Seq<char>,
    call_id: Seq<char>,
    issi: u32,
    tok: TokensView,
) -> OutgoingView {
    let own = angled(sip_uri(caller_id(issi), host));
    OutgoingView {
        uri,
        host,
        branch: tok.dialog_branch,
        from: with_tag(own, tok.dialog_tag),
        to: angled(to_uri),
        call_id,
        contact: own,
    }
}

/// The payload types that a call from the Brew side offers: both G.711 codecs, and DTMF events.
pub open spec fn offered() -> Seq<u8> {
    seq![0, 8, 101]
}

/// The record of a call from the Brew side.
pub open spec fn placed_call(
    call_id: Seq<char>,
    from: LegView,
    to: LegView,
    port: u16,
    now: Now,
) -> SipCallView {
    SipCallView {
        call_id,
        from,
        to,
        started_at_ms: now.epoch_ms,
        answered_at_ms: None,
        state: "brew-originated"@,
        rtp_a_port: Some(port),
        rtp_b_port: None,
    }
}

/// The Brew side with a private call from the caller's client to a virtual client.
pub open spec fn outbound_bridged(
    s: BrewView,
    link: BrewCallLink,
    now: Now,
    tok: TokensView,
) -> BrewView {
    BrewView {
        clients: s.clients.insert(tok.client, virtual_client()),
        calls: s.calls.insert(
            link.call_id,
            bridge_call(CallKind::Private, link.client, 0, set![tok.client], now),
        ),
        ..s
    }
}

/// A bridged call to SIP, which waits for the peer's answer.
pub open spec fn outbound_leg(
    link: BrewCallLink,
    o: OutgoingView,
    addr: SocketAddress,
    leg: RtpLeg,
    targets: Set<u128>,
    tok: TokensView,
) -> BridgedView {
    BridgedView {
        virtual_client: tok.client,
        brew_call_id: link.call_id,
        group: None,
        running: false,
        bye: Some(
            DialogView { request_uri: o.uri, target_addr: addr, from: o.from, to: o.to },
        ),
        subscriber: Some(link.client),
        subscriber_issi: link.source_issi,
        rang: false,
        connected: false,
        pending: Some(PendingView { leg, targets }),
    }
}

/// What follows when a call from the Brew side is placed: the caller is told that the set-up is
/// accepted, and the destination is invited. Without a relay leg nothing happens.
pub open spec fn placed(
    x: Both,
    call_id: Seq<char>,
    from: LegView,
    d: DestinationView,
    to_uri: Seq<char>,
    link: BrewCallLink,
    leg: Option<RtpLeg>,
    now: Now,
    tok: TokensView,
) -> (Both, Seq<SipActionView>) {
    match leg {
        None => (x, Seq::empty()),
        Some(rtp) => {
            let host = x.bridge.transport.advertised_host;
            let brew = outbound_bridged(x.brew, link, now, tok);
            let reached = brew.connected(set![link.client]);
            let o = brew_outgoing(host, d.uri, to_uri, call_id, link.source_issi, tok);
            let sip = leg_tracked(
                call_started(
                    x.bridge.transport.sip,
                    placed_call(call_id, from, d.leg, rtp.local_port, now),
                ),
                call_id,
                rtp,
            );
            (
                leg_set(
                    sip_set((Both { brew, ..x }), sip),
                    call_id,
                    outbound_leg(link, o, d.addr, rtp, reached, tok),
                ),
                seq![
                    SipActionView::Brew(
                        ActionView::Send {
                            to: reached,
                            frame: FrameView::Control {
                                state: CallState::SetupAccept,
                                call: link.call_id,
                            },
                        },
                    ),
                    reply(invitation(o, rtp.local_port, offered()), d.addr),
                ],
            )
        },
    }
}

/// The Call-ID of a call from the Brew side.
pub open spec fn brew_call_id(tok: TokensView) -> Seq<char> {
    "brew-"@ + tok.call
}

/// What follows when a call from the Brew side is offered to SIP. The last part of the result is
/// whether it was taken.
pub open spec fn offered_to_sip(
    x: Both,
    config: Config,
    configured: Map<Seq<char>, SocketAddress>,
    origin: OriginView,
    dialled: Seq<char>,
    to_uri: Seq<char>,
    link: BrewCallLink,
    leg: Option<RtpLeg>,
    now: Now,
    tok: TokensView,
) -> (Both, Seq<SipActionView>, bool) {
    match destination(x.bridge.transport.sip, config, configured, origin, dialled, now.epoch_ms) {
        None => (x, Seq::empty(), false),
        Some(d) => {
            let (y, actions) = placed(
                x,
                brew_call_id(tok),
                origin_leg(origin),
                d,
                to_uri,
                link,
                leg,
                now,
                tok,
            );
            (y, actions, true)
        },
    }
}

impl BrewBridge {
    /// Where the routes take a call from the Brew side. `configured` holds the addresses of the
    /// trunks whose remote host is one.
    pub fn find_destination(
        &self,
        config: &Config,
        configured: &Table<String, SocketAddress>,
        origin: &CallOrigin,
        dialled: &str,
        now_ms: u64,
    ) -> (r: Option<Destination>)
        ensures
            opt_destination(r) == destination(
                self@.transport.sip,
                *config,
                configured@,
                origin@,
                dialled@,
                now_ms,
            ),
    {
        let leg = match resolve(&config.sip.routes, origin, dialled) {
            Some((leg, _)) => leg,
            None => {
                return None;
            },
        };
        match &leg {
            LegEndpoint::SipExtension { aor } => {
                match self.transport.state.lookup_registration(aor.as_str(), now_ms) {
                    Some(reg) => Some(
                        Destination { leg: leg.dup(), uri: reg.contact, addr: reg.source },
                    ),
                    None => None,
                }
            },
            LegEndpoint::SipTrunk { trunk, number } => {
                let tc = match config.sip.trunks.get(trunk) {
                    Some(tc) => tc,
                    None => {
                        return None;
                    },
                };
                let addr = match configured.get(trunk) {
                    Some(addr) => *addr,
                    None => {
                        match self.transport.state.trunk_for_peer_addr(trunk.as_str()) {
                            Some(addr) => addr,
                            None => {
                                return None;
                            },
                        }
                    },
                };
                let host = take_before(tc.remote_host.as_str(), ':');
                let uri = make_uri(number.as_str(), host.as_str());
                Some(Destination { leg: leg.dup(), uri, addr })
            },
            _ => None,
        }
    }

    /// Places a call from the Brew side, with the given random values and relay leg. `to_uri` is the
    /// URI of the destination as the To header names it.
    pub fn place_outbound(
        &mut self,
        brew: &mut BrewState,
        call_id: &str,
        from: LegEndpoint,
        d: Destination,
        to_uri: &str,
        link: BrewCallLink,
        leg: Option<RtpLeg>,
        now: Now,
        tok: &Tokens,
    ) -> (r: Vec<SipAction>)
        requires
            has_room(old(self)@.transport.sip),
        ensures
            (Both { bridge: final(self)@, brew: final(brew)@ }, sip_actions_view(r@)) == placed(
                (Both { bridge: old(self)@, brew: old(brew)@ }),
                call_id@,
                from@,
                d@,
                to_uri@,
                link,
                leg,
                now,
                tok@,
            ),
    {
        let ghost want = placed(
            (Both { bridge: old(self)@, brew: old(brew)@ }),
            call_id@,
            from@,
            d@,
            to_uri@,
            link,
            leg,
            now,
            tok@,
        );
        let mut actions = no_actions();
        let rtp = match leg {
            Some(leg) => leg,
            None => {
                return actions;
            },
        };
        let port = rtp.local_port;
        let Destination { leg: to, uri, addr } = d;
        let call = SipCall {
            call_id: call_id.to_string(),
            from,
            to,
            started_at_ms: now.epoch_ms,
            answered_at_ms: None,
            state: "brew-originated".to_string(),
            rtp_a_port: Some(port),
            rtp_b_port: None,
        };
        assert(call@ == placed_call(call_id@, from@, d@.leg, port, now));
        self.transport.state.start_call(call);
        let _ = self.transport.state.track_media(call_id, rtp.activity());

        brew.clients.insert(tok.client, make_virtual());
        let mut peers: KeySet<u128> = KeySet::new();
        peers.insert(tok.client);
        assert(peers@ =~= set![tok@.client]);
        brew.calls.insert(
            link.call_id,
            ActiveCall {
                kind: CallKind::Private,
                owner: link.client,
                source_issi: 0,
                destination: 0,
                priority: 0,
                peers,
                started_at: now.mono_ns,
                last_activity_ms: now.epoch_ms,
            },
        );
        let mut one: KeySet<u128> = KeySet::new();
        one.insert(link.client);
        assert(one@ =~= set![link.client]);
        let reached = connected(&brew.clients, &one);
        let targets = reached.dup();
        push_action(
            &mut actions,
            SipAction::Brew(
                Action::Send {
                    to: reached,
                    frame: Frame::Control { state: CallState::SetupAccept, call: link.call_id },
                },
            ),
        );

        let user = if link.source_issi != 0 {
            decimal_string(link.source_issi as u64)
        } else {
            "brew".to_string()
        };
        let own = make_uri(user.as_str(), self.transport.advertised_host.as_str());
        let from_header = add_tag(make_angled(own.as_str()), tok.dialog_tag.as_str());
        let to_header = make_angled(to_uri);
        let outgoing = Outgoing {
            uri: uri.clone(),
            host: self.transport.advertised_host.clone(),
            branch: tok.dialog_branch.clone(),
            from: from_header.clone(),
            to: to_header.clone(),
            call_id: call_id.to_string(),
            contact: make_angled(own.as_str()),
        };
        assert(outgoing@ == brew_outgoing(
            self@.transport.advertised_host,
            uri@,
            to_uri@,
            call_id@,
            link.source_issi,
            tok@,
        ));
        let offer: [u8; 3] = [0, 8, 101];
        assert(offer@ =~= offered());
        let invite = make_invitation(outgoing, port, offer.as_slice());
        self.legs.insert(
            call_id.to_string(),
            BridgedLeg {
                virtual_client: tok.client,
                brew_call_id: link.call_id,
                group: None,
                running: false,
                bye: Some(
                    DialogBye {
                        request_uri: uri,
                        target_addr: addr,
                        from: from_header,
                        to: to_header,
                    },
                ),
                subscriber: Some(link.client),
                subscriber_issi: link.source_issi,
                rang: false,
                connected: false,
                pending: Some(PendingMedia { leg: rtp, targets }),
            },
        );
        push_action(&mut actions, SipAction::Send { message: invite, to: addr });
        assert(self@.transport.sip =~= want.0.bridge.transport.sip);
        assert(self@.legs =~= want.0.bridge.legs);
        assert(self@ =~= want.0.bridge);
        assert(brew@ =~= want.0.brew);
        assert(sip_actions_view(actions@) =~= want.1);
        actions
    }

    /// Offers a call from the Brew side to SIP, with the given random values; whether it was taken.
    /// `to_uri` is the URI of the destination as the To header names it. The relay leg is asked for
    /// only where the call has a destination.
    pub fn brew_to_sip(
        &mut self,
        brew: &mut BrewState,
        config: &Config,
        configured: &Table<String, SocketAddress>,
        origin: &CallOrigin,
        dialled: &str,
        to_uri: &str,
        link: BrewCallLink,
        leg: Option<RtpLeg>,
        now: Now,
        tok: &Tokens,
    ) -> (r: (Vec<SipAction>, bool))
        requires
            has_room(old(self)@.transport.sip),
        ensures
            (Both { bridge: final(self)@, brew: final(brew)@ }, sip_actions_view(r.0@), r.1)
                == offered_to_sip(
                (Both { bridge: old(self)@, brew: old(brew)@ }),
                *config,
                configured@,
                origin@,
                dialled@,
                to_uri@,
                link,
                leg,
                now,
                tok@,
            ),
    {
        match self.find_destination(config, configured, origin, dialled, now.epoch_ms) {
            Some(d) => {
                let mut call_id = String::new();
                call_id.append("brew-");
                call_id.append(tok.call.as_str());
                assert(call_id@ =~= brew_call_id(tok@));
                let actions = self.place_outbound(
                    brew,
                    call_id.as_str(),
                    origin.to_leg(),
                    d,
                    to_uri,
                    link,
                    leg,
                    now,
                    tok,
                );
                (actions, true)
            },
            None => (no_actions(), false),
        }
    }
}

} // verus!
