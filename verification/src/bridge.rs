//! The bridge between SIP and Brew.
//!
//! A SIP call to or from the Brew side is given a virtual client, which sits in the Brew state like
//! any other, so that the router delivers the frames of the call to it; a transcoder takes them from
//! there.
use crate::addr::SocketAddress;
use crate::brew::{
    connected, Action, ActionView, BrewState, BrewView, CallKind, CallState, Frame, FrameView, Now,
};
use crate::dialog::{bye_message, make_bye, opt_dialog, DialogBye, DialogView};
use crate::media::{body_text, negotiated, sdp_of, Sdp};
use crate::message::{text_header, Method, MethodView, SipMessage, SipMessageView, StartView};
use crate::invite::{aimed, make_via, via_value};
use crate::registrar::reply;
use crate::rtp::RtpLeg;
use crate::sip_state::{call_answered, call_ended};
use crate::table::{has_key, lists, KeySet, Table};
use crate::text::opt_text;
use crate::transport::{
    sip_actions_view, SipAction, SipActionView, SipTransport, Tokens, TokensView, Transcoding,
    TranscodingView, TransportView,
};
use vstd::prelude::*;
use vstd::string::*;

verus! {

// ---- codecs ----

/// The first G.711 payload type of a list; PCMU where it has none.
pub open spec fn transcoded(payloads: Seq<u8>) -> u8
    decreases payloads.len(),
{
    if payloads.len() == 0 {
        0
    } else if payloads[0] == 0 || payloads[0] == 8 {
        payloads[0]
    } else {
        transcoded(payloads.drop_first())
    }
}

/// The transcoder runs at the codec that an offer was answered with.
pub proof fn transcoder_runs_at_the_answered_codec(offer: Seq<u8>)
    ensures
        transcoded(negotiated(offer)) == negotiated(offer)[0],
{
}

// ---- the bridge ----

/// The Brew call that a call to SIP is placed for.
#[derive(Clone, Copy)]
pub struct BrewCallLink {
    pub call_id: u128,
    /// The client of the caller.
    pub client: u128,
    /// The ISSI of the caller, under which the SIP side sees it.
    pub source_issi: u32,
}

/// What a transcoder needs that is started once the SIP peer has answered.
pub struct PendingMedia {
    pub leg: RtpLeg,
    pub targets: KeySet<u128>,
}

/// The contents of a `PendingMedia`.
#[verifier::ext_equal]
pub struct PendingView {
    pub leg: RtpLeg,
    pub targets: Set<u128>,
}

/// The contents of an optional `PendingMedia`.
pub open spec fn opt_pending(p: Option<PendingMedia>) -> Option<PendingView> {
    match p {
        Some(p) => Some(PendingView { leg: p.leg, targets: p.targets@ }),
        None => None,
    }
}

/// A bridged call.
pub struct BridgedLeg {
    pub virtual_client: u128,
    pub brew_call_id: u128,
    /// The group, for a group call.
    pub group: Option<u32>,
    /// Whether a transcoder is running.
    pub running: bool,
    pub bye: Option<DialogBye>,
    /// The client of the Brew subscriber that placed the call, for a call to SIP.
    pub subscriber: Option<u128>,
    pub subscriber_issi: u32,
    /// Whether the subscriber was told that the peer is ringing.
    pub rang: bool,
    /// Whether the subscriber was told that the peer has answered, or refused.
    pub connected: bool,
    pub pending: Option<PendingMedia>,
}

/// The contents of a `BridgedLeg`.
#[verifier::ext_equal]
pub struct BridgedView {
    pub virtual_client: u128,
    pub brew_call_id: u128,
    pub group: Option<u32>,
    pub running: bool,
    pub bye: Option<DialogView>,
    pub subscriber: Option<u128>,
    pub subscriber_issi: u32,
    pub rang: bool,
    pub connected: bool,
    pub pending: Option<PendingView>,
}

impl View for BridgedLeg {
    type V = BridgedView;

    open spec fn view(&self) -> BridgedView {
        BridgedView {
            virtual_client: self.virtual_client,
            brew_call_id: self.brew_call_id,
            group: self.group,
            running: self.running,
            bye: opt_dialog(self.bye),
            subscriber: self.subscriber,
            subscriber_issi: self.subscriber_issi,
            rang: self.rang,
            connected: self.connected,
            pending: opt_pending(self.pending),
        }
    }
}

/// Couples the SIP side to the Brew side.
pub struct BrewBridge {
    pub transport: SipTransport,
    /// The bridged calls, by Call-ID.
    pub legs: Table<String, BridgedLeg>,
}

/// The contents of a `BrewBridge`.
#[verifier::ext_equal]
pub struct BridgeView {
    pub transport: TransportView,
    pub legs: Map<Seq<char>, BridgedView>,
}

impl View for BrewBridge {
    type V = BridgeView;

    open spec fn view(&self) -> BridgeView {
        BridgeView { transport: self.transport@, legs: self.legs@ }
    }
}

/// Both sides of the server.
#[verifier::ext_equal]
pub struct Both {
    pub bridge: BridgeView,
    pub brew: BrewView,
}

/// Something to be done on the Brew side.
pub open spec fn to_client(s: BrewView, client: u128, frame: FrameView) -> SipActionView {
    SipActionView::Brew(ActionView::Send { to: s.connected(set![client]), frame })
}

// ---- the end of a bridged call ----

/// An ACK in a dialog.
pub open spec fn ack_message(
    host: Seq<char>,
    d: DialogView,
    to: Seq<char>,
    call_id: Seq<char>,
    branch: Seq<char>,
) -> SipMessageView {
    SipMessageView {
        start: StartView::Request { method: MethodView::Ack, uri: d.request_uri },
        headers: seq![
            text_header("Via"@, via_value(host, branch)),
            text_header("Max-Forwards"@, "70"@),
            text_header("From"@, d.from),
            text_header("To"@, to),
            text_header("Call-ID"@, call_id),
            text_header("CSeq"@, "1 ACK"@),
        ],
        body: Seq::empty(),
    }
}

/// The group index without the virtual client of a bridged group call.
pub open spec fn left_group(s: BrewView, leg: BridgedView) -> Map<u32, Set<u128>> {
    match leg.group {
        Some(g) if s.group_clients.contains_key(g) => s.group_clients.insert(
            g,
            s.group_clients[g].remove(leg.virtual_client),
        ),
        _ => s.group_clients,
    }
}

/// The floors without that of a bridged group call.
pub open spec fn left_floor(s: BrewView, leg: BridgedView) -> Map<u32, u128> {
    match leg.group {
        Some(g) if s.group_floor.contains_key(g) && s.group_floor[g] == leg.brew_call_id => {
            s.group_floor.remove(g)
        },
        _ => s.group_floor,
    }
}

/// The Brew side without what a bridged call has put there.
pub open spec fn unbridged(s: BrewView, leg: BridgedView) -> BrewView {
    BrewView {
        clients: s.clients.remove(leg.virtual_client),
        calls: s.calls.remove(leg.brew_call_id),
        group_clients: left_group(s, leg),
        group_floor: left_floor(s, leg),
        ..s
    }
}

/// What the participants of a bridged call are told when it ends.
pub open spec fn farewell(s: BrewView, leg: BridgedView) -> Seq<SipActionView> {
    if s.calls.contains_key(leg.brew_call_id) {
        let call = s.calls[leg.brew_call_id];
        seq![
            SipActionView::Brew(
                ActionView::Send {
                    to: s.connected(call.participants().remove(leg.virtual_client)),
                    frame: FrameView::CallCause {
                        state: if call.kind == CallKind::Group {
                            CallState::GroupIdle
                        } else {
                            CallState::Release
                        },
                        call: leg.brew_call_id,
                        cause: 0,
                    },
                },
            ),
        ]
    } else {
        Seq::empty()
    }
}

/// What it changes and causes to tear a bridged call down.
pub open spec fn torn_down(x: Both, call_id: Seq<char>) -> (Both, Seq<SipActionView>) {
    if !x.bridge.legs.contains_key(call_id) {
        (x, Seq::empty())
    } else {
        let leg = x.bridge.legs[call_id];
        let abort = if leg.running {
            seq![SipActionView::AbortTranscoder { call_id }]
        } else {
            Seq::empty()
        };
        (
            Both {
                bridge: BridgeView { legs: x.bridge.legs.remove(call_id), ..x.bridge },
                brew: unbridged(x.brew, leg),
            },
            abort + farewell(x.brew, leg) + seq![
                SipActionView::Brew(ActionView::CallEnded { id: leg.brew_call_id }),
            ],
        )
    }
}

/// The BYE to the SIP peer of a bridged call, where its dialog is known.
pub open spec fn parting(b: BridgeView, call_id: Seq<char>, tok: TokensView) -> Seq<SipActionView> {
    if b.legs.contains_key(call_id) && b.legs[call_id].bye is Some {
        let d = b.legs[call_id].bye->0;
        seq![
            reply(
                bye_message(b.transport.advertised_host, d, call_id, tok.dialog_branch),
                d.target_addr,
            ),
        ]
    } else {
        Seq::empty()
    }
}

/// What it changes and causes to end a bridged call from this side.
pub open spec fn forced(x: Both, call_id: Seq<char>, tok: TokensView) -> (Both, Seq<SipActionView>) {
    let (y, more) = torn_down(x, call_id);
    (y, parting(x.bridge, call_id, tok) + more)
}

/// Both sides with the SIP call ended.
pub open spec fn sip_ended(x: Both, call_id: Seq<char>) -> Both {
    Both {
        bridge: BridgeView {
            transport: TransportView {
                sip: call_ended(x.bridge.transport.sip, call_id),
                ..x.bridge.transport
            },
            ..x.bridge
        },
        ..x
    }
}

/// `call_id` names a bridged call with the Brew call, or is nothing where there is none.
pub open spec fn bridges(
    legs: Map<Seq<char>, BridgedView>,
    brew_call: u128,
    call_id: Option<Seq<char>>,
) -> bool {
    match call_id {
        Some(id) => legs.contains_key(id) && legs[id].brew_call_id == brew_call,
        None => forall|k: Seq<char>| #[trigger]
            legs.contains_key(k) ==> legs[k].brew_call_id != brew_call,
    }
}

/// What follows on the SIP side when a Brew call has ended.
pub open spec fn brew_call_over(x: Both, call_id: Option<Seq<char>>, tok: TokensView) -> (
    Both,
    Seq<SipActionView>,
) {
    match call_id {
        Some(id) => {
            let (y, actions) = forced(x, id, tok);
            (sip_ended(y, id), actions)
        },
        None => (x, Seq::empty()),
    }
}

/// Adds an action at the end of a list.
pub fn push_action(actions: &mut Vec<SipAction>, action: SipAction)
    ensures
        sip_actions_view(final(actions)@) == sip_actions_view(old(actions)@).push(action@),
{
    let ghost before = actions@;
    let ghost a = action@;
    actions.push(action);
    assert(sip_actions_view(actions@) =~= sip_actions_view(before).push(a));
}

/// Adds actions at the end of a list.
pub fn push_actions(actions: &mut Vec<SipAction>, more: Vec<SipAction>)
    ensures
        sip_actions_view(final(actions)@) == sip_actions_view(old(actions)@) + sip_actions_view(
            more@,
        ),
{
    let ghost before = actions@;
    let ghost added = more@;
    let mut more = more;
    actions.append(&mut more);
    assert(actions@ =~= before + added);
    assert(sip_actions_view(actions@) =~= sip_actions_view(before) + sip_actions_view(added));
}

/// A list without actions.
pub fn no_actions() -> (r: Vec<SipAction>)
    ensures
        sip_actions_view(r@) == Seq::<SipActionView>::empty(),
{
    let r: Vec<SipAction> = Vec::new();
    assert(sip_actions_view(r@) =~= Seq::<SipActionView>::empty());
    r
}

/// A frame to one client, if it is connected.
pub fn send_frame(brew: &BrewState, client: u128, frame: Frame) -> (r: SipAction)
    ensures
        r@ == to_client(brew@, client, frame@),
{
    let mut to: KeySet<u128> = KeySet::new();
    to.insert(client);
    assert(to@ =~= set![client]);
    let reached = connected(&brew.clients, &to);
    SipAction::Brew(Action::Send { to: reached, frame })
}

fn make_ack(host: &str, d: &DialogBye, to: String, call_id: &str, branch: &str) -> (r: SipMessage)
    ensures
        r@ == ack_message(host@, d@, to@, call_id@, branch@),
{
    let mut m = SipMessage::new_request(Method::Ack, d.request_uri.clone());
    m.push_header("Via", make_via(host, branch));
    m.push_header("Max-Forwards", "70".to_string());
    m.push_header("From", d.from.clone());
    m.push_header("To", to);
    m.push_header("Call-ID", call_id.to_string());
    m.push_header("CSeq", "1 ACK".to_string());
    assert(m@.headers =~= ack_message(host@, d@, to@, call_id@, branch@).headers);
    m
}

fn unbridge(brew: &mut BrewState, leg: &BridgedLeg) -> (r: Vec<SipAction>)
    ensures
        final(brew)@ == unbridged(old(brew)@, leg@),
        sip_actions_view(r@) == farewell(old(brew)@, leg@),
{
    let ghost want = unbridged(old(brew)@, leg@);
    let mut actions = no_actions();
    match brew.calls.remove(&leg.brew_call_id) {
        Some(call) => {
            let mut targets = call.peers.dup();
            targets.insert(call.owner);
            targets.remove(&leg.virtual_client);
            let to = connected(&brew.clients, &targets);
            let state = if call.kind == CallKind::Group {
                CallState::GroupIdle
            } else {
                CallState::Release
            };
            push_action(
                &mut actions,
                SipAction::Brew(
                    Action::Send {
                        to,
                        frame: Frame::CallCause { state, call: leg.brew_call_id, cause: 0 },
                    },
                ),
            );
            assert(sip_actions_view(actions@) =~= farewell(old(brew)@, leg@));
        },
        None => {
            assert(brew@.calls =~= old(brew)@.calls);
        },
    }
    let _ = brew.clients.remove(&leg.virtual_client);
    match leg.group {
        Some(gssi) => {
            match brew.group_clients.remove(&gssi) {
                Some(mut members) => {
                    members.remove(&leg.virtual_client);
                    brew.group_clients.insert(gssi, members);
                },
                None => {},
            }
            let held = match brew.group_floor.get(&gssi) {
                Some(held) => *held == leg.brew_call_id,
                None => false,
            };
            if held {
                let _ = brew.group_floor.remove(&gssi);
            }
        },
        None => {},
    }
    assert(brew@.calls =~= want.calls);
    assert(brew@.group_clients =~= want.group_clients);
    assert(brew@.group_floor =~= want.group_floor);
    assert(brew@ =~= want);
    actions
}

impl BrewBridge {
    /// A bridge without calls.
    pub fn new(transport: SipTransport) -> (r: Self)
        ensures
            r@ == (BridgeView { transport: transport@, legs: Map::empty() }),
    {
        BrewBridge { transport, legs: Table::new() }
    }

    /// The G.711 payload type that a transcoder runs at.
    pub fn transcoder_payload_type(payloads: &[u8]) -> (r: u8)
        ensures
            r == transcoded(payloads@),
    {
        let mut i: usize = 0;
        assert(payloads@.skip(0) =~= payloads@);
        while i < payloads.len()
            invariant
                i <= payloads@.len(),
                transcoded(payloads@) == transcoded(payloads@.skip(i as int)),
            decreases payloads@.len() - i,
        {
            assert(payloads@.skip(i as int)[0] == payloads@[i as int]);
            assert(payloads@.skip(i as int).drop_first() =~= payloads@.skip(i + 1));
            let p = payloads[i];
            if p == 0 || p == 8 {
                return p;
            }
            i += 1;
        }
        0
    }

    /// Tears a bridged call down: takes its virtual client off the Brew side and tells the others in
    /// the call. Nothing happens where the call is not bridged.
    pub fn teardown(&mut self, brew: &mut BrewState, call_id: &str) -> (r: Vec<SipAction>)
        ensures
            (Both { bridge: final(self)@, brew: final(brew)@ }, sip_actions_view(r@)) == torn_down(
                (Both { bridge: old(self)@, brew: old(brew)@ }),
                call_id@,
            ),
    {
        let ghost x = Both { bridge: old(self)@, brew: old(brew)@ };
        let ghost want = torn_down(x, call_id@);
        let mut actions = no_actions();
        match self.legs.remove(&call_id.to_string()) {
            Some(leg) => {
                if leg.running {
                    push_action(
                        &mut actions,
                        SipAction::AbortTranscoder { call_id: call_id.to_string() },
                    );
                }
                let more = unbridge(brew, &leg);
                push_actions(&mut actions, more);
                push_action(
                    &mut actions,
                    SipAction::Brew(Action::CallEnded { id: leg.brew_call_id }),
                );
                assert(sip_actions_view(actions@) =~= want.1);
            },
            None => {
                assert(self@.legs =~= old(self)@.legs);
            },
        }
        actions
    }

    fn part(&self, call_id: &str, tok: &Tokens) -> (r: Vec<SipAction>)
        ensures
            sip_actions_view(r@) == parting(self@, call_id@, tok@),
    {
        let mut actions = no_actions();
        match self.legs.get(&call_id.to_string()) {
            Some(leg) => {
                match &leg.bye {
                    Some(d) => {
                        let bye = make_bye(
                            self.transport.advertised_host.as_str(),
                            d,
                            call_id,
                            tok.dialog_branch.as_str(),
                        );
                        push_action(&mut actions, SipAction::Send { message: bye, to: d.target_addr });
                    },
                    None => {},
                }
            },
            None => {},
        }
        assert(sip_actions_view(actions@) =~= parting(self@, call_id@, tok@));
        actions
    }

    /// Ends a bridged call from this side, with the given random values: a BYE to the SIP peer, then
    /// as `teardown`.
    pub fn force_end(&mut self, brew: &mut BrewState, call_id: &str, tok: &Tokens) -> (r: Vec<
        SipAction,
    >)
        ensures
            (Both { bridge: final(self)@, brew: final(brew)@ }, sip_actions_view(r@)) == forced(
                (Both { bridge: old(self)@, brew: old(brew)@ }),
                call_id@,
                tok@,
            ),
    {
        let mut actions = self.part(call_id, tok);
        let more = self.teardown(brew, call_id);
        push_actions(&mut actions, more);
        actions
    }

    fn find_bridged(&self, brew_call: u128) -> (r: Option<String>)
        ensures
            bridges(self@.legs, brew_call, opt_text(r)),
    {
        let n = self.legs.len();
        let mut i: usize = 0;
        while i < n
            invariant
                i <= n,
                n == self.legs.items().len(),
                lists(self.legs.items(), self.legs@),
                forall|j: int|
                    0 <= j < i ==> (#[trigger] self.legs.items()[j]).1.brew_call_id != brew_call,
            decreases n - i,
        {
            let leg = self.legs.value_at(i);
            if leg.brew_call_id == brew_call {
                assert(self.legs@.contains_key(self.legs.items()[i as int].0));
                return Some(self.legs.key_at(i).clone());
            }
            i += 1;
        }
        assert forall|k: Seq<char>| #[trigger] self@.legs.contains_key(k) implies self@.legs[k].brew_call_id
            != brew_call by {
            assert(has_key(self.legs.items(), k));
            let j = choose|j: int| 0 <= j < n && #[trigger] self.legs.items()[j].0 == k;
            assert(self.legs.items()[j].0 == k);
        }
        None
    }

    /// Ends the SIP leg of a Brew call that has ended, with the given random values. Nothing happens
    /// where the call is not bridged.
    pub fn teardown_by_brew_call(&mut self, brew: &mut BrewState, brew_call: u128, tok: &Tokens) -> (r:
        Vec<SipAction>)
        ensures
            exists|call_id: Option<Seq<char>>| #[trigger]
                bridges(old(self)@.legs, brew_call, call_id) && (
                    Both { bridge: final(self)@, brew: final(brew)@ },
                    sip_actions_view(r@),
                ) == brew_call_over(
                    (Both { bridge: old(self)@, brew: old(brew)@ }),
                    call_id,
                    tok@,
                ),
    {
        let found = self.find_bridged(brew_call);
        let ghost id = opt_text(found);
        assert(bridges(old(self)@.legs, brew_call, id));
        match found {
            Some(call_id) => {
                let actions = self.force_end(brew, call_id.as_str(), tok);
                self.transport.state.end_call(call_id.as_str());
                actions
            },
            None => no_actions(),
        }
    }
}

// ---- answers of the SIP peer ----

/// The bridged call once its transcoder was started at the codec of the answer; as it was where the
/// answer has no description or the transcoder was started before.
pub open spec fn media_started(leg: BridgedView, body: Seq<u8>) -> BridgedView {
    if sdp_of(body_text(body)) is Some && leg.pending is Some {
        BridgedView { running: true, pending: None, ..leg }
    } else {
        leg
    }
}

/// The start of the transcoder of a call that the SIP peer has answered.
pub open spec fn media_start(
    call_id: Seq<char>,
    leg: BridgedView,
    body: Seq<u8>,
    media: Option<SocketAddress>,
) -> Seq<SipActionView> {
    match (sdp_of(body_text(body)), leg.pending) {
        (Some(sdp), Some(pending)) => seq![
            SipActionView::StartTranscoder {
                call_id,
                leg: aimed(pending.leg, media),
                media: TranscodingView {
                    payload_type: transcoded(sdp.payload_types),
                    brew_call: leg.brew_call_id,
                    client: leg.virtual_client,
                    targets: pending.targets,
                },
            },
        ],
        _ => Seq::empty(),
    }
}

/// The bridged calls with one changed.
pub open spec fn leg_set(x: Both, call_id: Seq<char>, leg: BridgedView) -> Both {
    Both {
        bridge: BridgeView { legs: x.bridge.legs.insert(call_id, leg), ..x.bridge },
        ..x
    }
}

/// Whether a response to the call still matters: it was placed for a subscriber that is connected
/// and has not been told of an answer.
pub open spec fn awaited(x: Both, call_id: Seq<char>) -> bool {
    &&& x.bridge.legs.contains_key(call_id)
    &&& x.bridge.legs[call_id].subscriber matches Some(c) && x.brew.clients.contains_key(c)
    &&& !x.bridge.legs[call_id].connected
}

/// The ACK of an answer, where the dialog is known.
pub open spec fn acknowledgement(
    x: Both,
    call_id: Seq<char>,
    to_header: Option<Seq<char>>,
    peer: SocketAddress,
    tok: TokensView,
) -> Seq<SipActionView> {
    match x.bridge.legs[call_id].bye {
        Some(d) => {
            let to = match to_header {
                Some(t) => t,
                None => d.to,
            };
            seq![
                reply(
                    ack_message(
                        x.bridge.transport.advertised_host,
                        d,
                        to,
                        call_id,
                        tok.dialog_branch,
                    ),
                    peer,
                ),
            ]
        },
        None => Seq::empty(),
    }
}

/// What a response to an INVITE that was sent for the Brew side changes and causes.
pub open spec fn responded(
    x: Both,
    call_id: Seq<char>,
    code: u16,
    to_header: Option<Seq<char>>,
    peer: SocketAddress,
    body: Seq<u8>,
    media: Option<SocketAddress>,
    now: Now,
    tok: TokensView,
) -> (Both, Seq<SipActionView>) {
    if !awaited(x, call_id) {
        (x, Seq::empty())
    } else {
        let leg = x.bridge.legs[call_id];
        let subscriber = leg.subscriber->0;
        if code == 180 || code == 183 {
            if leg.rang {
                (x, Seq::empty())
            } else {
                (
                    leg_set(x, call_id, BridgedView { rang: true, ..leg }),
                    seq![
                        to_client(
                            x.brew,
                            subscriber,
                            FrameView::Control { state: CallState::Alert, call: leg.brew_call_id },
                        ),
                    ],
                )
            }
        } else if code == 200 {
            let told = to_client(
                x.brew,
                subscriber,
                FrameView::ConnectRequest {
                    call: leg.brew_call_id,
                    source: 0,
                    destination: leg.subscriber_issi,
                    priority: 0,
                },
            );
            let y = leg_set(
                x,
                call_id,
                media_started(BridgedView { connected: true, ..leg }, body),
            );
            (
                Both {
                    bridge: BridgeView {
                        transport: TransportView {
                            sip: call_answered(x.bridge.transport.sip, call_id, now.epoch_ms),
                            ..x.bridge.transport
                        },
                        ..y.bridge
                    },
                    ..y
                },
                seq![told] + media_start(call_id, leg, body, media) + acknowledgement(
                    x,
                    call_id,
                    to_header,
                    peer,
                    tok,
                ),
            )
        } else if code >= 400 {
            let told = to_client(
                x.brew,
                subscriber,
                FrameView::CallCause {
                    state: CallState::Release,
                    call: leg.brew_call_id,
                    cause: 0,
                },
            );
            let (y, more) = torn_down(x, call_id);
            (sip_ended(y, call_id), seq![told] + more)
        } else {
            (x, Seq::empty())
        }
    }
}

impl BrewBridge {
    /// Starts the transcoder of a call that the SIP peer has answered, at the codec of the answer.
    fn start_pending_media(
        &mut self,
        call_id: &str,
        body: &[u8],
        media: Option<SocketAddress>,
    ) -> (r: Vec<SipAction>)
        requires
            old(self)@.legs.contains_key(call_id@),
        ensures
            final(self)@ == (BridgeView {
                legs: old(self)@.legs.insert(
                    call_id@,
                    media_started(old(self)@.legs[call_id@], body@),
                ),
                ..old(self)@
            }),
            sip_actions_view(r@) == media_start(
                call_id@,
                old(self)@.legs[call_id@],
                body@,
                media,
            ),
    {
        let mut actions = no_actions();
        let ghost want = old(self)@.legs.insert(
            call_id@,
            media_started(old(self)@.legs[call_id@], body@),
        );
        let offer = match Sdp::parse(body) {
            Some(offer) => offer,
            None => {
                assert(self@.legs =~= want);
                return actions;
            },
        };
        let payload_type = BrewBridge::transcoder_payload_type(offer.payload_types.as_slice());
        let key = call_id.to_string();
        match self.legs.remove(&key) {
            Some(leg) => {
                let BridgedLeg {
                    virtual_client,
                    brew_call_id,
                    group,
                    running,
                    bye,
                    subscriber,
                    subscriber_issi,
                    rang,
                    connected,
                    pending,
                } = leg;
                let started = match pending {
                    Some(p) => {
                        let mut rtp = p.leg;
                        match media {
                            Some(addr) => {
                                rtp.set_remote(addr);
                            },
                            None => {},
                        }
                        push_action(
                            &mut actions,
                            SipAction::StartTranscoder {
                                call_id: call_id.to_string(),
                                leg: rtp,
                                media: Transcoding {
                                    payload_type,
                                    brew_call: brew_call_id,
                                    client: virtual_client,
                                    targets: p.targets,
                                },
                            },
                        );
                        true
                    },
                    None => running,
                };
                self.legs.insert(
                    key,
                    BridgedLeg {
                        virtual_client,
                        brew_call_id,
                        group,
                        running: started,
                        bye,
                        subscriber,
                        subscriber_issi,
                        rang,
                        connected,
                        pending: None,
                    },
                );
            },
            None => {},
        }
        assert(self@.legs =~= want);
        assert(sip_actions_view(actions@) =~= media_start(
            call_id@,
            old(self)@.legs[call_id@],
            body@,
            media,
        ));
        actions
    }

    /// Handles a response to an INVITE that was sent for the Brew side, with the given random
    /// values: the subscriber is told that the peer is ringing, has answered or has refused.
    /// `media` is the address of the media in the answer.
    pub fn on_sip_response(
        &mut self,
        brew: &mut BrewState,
        call_id: &str,
        code: u16,
        to_header: &Option<String>,
        peer: SocketAddress,
        body: &[u8],
        media: Option<SocketAddress>,
        now: Now,
        tok: &Tokens,
    ) -> (r: Vec<SipAction>)
        ensures
            (Both { bridge: final(self)@, brew: final(brew)@ }, sip_actions_view(r@)) == responded(
                (Both { bridge: old(self)@, brew: old(brew)@ }),
                call_id@,
                code,
                opt_text(*to_header),
                peer,
                body@,
                media,
                now,
                tok@,
            ),
    {
        let ghost x = Both { bridge: old(self)@, brew: old(brew)@ };
        let ghost want = responded(
            x,
            call_id@,
            code,
            opt_text(*to_header),
            peer,
            body@,
            media,
            now,
            tok@,
        );
        let mut actions = no_actions();
        let key = call_id.to_string();
        let (subscriber, issi, brew_call, rang, done) = match self.legs.get(&key) {
            Some(leg) => match leg.subscriber {
                Some(s) => (s, leg.subscriber_issi, leg.brew_call_id, leg.rang, leg.connected),
                None => {
                    return actions;
                },
            },
            None => {
                return actions;
            },
        };
        if done || !brew.clients.contains_key(&subscriber) {
            return actions;
        }
        if code == 180 || code == 183 {
            if !rang {
                match self.legs.remove(&key) {
                    Some(mut leg) => {
                        leg.rang = true;
                        self.legs.insert(key, leg);
                    },
                    None => {},
                }
                push_action(
                    &mut actions,
                    send_frame(
                        brew,
                        subscriber,
                        Frame::Control { state: CallState::Alert, call: brew_call },
                    ),
                );
                assert(self@.legs =~= want.0.bridge.legs);
                assert(sip_actions_view(actions@) =~= want.1);
            }
        } else if code == 200 {
            let ack = match self.legs.remove(&key) {
                Some(mut leg) => {
                    leg.connected = true;
                    let ack = match &leg.bye {
                        Some(d) => {
                            let to = match to_header {
                                Some(t) => t.clone(),
                                None => d.to.clone(),
                            };
                            Some(
                                make_ack(
                                    self.transport.advertised_host.as_str(),
                                    d,
                                    to,
                                    call_id,
                                    tok.dialog_branch.as_str(),
                                ),
                            )
                        },
                        None => None,
                    };
                    self.legs.insert(key, leg);
                    ack
                },
                None => None,
            };
            push_action(
                &mut actions,
                send_frame(
                    brew,
                    subscriber,
                    Frame::ConnectRequest { call: brew_call, source: 0, destination: issi, priority: 0 },
                ),
            );
            self.transport.state.answer_call(call_id, now.epoch_ms);
            let more = self.start_pending_media(call_id, body, media);
            push_actions(&mut actions, more);
            match ack {
                Some(message) => {
                    push_action(&mut actions, SipAction::Send { message, to: peer });
                },
                None => {},
            }
            assert(self@.legs =~= want.0.bridge.legs);
            assert(sip_actions_view(actions@) =~= want.1);
        } else if code >= 400 {
            push_action(
                &mut actions,
                send_frame(
                    brew,
                    subscriber,
                    Frame::CallCause { state: CallState::Release, call: brew_call, cause: 0 },
                ),
            );
            let more = self.teardown(brew, call_id);
            push_actions(&mut actions, more);
            self.transport.state.end_call(call_id);
            assert(sip_actions_view(actions@) =~= want.1);
        }
        actions
    }
}

} // verus!
