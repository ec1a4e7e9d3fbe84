//! What the messages of Brew clients do, told client by client: who gets what, which calls there
//! are afterwards, and who has the floor.
use crate::brew::{
    ActionView, BrewView, CallKind, CallState, CallView, Client, FrameKind, FrameView, MessageView,
    Now, PayloadView,
};
use crate::config::Config;
use crate::router::{message_handled, packet_handled};
use crate::sds::PositionView;
use crate::text::{decimal, trim};
use vstd::prelude::*;

verus! {

// ---- vocabulary ----

/// The connected clients that meet the test.
pub open spec fn clients_where(s: BrewView, test: spec_fn(u128) -> bool) -> Set<u128> {
    Set::new(|c: u128| s.clients.contains_key(c) && test(c))
}

/// Whether the client owns the call or is one of its peers.
pub open spec fn takes_part(call: CallView, c: u128) -> bool {
    c == call.owner || call.peers.contains(c)
}

/// Whether the index has the client in the group.
pub open spec fn indexed(s: BrewView, g: u32, c: u128) -> bool {
    s.group_clients.contains_key(g) && s.group_clients[g].contains(c)
}

/// Call control of a private call that does not end it.
pub open spec fn goes_on(state: CallState) -> bool {
    ||| state == CallState::SetupAccept
    ||| state == CallState::Alert
    ||| state == CallState::ConnectRequest
    ||| state == CallState::ConnectConfirm
    ||| state == CallState::SimplexGranted
    ||| state == CallState::SimplexIdle
}

/// Call control that ends a call.
pub open spec fn finishes(state: CallState) -> bool {
    ||| state == CallState::SetupReject
    ||| state == CallState::GroupIdle
    ||| state == CallState::Release
}

/// The packet that is being handled, to exactly these clients.
pub open spec fn forward(to: Set<u128>) -> ActionView {
    ActionView::Send { to, frame: FrameView::Verbatim }
}

/// Call control.
pub open spec fn control(state: CallState, id: u128, payload: PayloadView) -> MessageView {
    MessageView::CallControl { state, id, payload }
}

// ---- control of private calls ----

/// Control of a private call that goes on, whichever it is, reaches every connected participant but
/// the one that it came from, and nobody else; the call counts as active now, and nothing else
/// changes.
pub proof fn private_control_reaches_everyone_else(
    s: BrewView,
    config: Config,
    source: u128,
    id: u128,
    state: CallState,
    payload: PayloadView,
    position: Option<PositionView>,
    now: Now,
)
    requires
        s.calls.contains_key(id),
        s.calls[id].kind == CallKind::Private,
        goes_on(state),
    ensures
        ({
            let call = s.calls[id];
            let (t, actions) = message_handled(
                s,
                config,
                source,
                control(state, id, payload),
                position,
                now,
            );
            &&& actions == seq![
                forward(clients_where(s, |c: u128| c != source && takes_part(call, c))),
            ]
            &&& t.calls[id] == (CallView { last_activity_ms: now.epoch_ms, ..call })
            &&& t == (BrewView { calls: s.calls.insert(id, t.calls[id]), ..s })
        }),
{
    let call = s.calls[id];
    assert(s.connected(call.participants().remove(source)) =~= clients_where(
        s,
        |c: u128| c != source && takes_part(call, c),
    ));
}

/// Control of a private call does nothing where there is no such private call.
pub proof fn control_of_no_private_call_is_ignored(
    s: BrewView,
    config: Config,
    source: u128,
    id: u128,
    state: CallState,
    payload: PayloadView,
    position: Option<PositionView>,
    now: Now,
)
    requires
        !s.calls.contains_key(id) || s.calls[id].kind == CallKind::Group,
        goes_on(state),
    ensures
        message_handled(s, config, source, control(state, id, payload), position, now) == (
            s,
            Seq::<ActionView>::empty(),
        ),
{
}

// ---- ends of calls ----

/// Whoever may end a call ends it: it is gone, and only it; every other connected participant of a
/// private call, and every connected listener of a group call, is told with the same packet; the
/// floor of its group is free, and every other floor as it was.
pub proof fn end_reaches_everyone_else(
    s: BrewView,
    config: Config,
    source: u128,
    id: u128,
    state: CallState,
    payload: PayloadView,
    position: Option<PositionView>,
    now: Now,
)
    requires
        s.calls.contains_key(id),
        source == s.calls[id].owner || (s.calls[id].kind == CallKind::Private
            && s.calls[id].peers.contains(source)),
        finishes(state),
    ensures
        ({
            let call = s.calls[id];
            let (t, actions) = message_handled(
                s,
                config,
                source,
                control(state, id, payload),
                position,
                now,
            );
            let told = clients_where(
                s,
                |c: u128|
                    c != source && (call.peers.contains(c) || (call.kind == CallKind::Private && c
                        == call.owner)),
            );
            &&& actions == seq![
                forward(told),
                ActionView::CallEnded { id },
                ActionView::TeardownBridge { id },
            ]
            &&& t.calls == s.calls.remove(id)
            &&& forall|g: u32| #[trigger]
                t.group_floor.contains_key(g) <==> s.group_floor.contains_key(g) && !(call.kind
                    == CallKind::Group && g == call.destination && s.group_floor[g] == id)
            &&& forall|g: u32| #[trigger]
                t.group_floor.contains_key(g) ==> t.group_floor[g] == s.group_floor[g]
            &&& t == (BrewView { calls: t.calls, group_floor: t.group_floor, ..s })
        }),
{
    let call = s.calls[id];
    let told = clients_where(
        s,
        |c: u128|
            c != source && (call.peers.contains(c) || (call.kind == CallKind::Private && c
                == call.owner)),
    );
    assert(s.connected(crate::router::others(call, source)) =~= told);
}

/// Nobody else can end a call: an outsider cannot, nor a listener of a group call, and there is
/// nothing to end where there is no call.
pub proof fn nobody_else_ends_a_call(
    s: BrewView,
    config: Config,
    source: u128,
    id: u128,
    state: CallState,
    payload: PayloadView,
    position: Option<PositionView>,
    now: Now,
)
    requires
        finishes(state),
        s.calls.contains_key(id) ==> source != s.calls[id].owner && (s.calls[id].kind
            == CallKind::Group || !s.calls[id].peers.contains(source)),
    ensures
        message_handled(s, config, source, control(state, id, payload), position, now) == (
            s,
            Seq::<ActionView>::empty(),
        ),
{
}

// ---- frames ----

/// A voice or DTMF frame of the owner of a call, or of a peer of a private call, reaches every other
/// connected participant of a private call, and every connected listener of a group call, and nobody
/// else; the call counts as active now. A voice frame is noted, a DTMF frame is not.
pub proof fn frames_reach_everyone_else(
    s: BrewView,
    config: Config,
    source: u128,
    id: u128,
    frame: FrameKind,
    position: Option<PositionView>,
    now: Now,
)
    requires
        frame == FrameKind::Traffic || frame == FrameKind::Dtmf,
        s.calls.contains_key(id),
        source == s.calls[id].owner || (s.calls[id].kind == CallKind::Private
            && s.calls[id].peers.contains(source)),
    ensures
        ({
            let call = s.calls[id];
            let (t, actions) = message_handled(
                s,
                config,
                source,
                MessageView::Frame { frame, id },
                position,
                now,
            );
            let to = clients_where(
                s,
                |c: u128|
                    c != source && (call.peers.contains(c) || (call.kind == CallKind::Private && c
                        == call.owner)),
            );
            &&& frame == FrameKind::Traffic ==> actions == seq![
                ActionView::VoiceFrame { id },
                forward(to),
            ]
            &&& frame == FrameKind::Dtmf ==> actions == seq![forward(to)]
            &&& t.calls[id] == (CallView { last_activity_ms: now.epoch_ms, ..call })
            &&& t == (BrewView { calls: s.calls.insert(id, t.calls[id]), ..s })
        }),
{
    let call = s.calls[id];
    let to = clients_where(
        s,
        |c: u128|
            c != source && (call.peers.contains(c) || (call.kind == CallKind::Private && c
                == call.owner)),
    );
    assert(s.connected(crate::router::others(call, source)) =~= to);
}

/// A voice or DTMF frame reaches the same clients.
pub proof fn dtmf_goes_where_voice_goes(
    s: BrewView,
    config: Config,
    source: u128,
    id: u128,
    position: Option<PositionView>,
    now: Now,
)
    ensures
        ({
            let voice = message_handled(
                s,
                config,
                source,
                MessageView::Frame { frame: FrameKind::Traffic, id },
                position,
                now,
            );
            let dtmf = message_handled(
                s,
                config,
                source,
                MessageView::Frame { frame: FrameKind::Dtmf, id },
                position,
                now,
            );
            &&& voice.0 == dtmf.0
            &&& voice.1.len() > 0 ==> dtmf.1 == voice.1.drop_first() && dtmf.1.len() == 1
            &&& voice.1.len() == 0 ==> dtmf.1.len() == 0
        }),
{
    let voice = message_handled(
        s,
        config,
        source,
        MessageView::Frame { frame: FrameKind::Traffic, id },
        position,
        now,
    );
    let dtmf = message_handled(
        s,
        config,
        source,
        MessageView::Frame { frame: FrameKind::Dtmf, id },
        position,
        now,
    );
    if voice.1.len() > 0 {
        assert(dtmf.1 =~= voice.1.drop_first());
    }
}

/// Nobody else gets a frame into a call.
pub proof fn nobody_else_sends_a_frame(
    s: BrewView,
    config: Config,
    source: u128,
    id: u128,
    frame: FrameKind,
    position: Option<PositionView>,
    now: Now,
)
    requires
        frame == FrameKind::Traffic || frame == FrameKind::Dtmf,
        s.calls.contains_key(id) ==> source != s.calls[id].owner && (s.calls[id].kind
            == CallKind::Group || !s.calls[id].peers.contains(source)),
    ensures
        message_handled(s, config, source, MessageView::Frame { frame, id }, position, now) == (
            s,
            Seq::<ActionView>::empty(),
        ),
{
}

// ---- private set-up ----

/// The set-up of a private call reaches the client of the callee, and nobody else; the call is there
/// from then on, with the caller's client as its owner and the callee's as its only peer.
pub proof fn set_up_reaches_the_callee(
    s: BrewView,
    config: Config,
    source: u128,
    id: u128,
    issi: u32,
    destination: u32,
    payload: PayloadView,
    position: Option<PositionView>,
    now: Now,
)
    requires
        names_parties(payload, issi, destination),
        s.subscribers.contains_key(destination),
        s.subscribers[destination].client_id != source,
    ensures
        ({
            let callee = s.subscribers[destination].client_id;
            let (t, actions) = message_handled(
                s,
                config,
                source,
                control(CallState::SetupRequest, id, payload),
                position,
                now,
            );
            &&& actions == seq![
                forward(clients_where(s, |c: u128| c == callee)),
                ActionView::CallStarted {
                    id,
                    kind: CallKind::Private,
                    source: issi,
                    destination,
                    priority: 0,
                },
            ]
            &&& t.calls[id] == (CallView {
                kind: CallKind::Private,
                owner: source,
                source_issi: issi,
                destination,
                priority: 0,
                peers: set![callee],
                started_at: now.mono_ns,
                last_activity_ms: now.epoch_ms,
            })
            &&& t == (BrewView { calls: s.calls.insert(id, t.calls[id]), ..s })
        }),
{
    let callee = s.subscribers[destination].client_id;
    assert(s.connected(set![callee]) =~= clients_where(s, |c: u128| c == callee));
}

/// The payload names a caller and a callee.
pub open spec fn names_parties(payload: PayloadView, issi: u32, destination: u32) -> bool {
    match payload {
        PayloadView::CircularCall { source, destination: d, .. } => source == issi && d
            == destination,
        PayloadView::Raw { pair } => pair == Some((issi, destination)),
        _ => false,
    }
}

/// A set-up request whose callee is not registered is offered to the SIP side, under the digits that
/// came with it, or else under the callee's ISSI in decimal; nothing is sent and nothing changes.
pub proof fn unknown_callee_is_offered(
    s: BrewView,
    config: Config,
    source: u128,
    id: u128,
    issi: u32,
    destination: u32,
    payload: PayloadView,
    position: Option<PositionView>,
    now: Now,
)
    requires
        names_parties(payload, issi, destination),
        !s.subscribers.contains_key(destination),
    ensures
        ({
            let digits = match payload {
                PayloadView::CircularCall { number, .. } => trim(number),
                _ => Seq::empty(),
            };
            message_handled(
                s,
                config,
                source,
                control(CallState::SetupRequest, id, payload),
                position,
                now,
            ) == (
                s,
                seq![
                    ActionView::OfferToSip {
                        id,
                        client: source,
                        source: issi,
                        destination,
                        dialled: if digits.len() > 0 {
                            digits
                        } else {
                            decimal(destination as nat)
                        },
                    },
                ],
            )
        }),
{
    assert(trim(Seq::<char>::empty()).len() == 0);
}

/// A client that calls a subscriber of its own, or names no callee, starts nothing.
pub proof fn set_up_without_another_party_is_ignored(
    s: BrewView,
    config: Config,
    source: u128,
    id: u128,
    payload: PayloadView,
    position: Option<PositionView>,
    now: Now,
)
    requires
        forall|issi: u32, destination: u32| #[trigger]
            names_parties(payload, issi, destination) ==> s.subscribers.contains_key(destination)
                && s.subscribers[destination].client_id == source,
    ensures
        message_handled(
            s,
            config,
            source,
            control(CallState::SetupRequest, id, payload),
            position,
            now,
        ) == (s, Seq::<ActionView>::empty()),
{
    match payload {
        PayloadView::CircularCall { source: a, destination: d, .. } => {
            assert(names_parties(payload, a, d));
        },
        PayloadView::Raw { pair } => {
            if let Some(p) = pair {
                assert(names_parties(payload, p.0, p.1));
            }
        },
        _ => {},
    }
}

/// A private call from its set-up to its end: whatever control, voice or DTMF one party sends goes to
/// the other and to nobody else, and either party's release or refusal goes to the other and ends the
/// call.
pub proof fn private_call_connects_its_parties(
    s: BrewView,
    config: Config,
    caller: u128,
    callee: u128,
    id: u128,
    issi: u32,
    destination: u32,
    setup: PayloadView,
    from_caller: bool,
    message: MessageView,
    now: Now,
    later: Now,
)
    requires
        caller != callee,
        s.clients.contains_key(caller),
        s.clients.contains_key(callee),
        names_parties(setup, issi, destination),
        s.subscribers.contains_key(destination),
        s.subscribers[destination].client_id == callee,
        match message {
            MessageView::CallControl { state, id: i, .. } => i == id && (goes_on(state) || finishes(
                state,
            )),
            MessageView::Frame { frame, id: i } => i == id && (frame == FrameKind::Traffic || frame
                == FrameKind::Dtmf),
            _ => false,
        },
    ensures
        ({
            let t = message_handled(
                s,
                config,
                caller,
                control(CallState::SetupRequest, id, setup),
                None,
                now,
            ).0;
            let (from, to) = if from_caller {
                (caller, callee)
            } else {
                (callee, caller)
            };
            let (u, actions) = message_handled(t, config, from, message, None, later);
            &&& actions.contains(forward(set![to]))
            &&& forall|i: int|
                0 <= i < actions.len() ==> ((#[trigger] actions[i]) is Send ==> actions[i] == forward(
                    set![to],
                ))
            &&& u.calls.contains_key(id) <==> !(message is CallControl && finishes(
                message->CallControl_state,
            ))
        }),
{
    set_up_reaches_the_callee(s, config, caller, id, issi, destination, setup, None, now);
    let t = message_handled(
        s,
        config,
        caller,
        control(CallState::SetupRequest, id, setup),
        None,
        now,
    ).0;
    let (from, to) = if from_caller {
        (caller, callee)
    } else {
        (callee, caller)
    };
    let call = t.calls[id];
    assert(t.clients == s.clients);
    match message {
        MessageView::CallControl { state, id: i, payload } => {
            if goes_on(state) {
                private_control_reaches_everyone_else(
                    t,
                    config,
                    from,
                    id,
                    state,
                    payload,
                    None,
                    later,
                );
                assert(clients_where(t, |c: u128| c != from && takes_part(call, c)) =~= set![to]);
            } else {
                end_reaches_everyone_else(t, config, from, id, state, payload, None, later);
                assert(clients_where(
                    t,
                    |c: u128|
                        c != from && (call.peers.contains(c) || (call.kind == CallKind::Private && c
                            == call.owner)),
                ) =~= set![to]);
            }
        },
        MessageView::Frame { frame, id: i } => {
            frames_reach_everyone_else(t, config, from, id, frame, None, later);
            assert(clients_where(
                t,
                |c: u128|
                    c != from && (call.peers.contains(c) || (call.kind == CallKind::Private && c
                        == call.owner)),
            ) =~= set![to]);
        },
        _ => {},
    }
    let (u, actions) = message_handled(t, config, from, message, None, later);
    if message is Frame && message->frame == FrameKind::Traffic {
        assert(actions[1] == forward(set![to]));
    } else {
        assert(actions[0] == forward(set![to]));
    }
}

// ---- other messages ----

/// A signal report is handed on as it is; no other service message, no error, and no message of a
/// type that the server does not know does anything.
pub proof fn other_messages_are_ignored(
    s: BrewView,
    config: Config,
    source: u128,
    message: MessageView,
    position: Option<PositionView>,
    now: Now,
)
    requires
        match message {
            MessageView::CallControl { state, .. } => state is Other,
            MessageView::Frame { frame, .. } => frame is Other,
            MessageView::Subscriber { kind, .. } => kind is Other,
            _ => true,
        },
    ensures
        message_handled(s, config, source, message, position, now) == (
            s,
            match message {
                MessageView::Service { rssi: true, json } => seq![ActionView::Rssi { json }],
                _ => Seq::empty(),
            },
        ),
{
}

/// A packet forgets the SDS routes that are past their time and raises the protocol version of its
/// connection to what it shows, never lowers it, and then does what its message does; one that cannot
/// be parsed does no more than forget.
pub proof fn packet_does_what_its_message_does(
    s: BrewView,
    config: Config,
    source: u128,
    parsed: Option<(MessageView, u8)>,
    position: Option<PositionView>,
    ttl_ns: u128,
    now: Now,
)
    ensures
        ({
            let (t, actions) = packet_handled(
                s,
                config,
                source,
                parsed,
                position,
                ttl_ns,
                now,
            );
            let kept = Map::new(
                |k: u128|
                    s.sds_routes.contains_key(k) && (if now.mono_ns >= s.sds_routes[k].created_at {
                        now.mono_ns - s.sds_routes[k].created_at
                    } else {
                        0
                    }) < ttl_ns,
                |k: u128| s.sds_routes[k],
            );
            match parsed {
                None => t == (BrewView { sds_routes: kept, ..s }) && actions.len() == 0,
                Some((message, shown)) => {
                    let clients = Map::new(
                        |c: u128| s.clients.contains_key(c),
                        |c: u128|
                            Client {
                                version: if c == source && shown > s.clients[c].version {
                                    shown
                                } else {
                                    s.clients[c].version
                                },
                                ..s.clients[c]
                            },
                    );
                    (t, actions) == message_handled(
                        (BrewView { sds_routes: kept, clients, ..s }),
                        config,
                        source,
                        message,
                        position,
                        now,
                    )
                },
            }
        }),
{
    let kept = Map::new(
        |k: u128|
            s.sds_routes.contains_key(k) && (if now.mono_ns >= s.sds_routes[k].created_at {
                now.mono_ns - s.sds_routes[k].created_at
            } else {
                0
            }) < ttl_ns,
        |k: u128| s.sds_routes[k],
    );
    let p = crate::sds::routes_purged(s, ttl_ns, now);
    assert(p.sds_routes =~= kept);
    if let Some((message, shown)) = parsed {
        let clients = Map::new(
            |c: u128| s.clients.contains_key(c),
            |c: u128|
                Client {
                    version: if c == source && shown > s.clients[c].version {
                        shown
                    } else {
                        s.clients[c].version
                    },
                    ..s.clients[c]
                },
        );
        assert(crate::router::promoted(p, source, shown).clients =~= clients);
    }
}

} // verus!
