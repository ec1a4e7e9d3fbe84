//! Brew routing: what each message from a client changes, and what is to be done about it.
use crate::brew::{
    actions_view, client_ids, connected, Action, ActionView, ActiveCall, BrewMessage, BrewState,
    BrewView, CallKind, CallPayload, CallState, CallView, Client, Frame, FrameKind, FrameView,
    LatLon, MessageView, Now, PayloadView,
};
use crate::config::Config;
use crate::sds::{
    extract_sds_position, first_decoded, handle_sds_header, handle_sds_report, handle_sds_transfer,
    opt_position, purge_ephemeral, routes_purged, sds_header, sds_report, sds_transfer, Position,
    PositionView,
};
use crate::subscribers::{handle_subscriber, subscribed, subscriber_actions};
use crate::table::KeySet;
use crate::text::{decimal, decimal_string, trim, trimmed};
use vstd::string::*;
use vstd::prelude::*;

verus! {

// ---- group calls ----

/// Whether a transmission of priority `new` takes the floor from one of priority `active`.
pub open spec fn wins(config: Config, new: u8, active: u8) -> bool {
    if config.higher_priority_number_wins {
        new > active
    } else {
        new < active
    }
}

/// The call that a transmission `id` to the group has to win the floor from.
pub open spec fn occupant(s: BrewView, config: Config, gssi: u32, id: u128) -> Option<u128> {
    if !config.allow_multiple_calls_per_group && s.group_floor.contains_key(gssi)
        && s.group_floor[gssi] != id && s.calls.contains_key(s.group_floor[gssi]) {
        Some(s.group_floor[gssi])
    } else {
        None
    }
}

/// Who a transmission to the group goes to: the clients with an affiliated subscriber, or every
/// client where the configuration says so, but never its source.
pub open spec fn group_targets(s: BrewView, config: Config, source: u128, gssi: u32) -> Set<u128> {
    let affiliated = s.affiliated(gssi);
    let all = config.route_without_affiliations || (affiliated =~= Set::<u128>::empty()
        && config.fallback_broadcast_when_no_affiliations);
    (if all {
        s.clients.dom()
    } else {
        affiliated
    }).remove(source)
}

/// What a group transmission changes and causes.
pub open spec fn group_tx(
    s: BrewView,
    config: Config,
    source: u128,
    id: u128,
    payload: PayloadView,
    now: Now,
) -> (BrewView, Seq<ActionView>) {
    match payload {
        PayloadView::GroupTransmission { source: issi, destination, priority } => {
            let held = occupant(s, config, destination, id);
            if held is Some && !wins(config, priority, s.calls[held->0].priority) {
                (s, Seq::empty())
            } else {
                let targets = group_targets(s, config, source, destination);
                let call = CallView {
                    kind: CallKind::Group,
                    owner: source,
                    source_issi: issi,
                    destination,
                    priority,
                    peers: targets,
                    started_at: now.mono_ns,
                    last_activity_ms: now.epoch_ms,
                };
                let calls = match held {
                    Some(o) => s.calls.remove(o),
                    None => s.calls,
                };
                let s2 = BrewView {
                    calls: calls.insert(id, call),
                    group_floor: s.group_floor.insert(destination, id),
                    ..s
                };
                let forward = ActionView::Send {
                    to: s.connected(targets),
                    frame: FrameView::Verbatim,
                };
                let started = ActionView::CallStarted {
                    id,
                    kind: CallKind::Group,
                    source: issi,
                    destination,
                    priority,
                };
                let actions = match held {
                    Some(o) => seq![
                        ActionView::Send {
                            to: s.connected(s.calls[o].participants()),
                            frame: FrameView::CallCause {
                                state: CallState::GroupIdle,
                                call: o,
                                cause: config.preempt_cause,
                            },
                        },
                        forward,
                        ActionView::CallEnded { id: o },
                        ActionView::TeardownBridge { id: o },
                        started,
                    ],
                    None => seq![forward, started],
                };
                (s2, actions)
            }
        },
        _ => (s, Seq::empty()),
    }
}

fn find_targets(state: &BrewState, config: &Config, source: u128, gssi: u32) -> (r: KeySet<u128>)
    ensures
        r@ == group_targets(state@, *config, source, gssi),
{
    let mut targets = if config.route_without_affiliations {
        client_ids(&state.clients)
    } else {
        match state.group_clients.get(&gssi) {
            Some(t) => t.dup(),
            None => KeySet::new(),
        }
    };
    if targets.is_empty() && !config.route_without_affiliations
        && config.fallback_broadcast_when_no_affiliations {
        targets = client_ids(&state.clients);
    }
    targets.remove(&source);
    targets
}

fn find_occupant(state: &BrewState, config: &Config, gssi: u32, id: u128) -> (r: Option<u128>)
    ensures
        r == occupant(state@, *config, gssi, id),
{
    if config.allow_multiple_calls_per_group {
        return None;
    }
    match state.group_floor.get(&gssi) {
        Some(held) => {
            if *held != id && state.calls.contains_key(held) {
                Some(*held)
            } else {
                None
            }
        },
        None => None,
    }
}

/// Handles a group transmission: takes the floor, if need be from a call of lower priority, and
/// forwards the transmission.
pub fn handle_group_tx(
    state: &mut BrewState,
    config: &Config,
    source: u128,
    id: u128,
    payload: &CallPayload,
    now: Now,
) -> (r: Vec<Action>)
    ensures
        (final(state)@, actions_view(r@)) == group_tx(
            old(state)@,
            *config,
            source,
            id,
            payload@,
            now,
        ),
{
    let mut actions: Vec<Action> = Vec::new();
    match payload {
        CallPayload::GroupTransmission { source: issi, destination, priority } => {
            let held = find_occupant(state, config, *destination, id);
            match held {
                Some(o) => {
                    let active = match state.calls.get(&o) {
                        Some(c) => c.priority,
                        None => 0u8,
                    };
                    let taken = if config.higher_priority_number_wins {
                        *priority > active
                    } else {
                        *priority < active
                    };
                    if !taken {
                        assert(actions_view(actions@) =~= Seq::<ActionView>::empty());
                        return actions;
                    }
                },
                None => {},
            }
            let targets = find_targets(state, config, source, *destination);
            let reached = connected(&state.clients, &targets);
            match held {
                Some(o) => {
                    let notify = match state.calls.get(&o) {
                        Some(c) => {
                            let mut all = c.peers.dup();
                            all.insert(c.owner);
                            connected(&state.clients, &all)
                        },
                        None => KeySet::new(),
                    };
                    actions.push(
                        Action::Send {
                            to: notify,
                            frame: Frame::CallCause {
                                state: CallState::GroupIdle,
                                call: o,
                                cause: config.preempt_cause,
                            },
                        },
                    );
                    let _ = state.calls.remove(&o);
                },
                None => {},
            }
            state.group_floor.insert(*destination, id);
            state.calls.insert(
                id,
                ActiveCall {
                    kind: CallKind::Group,
                    owner: source,
                    source_issi: *issi,
                    destination: *destination,
                    priority: *priority,
                    peers: targets,
                    started_at: now.mono_ns,
                    last_activity_ms: now.epoch_ms,
                },
            );
            actions.push(Action::Send { to: reached, frame: Frame::Verbatim });
            match held {
                Some(o) => {
                    actions.push(Action::CallEnded { id: o });
                    actions.push(Action::TeardownBridge { id: o });
                },
                None => {},
            }
            actions.push(
                Action::CallStarted {
                    id,
                    kind: CallKind::Group,
                    source: *issi,
                    destination: *destination,
                    priority: *priority,
                },
            );
            proof {
                let want = group_tx(old(state)@, *config, source, id, payload@, now);
                assert(state@ =~= want.0);
                assert(actions_view(actions@) =~= want.1);
            }
        },
        _ => {
            assert(actions_view(actions@) =~= Seq::<ActionView>::empty());
        },
    }
    actions
}

// ---- private calls ----

/// The dialled string of a private call: the digits that were sent along, or else the ISSI.
pub open spec fn dialled(number: Seq<char>, destination: u32) -> Seq<char> {
    if trim(number).len() == 0 {
        decimal(destination as nat)
    } else {
        trim(number)
    }
}

/// The caller, the callee and the digits of a set-up request.
pub open spec fn setup_parties(payload: PayloadView) -> Option<(u32, u32, Seq<char>)> {
    match payload {
        PayloadView::CircularCall { source, destination, number } => Some(
            (source, destination, number),
        ),
        PayloadView::GroupTransmission { .. } => None,
        PayloadView::ShortTransfer { .. } => None,
        PayloadView::Raw { pair } => match pair {
            Some(p) => Some((p.0, p.1, Seq::empty())),
            None => None,
        },
    }
}

/// What a private set-up request changes and causes.
pub open spec fn private_setup(
    s: BrewView,
    source: u128,
    id: u128,
    payload: PayloadView,
    now: Now,
) -> (BrewView, Seq<ActionView>) {
    match setup_parties(payload) {
        None => (s, Seq::empty()),
        Some((issi, destination, number)) => {
            if !s.subscribers.contains_key(destination) {
                let offer = ActionView::OfferToSip {
                    id,
                    client: source,
                    source: issi,
                    destination,
                    dialled: dialled(number, destination),
                };
                (s, seq![offer])
            } else if s.subscribers[destination].client_id == source {
                (s, Seq::empty())
            } else {
                let target = s.subscribers[destination].client_id;
                let call = CallView {
                    kind: CallKind::Private,
                    owner: source,
                    source_issi: issi,
                    destination,
                    priority: 0,
                    peers: set![target],
                    started_at: now.mono_ns,
                    last_activity_ms: now.epoch_ms,
                };
                (
                    BrewView { calls: s.calls.insert(id, call), ..s },
                    seq![
                        ActionView::Send {
                            to: s.connected(set![target]),
                            frame: FrameView::Verbatim,
                        },
                        private_started(id, issi, destination),
                    ],
                )
            }
        },
    }
}

/// The monitor's note that a private call has started.
pub open spec fn private_started(id: u128, source: u32, destination: u32) -> ActionView {
    ActionView::CallStarted { id, kind: CallKind::Private, source, destination, priority: 0 }
}

/// Handles a private set-up request: to the client of a registered callee, or else to the SIP side.
pub fn handle_private_setup(
    state: &mut BrewState,
    source: u128,
    id: u128,
    payload: &CallPayload,
    now: Now,
) -> (r: Vec<Action>)
    ensures
        (final(state)@, actions_view(r@)) == private_setup(
            old(state)@,
            source,
            id,
            payload@,
            now,
        ),
{
    let mut actions: Vec<Action> = Vec::new();
    let ghost want = private_setup(old(state)@, source, id, payload@, now);
    let (issi, destination, number): (u32, u32, String) = match payload {
        CallPayload::CircularCall { source, destination, number } => {
            (*source, *destination, number.clone())
        },
        CallPayload::Raw { pair: Some(p) } => (p.0, p.1, String::new()),
        _ => {
            assert(actions_view(actions@) =~= want.1);
            return actions;
        },
    };
    assert(setup_parties(payload@) == Some((issi, destination, number@)));
    let target = match state.subscribers.get(&destination) {
        Some(sub) => sub.client_id,
        None => {
            let digits = trimmed(number.as_str());
            let text = if digits.as_str().unicode_len() == 0 {
                decimal_string(destination as u64)
            } else {
                digits
            };
            actions.push(
                Action::OfferToSip { id, client: source, source: issi, destination, dialled: text },
            );
            assert(actions_view(actions@) =~= want.1);
            return actions;
        },
    };
    if target == source {
        assert(actions_view(actions@) =~= want.1);
        return actions;
    }
    let mut peers: KeySet<u128> = KeySet::new();
    peers.insert(target);
    let reached = connected(&state.clients, &peers);
    assert(peers@ =~= set![target]);
    state.calls.insert(
        id,
        ActiveCall {
            kind: CallKind::Private,
            owner: source,
            source_issi: issi,
            destination,
            priority: 0,
            peers,
            started_at: now.mono_ns,
            last_activity_ms: now.epoch_ms,
        },
    );
    actions.push(Action::Send { to: reached, frame: Frame::Verbatim });
    actions.push(
        Action::CallStarted { id, kind: CallKind::Private, source: issi, destination, priority: 0 },
    );
    assert(state@ =~= want.0);
    assert(actions_view(actions@) =~= want.1);
    actions
}

/// What follows once a private call was offered to the SIP side: it has started if it was taken.
pub fn private_setup_offered(id: u128, source: u32, destination: u32, bridged: bool) -> (r: Vec<
    Action,
>)
    ensures
        actions_view(r@) == (if bridged {
            seq![private_started(id, source, destination)]
        } else {
            Seq::empty()
        }),
{
    let mut actions: Vec<Action> = Vec::new();
    if bridged {
        actions.push(
            Action::CallStarted { id, kind: CallKind::Private, source, destination, priority: 0 },
        );
        assert(actions_view(actions@) =~= seq![private_started(id, source, destination)]);
    } else {
        assert(actions_view(actions@) =~= Seq::<ActionView>::empty());
    }
    actions
}

/// Whether a client may end a call: the owner always, and a peer unless it is a group call.
pub open spec fn may_end(call: CallView, source: u128) -> bool {
    call.owner == source || (call.kind == CallKind::Private && call.peers.contains(source))
}

/// Who is told of what `source` does in a call: the peers, and the owner of a private call, but
/// never `source` itself.
pub open spec fn others(call: CallView, source: u128) -> Set<u128> {
    (if call.kind == CallKind::Private {
        call.participants()
    } else {
        call.peers
    }).remove(source)
}

/// What the end of a call changes and causes.
pub open spec fn ended(s: BrewView, source: u128, id: u128, frame: FrameView) -> (
    BrewView,
    Seq<ActionView>,
) {
    if s.calls.contains_key(id) && may_end(s.calls[id], source) {
        let call = s.calls[id];
        let floor = if call.kind == CallKind::Group && s.group_floor.contains_key(call.destination)
            && s.group_floor[call.destination] == id {
            s.group_floor.remove(call.destination)
        } else {
            s.group_floor
        };
        (
            BrewView { calls: s.calls.remove(id), group_floor: floor, ..s },
            seq![
                ActionView::Send { to: s.connected(others(call, source)), frame },
                ActionView::CallEnded { id },
                ActionView::TeardownBridge { id },
            ],
        )
    } else {
        (s, Seq::empty())
    }
}

fn find_others(call: &ActiveCall, source: u128) -> (r: KeySet<u128>)
    ensures
        r@ == others(call@, source),
{
    let mut recipients = call.peers.dup();
    if call.kind == CallKind::Private {
        recipients.insert(call.owner);
    }
    recipients.remove(&source);
    recipients
}

/// Ends a call that `source` may end, and tells the others with `frame`.
pub fn end_call(state: &mut BrewState, source: u128, id: u128, frame: Frame) -> (r: Vec<Action>)
    ensures
        (final(state)@, actions_view(r@)) == ended(old(state)@, source, id, frame@),
{
    let mut actions: Vec<Action> = Vec::new();
    let ghost want = ended(old(state)@, source, id, frame@);
    match state.calls.remove(&id) {
        None => {
            assert(state@ =~= want.0);
            assert(actions_view(actions@) =~= want.1);
        },
        Some(call) => {
            let participant = call.owner == source || call.peers.contains(&source);
            if !participant || (call.kind == CallKind::Group && call.owner != source) {
                state.calls.insert(id, call);
                assert(state@ =~= want.0);
                assert(actions_view(actions@) =~= want.1);
                return actions;
            }
            if call.kind == CallKind::Group {
                let held = match state.group_floor.get(&call.destination) {
                    Some(held) => *held == id,
                    None => false,
                };
                if held {
                    let _ = state.group_floor.remove(&call.destination);
                }
            }
            let recipients = find_others(&call, source);
            let reached = connected(&state.clients, &recipients);
            actions.push(Action::Send { to: reached, frame });
            actions.push(Action::CallEnded { id });
            actions.push(Action::TeardownBridge { id });
            assert(state@ =~= want.0);
            assert(actions_view(actions@) =~= want.1);
        },
    }
    actions
}

/// What control of a private call changes and causes. A refused set-up is the end of the call.
pub open spec fn private_control(
    s: BrewView,
    source: u128,
    id: u128,
    state: CallState,
    now: Now,
) -> (BrewView, Seq<ActionView>) {
    if state == CallState::SetupReject {
        ended(s, source, id, FrameView::Verbatim)
    } else if s.calls.contains_key(id) && s.calls[id].kind == CallKind::Private {
        (
            BrewView { calls: s.calls.insert(id, s.calls[id].touched(now)), ..s },
            seq![
                ActionView::Send {
                    to: s.connected(s.calls[id].participants().remove(source)),
                    frame: FrameView::Verbatim,
                },
            ],
        )
    } else {
        (s, Seq::empty())
    }
}

/// Forwards control of a private call to the others in it.
pub fn route_private_control(
    state: &mut BrewState,
    source: u128,
    id: u128,
    control: CallState,
    now: Now,
) -> (r: Vec<Action>)
    ensures
        (final(state)@, actions_view(r@)) == private_control(
            old(state)@,
            source,
            id,
            control,
            now,
        ),
{
    if control == CallState::SetupReject {
        return end_call(state, source, id, Frame::Verbatim);
    }
    let mut actions: Vec<Action> = Vec::new();
    let ghost want = private_control(old(state)@, source, id, control, now);
    match state.calls.remove(&id) {
        None => {
            assert(state@ =~= want.0);
            assert(actions_view(actions@) =~= want.1);
        },
        Some(mut call) => {
            if call.kind == CallKind::Private {
                call.touch(now);
                let recipients = find_others(&call, source);
                let reached = connected(&state.clients, &recipients);
                actions.push(Action::Send { to: reached, frame: Frame::Verbatim });
            }
            state.calls.insert(id, call);
            assert(state@ =~= want.0);
            assert(actions_view(actions@) =~= want.1);
        },
    }
    actions
}

// ---- frames ----

/// Whether a client may send a frame into a call: the owner, and in a private call the peers.
pub open spec fn may_inject(call: CallView, source: u128) -> bool {
    if call.kind == CallKind::Group {
        call.owner == source
    } else {
        call.owner == source || call.peers.contains(source)
    }
}

/// What a frame in a call changes and causes.
pub open spec fn call_frame(s: BrewView, source: u128, id: u128, voice: bool, now: Now) -> (
    BrewView,
    Seq<ActionView>,
) {
    if s.calls.contains_key(id) && may_inject(s.calls[id], source) {
        let forward = ActionView::Send {
            to: s.connected(others(s.calls[id], source)),
            frame: FrameView::Verbatim,
        };
        (
            BrewView { calls: s.calls.insert(id, s.calls[id].touched(now)), ..s },
            if voice {
                seq![ActionView::VoiceFrame { id }, forward]
            } else {
                seq![forward]
            },
        )
    } else {
        (s, Seq::empty())
    }
}

/// Who a frame of `source` in a call goes to, if it may send one; the call is then active.
pub fn call_frame_recipients(state: &mut BrewState, source: u128, id: u128, now: Now) -> (r: Option<
    KeySet<u128>,
>)
    ensures
        match r {
            Some(to) => {
                &&& old(state)@.calls.contains_key(id)
                &&& may_inject(old(state)@.calls[id], source)
                &&& to@ == old(state)@.connected(others(old(state)@.calls[id], source))
                &&& final(state)@ == (BrewView {
                    calls: old(state)@.calls.insert(id, old(state)@.calls[id].touched(now)),
                    ..old(state)@
                })
            },
            None => {
                &&& !(old(state)@.calls.contains_key(id) && may_inject(
                    old(state)@.calls[id],
                    source,
                ))
                &&& final(state)@ == old(state)@
            },
        },
{
    match state.calls.remove(&id) {
        None => {
            assert(state@ =~= old(state)@);
            None
        },
        Some(mut call) => {
            let allowed = if call.kind == CallKind::Group {
                call.owner == source
            } else {
                call.owner == source || call.peers.contains(&source)
            };
            if !allowed {
                state.calls.insert(id, call);
                assert(state@ =~= old(state)@);
                return None;
            }
            call.touch(now);
            let recipients = find_others(&call, source);
            let reached = connected(&state.clients, &recipients);
            state.calls.insert(id, call);
            assert(state@.calls =~= old(state)@.calls.insert(id, old(state)@.calls[id].touched(now)));
            Some(reached)
        },
    }
}

/// Forwards a voice frame.
pub fn route_call_frame(state: &mut BrewState, source: u128, id: u128, now: Now) -> (r: Vec<Action>)
    ensures
        (final(state)@, actions_view(r@)) == call_frame(old(state)@, source, id, true, now),
{
    let mut actions: Vec<Action> = Vec::new();
    let ghost want = call_frame(old(state)@, source, id, true, now);
    match call_frame_recipients(state, source, id, now) {
        Some(to) => {
            actions.push(Action::VoiceFrame { id });
            actions.push(Action::Send { to, frame: Frame::Verbatim });
        },
        None => {},
    }
    assert(actions_view(actions@) =~= want.1);
    actions
}

/// Forwards a DTMF frame.
pub fn route_dtmf_frame(state: &mut BrewState, source: u128, id: u128, now: Now) -> (r: Vec<Action>)
    ensures
        (final(state)@, actions_view(r@)) == call_frame(old(state)@, source, id, false, now),
{
    let mut actions: Vec<Action> = Vec::new();
    let ghost want = call_frame(old(state)@, source, id, false, now);
    match call_frame_recipients(state, source, id, now) {
        Some(to) => {
            actions.push(Action::Send { to, frame: Frame::Verbatim });
        },
        None => {},
    }
    assert(actions_view(actions@) =~= want.1);
    actions
}

// ---- packets ----

/// The state once a message has shown that the client speaks at least this protocol version.
pub open spec fn promoted(s: BrewView, source: u128, detected: u8) -> BrewView {
    if s.clients.contains_key(source) && detected > s.clients[source].version {
        BrewView {
            clients: s.clients.insert(source, Client { version: detected, ..s.clients[source] }),
            ..s
        }
    } else {
        s
    }
}

/// Raises the protocol version of a connection to what a message has shown; whether it was raised.
pub fn promote_client_version(state: &mut BrewState, source: u128, detected: u8) -> (r: bool)
    ensures
        final(state)@ == promoted(old(state)@, source, detected),
        r == (old(state)@.clients.contains_key(source) && detected
            > old(state)@.clients[source].version),
{
    let client = match state.clients.get(&source) {
        Some(c) => *c,
        None => {
            return false;
        },
    };
    if detected > client.version {
        state.clients.insert(source, Client { version: detected, ..client });
        true
    } else {
        false
    }
}

/// Whether the state is one of the control of a private call.
pub open spec fn is_private_control(state: CallState) -> bool {
    match state {
        CallState::SetupAccept
        | CallState::SetupReject
        | CallState::Alert
        | CallState::ConnectRequest
        | CallState::ConnectConfirm
        | CallState::SimplexGranted
        | CallState::SimplexIdle => true,
        _ => false,
    }
}

/// What a message changes and causes.
pub open spec fn message_handled(
    s: BrewView,
    config: Config,
    source: u128,
    message: MessageView,
    position: Option<PositionView>,
    now: Now,
) -> (BrewView, Seq<ActionView>) {
    match message {
        MessageView::Subscriber { kind, issi, groups } => (
            subscribed(s, source, kind, issi, groups.to_set()),
            subscriber_actions(s, source, kind, issi, groups),
        ),
        MessageView::CallControl { state, id, payload } => {
            if state == CallState::GroupTx {
                group_tx(s, config, source, id, payload, now)
            } else if state == CallState::ShortTransfer {
                sds_header(s, source, id, payload, position, now)
            } else if state == CallState::SetupRequest {
                private_setup(s, source, id, payload, now)
            } else if is_private_control(state) {
                private_control(s, source, id, state, now)
            } else if state == CallState::GroupIdle || state == CallState::Release {
                ended(s, source, id, FrameView::Verbatim)
            } else {
                (s, Seq::empty())
            }
        },
        MessageView::Frame { frame, id } => match frame {
            FrameKind::SdsTransfer => (s, sds_transfer(s, source, id, position)),
            FrameKind::SdsReport => sds_report(s, source, id),
            FrameKind::Traffic => call_frame(s, source, id, true, now),
            FrameKind::Dtmf => call_frame(s, source, id, false, now),
            FrameKind::Other(_) => (s, Seq::empty()),
        },
        MessageView::Service { rssi, json } => (
            s,
            if rssi {
                seq![ActionView::Rssi { json }]
            } else {
                Seq::empty()
            },
        ),
        MessageView::Error => (s, Seq::empty()),
    }
}

/// What a packet changes and causes once nothing stale is kept; one that could not be parsed is
/// dropped.
pub open spec fn packet_routed(
    s: BrewView,
    config: Config,
    source: u128,
    parsed: Option<(MessageView, u8)>,
    position: Option<PositionView>,
    now: Now,
) -> (BrewView, Seq<ActionView>) {
    match parsed {
        None => (s, Seq::empty()),
        Some((message, detected)) => message_handled(
            promoted(s, source, detected),
            config,
            source,
            message,
            position,
            now,
        ),
    }
}

/// What a packet changes and causes: the SDS routes that have been kept for the time to live are
/// forgotten, and then it is routed.
pub open spec fn packet_handled(
    s: BrewView,
    config: Config,
    source: u128,
    parsed: Option<(MessageView, u8)>,
    position: Option<PositionView>,
    ttl_ns: u128,
    now: Now,
) -> (BrewView, Seq<ActionView>) {
    packet_routed(routes_purged(s, ttl_ns, now), config, source, parsed, position, now)
}

/// The contents of a parsed packet.
pub open spec fn parsed_view(parsed: Option<(BrewMessage, u8)>) -> Option<(MessageView, u8)> {
    match parsed {
        Some((m, v)) => Some((m@, v)),
        None => None,
    }
}

fn handle_call_control(
    state: &mut BrewState,
    config: &Config,
    source: u128,
    control: CallState,
    id: u128,
    payload: &CallPayload,
    position: Option<Position>,
    now: Now,
) -> (r: Vec<Action>)
    ensures
        (final(state)@, actions_view(r@)) == message_handled(
            old(state)@,
            *config,
            source,
            (MessageView::CallControl { state: control, id, payload: payload@ }),
            opt_position(position),
            now,
        ),
{
    match control {
        CallState::GroupTx => handle_group_tx(state, config, source, id, payload, now),
        CallState::ShortTransfer => handle_sds_header(state, source, id, payload, position, now),
        CallState::SetupRequest => handle_private_setup(state, source, id, payload, now),
        CallState::SetupAccept
        | CallState::SetupReject
        | CallState::Alert
        | CallState::ConnectRequest
        | CallState::ConnectConfirm
        | CallState::SimplexGranted
        | CallState::SimplexIdle => route_private_control(state, source, id, control, now),
        CallState::GroupIdle | CallState::Release => end_call(state, source, id, Frame::Verbatim),
        CallState::Other(_) => {
            let none: Vec<Action> = Vec::new();
            assert(actions_view(none@) =~= Seq::<ActionView>::empty());
            none
        },
    }
}

/// Handles a packet from a client. `parsed` is the message with the protocol version that it shows,
/// or nothing where the packet is malformed; `decoded` holds the outcome of decoding each of the
/// position candidates of `raw`, and is looked at for SDS only; `ttl_ns` is how long the route of an
/// SDS is kept.
pub fn handle_packet(
    state: &mut BrewState,
    config: &Config,
    source: u128,
    parsed: Option<(BrewMessage, u8)>,
    raw: &[u8],
    decoded: &[Option<LatLon>],
    ttl_ns: u128,
    now: Now,
) -> (r: Vec<Action>)
    ensures
        (final(state)@, actions_view(r@)) == packet_handled(
            old(state)@,
            *config,
            source,
            parsed_view(parsed),
            first_decoded(raw@, decoded@, 0),
            ttl_ns,
            now,
        ),
{
    purge_ephemeral(state, ttl_ns, now);
    let mut none: Vec<Action> = Vec::new();
    assert(actions_view(none@) =~= Seq::<ActionView>::empty());
    let (message, detected) = match parsed {
        Some(p) => p,
        None => {
            return none;
        },
    };
    let _ = promote_client_version(state, source, detected);
    match message {
        BrewMessage::Subscriber { kind, issi, groups } => {
            handle_subscriber(state, source, kind, issi, &groups)
        },
        BrewMessage::CallControl { state: control, id, payload } => {
            let position = extract_sds_position(raw, decoded);
            handle_call_control(state, config, source, control, id, &payload, position, now)
        },
        BrewMessage::Frame { frame, id } => match frame {
            FrameKind::SdsTransfer => {
                let position = extract_sds_position(raw, decoded);
                handle_sds_transfer(state, source, id, position)
            },
            FrameKind::SdsReport => handle_sds_report(state, source, id),
            FrameKind::Traffic => route_call_frame(state, source, id, now),
            FrameKind::Dtmf => route_dtmf_frame(state, source, id, now),
            FrameKind::Other(_) => none,
        },
        BrewMessage::Service { rssi, json } => {
            if rssi {
                let ghost text = json@;
                none.push(Action::Rssi { json });
                assert(actions_view(none@) =~= seq![ActionView::Rssi { json: text }]);
            }
            none
        },
        BrewMessage::Error => none,
    }
}

} // verus!
