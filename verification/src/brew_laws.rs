//! What holds of the Brew side across messages.
use crate::brew::{
    ActionView, BrewView, CallKind, CallState, CallView, ClientMode, FrameView, MessageView, Now,
    PayloadView, SubscriberKind, SubscriberView,
};
use crate::config::Config;
use crate::router::{
    call_frame, ended, group_targets, message_handled, others, private_setup, setup_parties,
};
use crate::sds::{sds_header, sds_report, sds_targets, sds_transfer, PositionView};
use crate::subscribers::{
    affiliated, deaffiliated, deregistered, dropped, owned, present, registered, subscribed,
    subscriber_actions,
};
use crate::sweep::{holds_floor, without};
use vstd::prelude::*;

verus! {

// ---- floors ----

/// Every floor is held by a call to its group.
pub open spec fn floors_held(s: BrewView) -> bool {
    forall|g: u32| #[trigger] s.group_floor.contains_key(g) ==> holds_floor(s, g)
}

/// Every group call holds the floor of its group, so there is one per group at most.
pub open spec fn floors_exclusive(s: BrewView) -> bool {
    forall|id: u128| #[trigger]
        s.calls.contains_key(id) && s.calls[id].kind == CallKind::Group ==> {
            &&& s.group_floor.contains_key(s.calls[id].destination)
            &&& s.group_floor[s.calls[id].destination] == id
        }
}

/// A message that starts a call does not take the identifier of a call of another kind or to
/// another group.
pub open spec fn keeps_identifiers(s: BrewView, message: MessageView) -> bool {
    match message {
        MessageView::CallControl { state: CallState::GroupTx, id, payload } => {
            match payload {
                PayloadView::GroupTransmission { destination, .. } => {
                    s.calls.contains_key(id) ==> {
                        &&& s.calls[id].kind == CallKind::Group
                        &&& s.calls[id].destination == destination
                    }
                },
                _ => true,
            }
        },
        MessageView::CallControl { state: CallState::SetupRequest, id, .. } => {
            s.calls.contains_key(id) ==> s.calls[id].kind == CallKind::Private
        },
        _ => true,
    }
}

/// No message leaves a floor with a call that is not, or no longer, one to its group.
pub proof fn floors_stay_held(
    s: BrewView,
    config: Config,
    source: u128,
    message: MessageView,
    position: Option<PositionView>,
    now: Now,
)
    requires
        floors_held(s),
        keeps_identifiers(s, message),
    ensures
        floors_held(message_handled(s, config, source, message, position, now).0),
{
    let t = message_handled(s, config, source, message, position, now).0;
    assert forall|g: u32| #[trigger] t.group_floor.contains_key(g) implies holds_floor(t, g) by {
        if s.group_floor.contains_key(g) {
            assert(holds_floor(s, g));
        }
    }
}

/// Where a group can have one call only, it never has more.
pub proof fn floors_stay_exclusive(
    s: BrewView,
    config: Config,
    source: u128,
    message: MessageView,
    position: Option<PositionView>,
    now: Now,
)
    requires
        !config.allow_multiple_calls_per_group,
        floors_held(s),
        floors_exclusive(s),
        keeps_identifiers(s, message),
    ensures
        floors_exclusive(message_handled(s, config, source, message, position, now).0),
{
    let t = message_handled(s, config, source, message, position, now).0;
    assert forall|id: u128| #[trigger]
        t.calls.contains_key(id) && t.calls[id].kind == CallKind::Group implies {
        &&& t.group_floor.contains_key(t.calls[id].destination)
        &&& t.group_floor[t.calls[id].destination] == id
    } by {
        if s.calls.contains_key(id) {
            let g = s.calls[id].destination;
            if s.group_floor.contains_key(g) {
                assert(holds_floor(s, g));
            }
        }
    }
}

/// The sweep leaves no floor behind, and none without its call.
pub proof fn sweep_keeps_floors(s: BrewView, test: spec_fn(CallView) -> bool)
    requires
        floors_held(s),
    ensures
        floors_held(without(s, test)),
        floors_exclusive(s) ==> floors_exclusive(without(s, test)),
{
    let t = without(s, test);
    assert forall|g: u32| #[trigger] t.group_floor.contains_key(g) implies holds_floor(t, g) by {
        assert(holds_floor(s, g));
    }
    if floors_exclusive(s) {
        assert forall|id: u128| #[trigger]
            t.calls.contains_key(id) && t.calls[id].kind == CallKind::Group implies {
            &&& t.group_floor.contains_key(t.calls[id].destination)
            &&& t.group_floor[t.calls[id].destination] == id
        } by {
            assert(s.calls.contains_key(id));
            assert(holds_floor(s, s.calls[id].destination));
        }
    }
}

// ---- ends of calls ----

/// The owner of a call can always end it, whatever its kind, and every other participant is told.
pub proof fn owner_ends_call(s: BrewView, id: u128, frame: FrameView)
    requires
        s.calls.contains_key(id),
    ensures
        ended(s, s.calls[id].owner, id, frame).0.calls == s.calls.remove(id),
        ended(s, s.calls[id].owner, id, frame).1[0] == (ActionView::Send {
            to: s.connected(s.calls[id].peers.remove(s.calls[id].owner)),
            frame,
        }),
{
    let call = s.calls[id];
    assert(others(call, call.owner) =~= call.peers.remove(call.owner));
}

/// A client that is not in a call can neither send a frame into it nor end it; a listener of a
/// group call cannot either.
pub proof fn outsiders_are_ignored(
    s: BrewView,
    source: u128,
    id: u128,
    voice: bool,
    frame: FrameView,
    now: Now,
)
    requires
        s.calls.contains_key(id) ==> s.calls[id].owner != source && (s.calls[id].kind
            == CallKind::Group || !s.calls[id].peers.contains(source)),
    ensures
        call_frame(s, source, id, voice, now) == (s, Seq::<ActionView>::empty()),
        ended(s, source, id, frame) == (s, Seq::<ActionView>::empty()),
{
}

// ---- forwarding ----

/// No SDS goes back to the client that it came from.
pub open spec fn sds_routes_apart(s: BrewView) -> bool {
    forall|id: u128| #[trigger]
        s.sds_routes.contains_key(id) ==> !s.sds_routes[id].targets.contains(
            s.sds_routes[id].source_client,
        )
}

/// No message makes an SDS go back to the client that it came from.
pub proof fn sds_routes_stay_apart(
    s: BrewView,
    config: Config,
    source: u128,
    message: MessageView,
    position: Option<PositionView>,
    now: Now,
)
    requires
        sds_routes_apart(s),
    ensures
        sds_routes_apart(message_handled(s, config, source, message, position, now).0),
{
    let t = message_handled(s, config, source, message, position, now).0;
    assert forall|id: u128| #[trigger] t.sds_routes.contains_key(id) implies !t.sds_routes[id].targets.contains(
    t.sds_routes[id].source_client) by {
        if s.sds_routes.contains_key(id) {
            assert(!s.sds_routes[id].targets.contains(s.sds_routes[id].source_client));
        }
    }
}

/// The action does not send the handled packet back to `source`, and sends to connected clients
/// only.
pub open spec fn no_echo(s: BrewView, source: u128, action: ActionView) -> bool {
    match action {
        ActionView::Send { to, frame } => {
            &&& to.subset_of(s.clients.dom())
            &&& frame is Verbatim ==> !to.contains(source)
        },
        _ => true,
    }
}

/// A packet is never sent back to the client that it came from, and nothing is sent to a client
/// that is not connected.
pub proof fn packets_are_not_echoed(
    s: BrewView,
    config: Config,
    source: u128,
    message: MessageView,
    position: Option<PositionView>,
    now: Now,
    i: int,
)
    requires
        sds_routes_apart(s),
        0 <= i < message_handled(s, config, source, message, position, now).1.len(),
    ensures
        no_echo(s, source, message_handled(s, config, source, message, position, now).1[i]),
{
}

// ---- SDS ----

/// The content of an SDS goes to whom its header went to, and the report of each of them goes back
/// to where the SDS came from.
pub proof fn sds_follows_its_header(
    s: BrewView,
    source: u128,
    id: u128,
    issi: u32,
    destination: u32,
    now: Now,
    target: u128,
)
    requires
        sds_targets(s, source, destination).contains(target),
    ensures
        ({
            let payload = PayloadView::ShortTransfer { source: issi, destination };
            let t = sds_header(s, source, id, payload, None, now).0;
            &&& sds_transfer(t, source, id, None) =~= seq![
                ActionView::Send {
                    to: s.connected(sds_targets(s, source, destination)),
                    frame: FrameView::Verbatim,
                },
            ]
            &&& sds_report(t, target, id).1[0] == (ActionView::Send {
                to: s.connected(set![source]),
                frame: FrameView::Verbatim,
            })
        }),
{
}

// ---- subscribers ----

/// The group index names exactly the clients through which a subscriber of the group is reached.
pub open spec fn index_exact(s: BrewView) -> bool {
    forall|g: u32, c: u128| #[trigger]
        s.affiliated(g).contains(c) <==> present(s.subscribers, c, g)
}

/// A registration does not move a subscriber away from a client that has another one in a group of
/// its.
pub open spec fn moves_alone(s: BrewView, source: u128, kind: SubscriberKind, issi: u32) -> bool {
    let registers = kind == SubscriberKind::Register || kind == SubscriberKind::Reregister;
    let sub = s.subscribers[issi];
    registers && s.subscribers.contains_key(issi) && sub.client_id != source ==> forall|g: u32|
        #[trigger] sub.groups.contains(g) ==> !present(s.subscribers.remove(issi), sub.client_id, g)
}

proof fn lemma_present_insert(
    subs: Map<u32, SubscriberView>,
    issi: u32,
    sub: SubscriberView,
    c: u128,
    g: u32,
)
    ensures
        present(subs.insert(issi, sub), c, g) == (present(subs.remove(issi), c, g) || (sub.client_id
            == c && sub.groups.contains(g))),
{
    let a = subs.insert(issi, sub);
    let b = subs.remove(issi);
    if present(a, c, g) {
        let i = choose|i: u32| #[trigger]
            a.contains_key(i) && a[i].client_id == c && a[i].groups.contains(g);
        if i != issi {
            assert(b.contains_key(i));
        }
    }
    if present(b, c, g) {
        let i = choose|i: u32| #[trigger]
            b.contains_key(i) && b[i].client_id == c && b[i].groups.contains(g);
        assert(a.contains_key(i));
    }
    assert(a.contains_key(issi));
}

proof fn lemma_present_split(subs: Map<u32, SubscriberView>, issi: u32, c: u128, g: u32)
    requires
        subs.contains_key(issi),
    ensures
        present(subs, c, g) == (present(subs.remove(issi), c, g) || (subs[issi].client_id == c
            && subs[issi].groups.contains(g))),
{
    assert(subs.insert(issi, subs[issi]) =~= subs);
    lemma_present_insert(subs, issi, subs[issi], c, g);
}

proof fn lemma_registered(s: BrewView, source: u128, issi: u32)
    requires
        index_exact(s),
        moves_alone(s, source, SubscriberKind::Register, issi),
    ensures
        index_exact(registered(s, source, issi)),
{
    let t = registered(s, source, issi);
    assert forall|g: u32, c: u128| #[trigger] t.affiliated(g).contains(c) <==> present(
        t.subscribers,
        c,
        g,
    ) by {
        lemma_present_insert(s.subscribers, issi, t.subscribers[issi], c, g);
        assert(s.affiliated(g).contains(c) <==> present(s.subscribers, c, g));
        if s.subscribers.contains_key(issi) {
            let sub = s.subscribers[issi];
            lemma_present_split(s.subscribers, issi, c, g);
            if sub.groups.contains(g) {
                lemma_present_split(s.subscribers, issi, sub.client_id, g);
                assert(s.affiliated(g).contains(sub.client_id));
                assert(s.group_clients.contains_key(g));
            }
        } else {
            assert(s.subscribers.remove(issi) =~= s.subscribers);
        }
    }
}

proof fn lemma_deregistered(s: BrewView, source: u128, issi: u32)
    requires
        index_exact(s),
    ensures
        index_exact(deregistered(s, source, issi)),
{
    let t = deregistered(s, source, issi);
    if owned(s, source, issi) {
        assert forall|g: u32, c: u128| #[trigger] t.affiliated(g).contains(c) <==> present(
            t.subscribers,
            c,
            g,
        ) by {
            assert(s.affiliated(g).contains(c) <==> present(s.subscribers, c, g));
            lemma_present_split(s.subscribers, issi, c, g);
        }
    }
}

proof fn lemma_affiliated(s: BrewView, source: u128, issi: u32, groups: Set<u32>)
    requires
        index_exact(s),
        !dropped(s, source, SubscriberKind::Affiliate, issi),
    ensures
        index_exact(affiliated(s, source, issi, groups)),
{
    let t = affiliated(s, source, issi, groups);
    assert forall|g: u32, c: u128| #[trigger] t.affiliated(g).contains(c) <==> present(
        t.subscribers,
        c,
        g,
    ) by {
        lemma_present_insert(s.subscribers, issi, t.subscribers[issi], c, g);
        assert(s.affiliated(g).contains(c) <==> present(s.subscribers, c, g));
        if s.subscribers.contains_key(issi) {
            lemma_present_split(s.subscribers, issi, c, g);
        } else {
            assert(s.subscribers.remove(issi) =~= s.subscribers);
        }
    }
}

proof fn lemma_deaffiliated(s: BrewView, source: u128, issi: u32, groups: Set<u32>)
    requires
        index_exact(s),
        owned(s, source, issi),
    ensures
        index_exact(deaffiliated(s, source, issi, groups)),
{
    let t = deaffiliated(s, source, issi, groups);
    assert forall|g: u32, c: u128| #[trigger] t.affiliated(g).contains(c) <==> present(
        t.subscribers,
        c,
        g,
    ) by {
        lemma_present_insert(s.subscribers, issi, t.subscribers[issi], c, g);
        lemma_present_split(s.subscribers, issi, c, g);
        assert(s.affiliated(g).contains(c) <==> present(s.subscribers, c, g));
    }
}

/// The group index stays exact through registrations and affiliations.
pub proof fn index_stays_exact(
    s: BrewView,
    source: u128,
    kind: SubscriberKind,
    issi: u32,
    groups: Set<u32>,
)
    requires
        index_exact(s),
        moves_alone(s, source, kind, issi),
    ensures
        index_exact(subscribed(s, source, kind, issi, groups)),
{
    if !dropped(s, source, kind, issi) {
        match kind {
            SubscriberKind::Register | SubscriberKind::Reregister => {
                lemma_registered(s, source, issi);
            },
            SubscriberKind::Deregister => {
                lemma_deregistered(s, source, issi);
            },
            SubscriberKind::Affiliate => {
                lemma_affiliated(s, source, issi, groups);
            },
            SubscriberKind::Deaffiliate => {
                lemma_deaffiliated(s, source, issi, groups);
            },
            SubscriberKind::Other(_) => {},
        }
    }
}

/// A subscriber that has registered is called through the client that it registered from.
pub proof fn registration_makes_reachable(
    s: BrewView,
    client: u128,
    issi: u32,
    caller: u128,
    id: u128,
    payload: PayloadView,
    now: Now,
)
    requires
        caller != client,
        setup_parties(payload) is Some,
        (setup_parties(payload)->0).1 == issi,
    ensures
        private_setup(registered(s, client, issi), caller, id, payload, now).0.calls[id].peers == set![
            client,
        ],
        s.clients.contains_key(client) ==> private_setup(
            registered(s, client, issi),
            caller,
            id,
            payload,
            now,
        ).1[0] == (ActionView::Send { to: set![client], frame: FrameView::Verbatim }),
{
    let t = registered(s, client, issi);
    if s.clients.contains_key(client) {
        assert(t.connected(set![client]) =~= set![client]);
    }
}

/// A client with an affiliated subscriber gets the transmissions to the group.
pub proof fn affiliation_makes_reachable(
    s: BrewView,
    config: Config,
    client: u128,
    issi: u32,
    groups: Set<u32>,
    gssi: u32,
    source: u128,
)
    requires
        s.clients.contains_key(client),
        groups.contains(gssi),
        source != client,
    ensures
        group_targets(affiliated(s, client, issi, groups), config, source, gssi).contains(client),
{
    let t = affiliated(s, client, issi, groups);
    assert(t.affiliated(gssi).contains(client));
}

/// The action sends to servers only, and not to `source`.
pub open spec fn goes_to_others(s: BrewView, source: u128, action: ActionView) -> bool {
    match action {
        ActionView::Send { to, .. } => {
            &&& !to.contains(source)
            &&& forall|c: u128| #[trigger] to.contains(c) ==> s.clients[c].mode == ClientMode::Peer
        },
        _ => true,
    }
}

/// A registration or affiliation goes to every other server, and never back over the link that it
/// came in on.
pub proof fn split_horizon(
    s: BrewView,
    source: u128,
    kind: SubscriberKind,
    issi: u32,
    groups: Seq<u32>,
    peer: u128,
)
    requires
        s.clients.contains_key(peer),
        !dropped(s, source, kind, issi),
    ensures
        s.clients[peer].mode == ClientMode::Peer && peer != source ==> {
            let first = subscriber_actions(s, source, kind, issi, groups)[0];
            &&& subscriber_actions(s, source, kind, issi, groups).len() > 0
            &&& first matches ActionView::Send { to, frame } && to.contains(peer) && frame
                == (FrameView::Subscriber { kind, issi, groups })
        },
        forall|i: int|
            0 <= i < subscriber_actions(s, source, kind, issi, groups).len()
                ==> goes_to_others(
                s,
                source,
                #[trigger] subscriber_actions(s, source, kind, issi, groups)[i],
            ),
{
    let peers = s.other_peers(source);
    if s.clients[peer].mode == ClientMode::Peer && peer != source {
        assert(peers.contains(peer));
    }
}

} // verus!
