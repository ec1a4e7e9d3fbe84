//! What registrations and affiliations do, told subscriber by subscriber and group by group.
use crate::brew::{ActionView, BrewView, ClientMode, FrameView, MessageView, Now, SubscriberKind};
use crate::config::Config;
use crate::group_laws::meant_for;
use crate::router::message_handled;
use crate::router_laws::{clients_where, indexed};
use crate::sds::PositionView;
use crate::subscribers::present;
use vstd::prelude::*;

verus! {

/// The state after a subscriber message.
pub open spec fn after(
    s: BrewView,
    config: Config,
    source: u128,
    kind: SubscriberKind,
    issi: u32,
    groups: Seq<u32>,
    position: Option<PositionView>,
    now: Now,
) -> BrewView {
    message_handled(
        s,
        config,
        source,
        MessageView::Subscriber { kind, issi, groups },
        position,
        now,
    ).0
}

/// What a subscriber message causes.
pub open spec fn effect(
    s: BrewView,
    config: Config,
    source: u128,
    kind: SubscriberKind,
    issi: u32,
    groups: Seq<u32>,
    position: Option<PositionView>,
    now: Now,
) -> Seq<ActionView> {
    message_handled(
        s,
        config,
        source,
        MessageView::Subscriber { kind, issi, groups },
        position,
        now,
    ).1
}

/// Whether a message registers.
pub open spec fn registers(kind: SubscriberKind) -> bool {
    kind == SubscriberKind::Register || kind == SubscriberKind::Reregister
}

/// Whether a subscriber other than `issi` is in the group and reached through the client.
pub open spec fn another_there(s: BrewView, issi: u32, client: u128, g: u32) -> bool {
    exists|other: u32|
        other != issi && #[trigger] s.subscribers.contains_key(other)
            && s.subscribers[other].client_id == client && s.subscribers[other].groups.contains(g)
}

proof fn lemma_another(s: BrewView, issi: u32, client: u128, g: u32)
    ensures
        present(s.subscribers.remove(issi), client, g) == another_there(s, issi, client, g),
{
    let subs = s.subscribers.remove(issi);
    if present(subs, client, g) {
        let i = choose|i: u32| #[trigger]
            subs.contains_key(i) && subs[i].client_id == client && subs[i].groups.contains(g);
        assert(s.subscribers.contains_key(i));
    }
    if another_there(s, issi, client, g) {
        let i = choose|i: u32|
            i != issi && #[trigger] s.subscribers.contains_key(i) && s.subscribers[i].client_id
                == client && s.subscribers[i].groups.contains(g);
        assert(subs.contains_key(i));
    }
}

/// A registration, a first one or another, has the subscriber reached through the client that it
/// came from, in the mode of that client, and leaves it in every group that it was in; no other
/// subscriber, call or route changes.
pub proof fn registration_keeps_the_groups(
    s: BrewView,
    config: Config,
    source: u128,
    kind: SubscriberKind,
    issi: u32,
    groups: Seq<u32>,
    position: Option<PositionView>,
    now: Now,
)
    requires
        registers(kind),
    ensures
        ({
            let t = after(s, config, source, kind, issi, groups, position, now);
            let sub = t.subscribers[issi];
            &&& sub.client_id == source
            &&& sub.mode == (if s.clients.contains_key(source) {
                s.clients[source].mode
            } else {
                ClientMode::Basestation
            })
            &&& forall|g: u32| #[trigger]
                sub.groups.contains(g) <==> s.subscribers.contains_key(issi)
                    && s.subscribers[issi].groups.contains(g)
            &&& t == (BrewView {
                subscribers: s.subscribers.insert(issi, sub),
                group_clients: t.group_clients,
                ..s
            })
        }),
{
}

/// A registration through the client that the subscriber is already reached through, or of a new
/// subscriber, leaves the index as it is. One through another client puts that client in the place of
/// the old one in each group of the subscriber.
pub proof fn registration_moves_the_index(
    s: BrewView,
    config: Config,
    source: u128,
    kind: SubscriberKind,
    issi: u32,
    groups: Seq<u32>,
    position: Option<PositionView>,
    now: Now,
    g: u32,
    c: u128,
)
    requires
        registers(kind),
    ensures
        ({
            let t = after(s, config, source, kind, issi, groups, position, now);
            let old = s.subscribers[issi];
            let moves = s.subscribers.contains_key(issi) && old.client_id != source;
            &&& !moves ==> t.group_clients == s.group_clients
            &&& t.group_clients.contains_key(g) == s.group_clients.contains_key(g)
            &&& moves && old.groups.contains(g) && s.group_clients.contains_key(g) ==> (indexed(
                t,
                g,
                c,
            ) <==> c == source || (c != old.client_id && indexed(s, g, c)))
            &&& !(moves && old.groups.contains(g)) ==> indexed(t, g, c) == indexed(s, g, c)
        }),
{
}

/// A subscriber that registers again, from whatever client, is still reached by transmissions to the
/// groups that it was in, where the index had them.
pub proof fn registration_keeps_reachable(
    s: BrewView,
    config: Config,
    source: u128,
    kind: SubscriberKind,
    issi: u32,
    groups: Seq<u32>,
    position: Option<PositionView>,
    now: Now,
    g: u32,
    speaker: u128,
)
    requires
        registers(kind),
        s.subscribers.contains_key(issi),
        s.subscribers[issi].groups.contains(g),
        indexed(s, g, s.subscribers[issi].client_id),
        s.clients.contains_key(source),
        speaker != source,
    ensures
        meant_for(
            after(s, config, source, kind, issi, groups, position, now),
            config,
            speaker,
            g,
            source,
        ),
{
    registration_moves_the_index(
        s,
        config,
        source,
        kind,
        issi,
        groups,
        position,
        now,
        g,
        source,
    );
    let t = after(s, config, source, kind, issi, groups, position, now);
    assert(indexed(t, g, source));
}

/// A deregistration by the subscriber's client removes the subscriber, and takes the client out of
/// those groups of its in which it has nobody else; a deregistration by any other client changes
/// nothing.
pub proof fn deregistration_frees_the_groups(
    s: BrewView,
    config: Config,
    source: u128,
    issi: u32,
    groups: Seq<u32>,
    position: Option<PositionView>,
    now: Now,
    g: u32,
    c: u128,
)
    ensures
        ({
            let t = after(
                s,
                config,
                source,
                SubscriberKind::Deregister,
                issi,
                groups,
                position,
                now,
            );
            let old = s.subscribers[issi];
            if s.subscribers.contains_key(issi) && old.client_id == source {
                &&& t == (BrewView {
                    subscribers: s.subscribers.remove(issi),
                    group_clients: t.group_clients,
                    ..s
                })
                &&& t.group_clients.contains_key(g) == s.group_clients.contains_key(g)
                &&& indexed(t, g, c) <==> indexed(s, g, c) && !(c == source && old.groups.contains(g)
                    && !another_there(s, issi, source, g))
            } else {
                t == s
            }
        }),
{
    lemma_another(s, issi, source, g);
}

/// An affiliation by the subscriber's client, or of a subscriber that nobody has, adds the groups to
/// those of the subscriber and the client to each of them, and takes nothing away; one by any other
/// client changes nothing.
pub proof fn affiliation_adds_the_groups(
    s: BrewView,
    config: Config,
    source: u128,
    issi: u32,
    groups: Seq<u32>,
    position: Option<PositionView>,
    now: Now,
    g: u32,
    c: u128,
)
    ensures
        ({
            let t = after(
                s,
                config,
                source,
                SubscriberKind::Affiliate,
                issi,
                groups,
                position,
                now,
            );
            let known = s.subscribers.contains_key(issi);
            let old = s.subscribers[issi];
            if known && old.client_id != source {
                t == s
            } else {
                let sub = t.subscribers[issi];
                &&& t == (BrewView {
                    subscribers: s.subscribers.insert(issi, sub),
                    group_clients: t.group_clients,
                    ..s
                })
                &&& sub.client_id == source
                &&& sub.mode == (if known {
                    old.mode
                } else if s.clients.contains_key(source) {
                    s.clients[source].mode
                } else {
                    ClientMode::Basestation
                })
                &&& sub.groups.contains(g) <==> groups.contains(g) || (known && old.groups.contains(g))
                &&& indexed(t, g, c) <==> indexed(s, g, c) || (c == source && groups.contains(g))
            }
        }),
{
    assert(groups.to_set().contains(g) == groups.contains(g));
}

/// A deaffiliation by the subscriber's client takes the groups from the subscriber, and the client
/// out of those of them in which it has nobody else; one by any other client, or of a subscriber that
/// nobody has, changes nothing.
pub proof fn deaffiliation_takes_the_groups(
    s: BrewView,
    config: Config,
    source: u128,
    issi: u32,
    groups: Seq<u32>,
    position: Option<PositionView>,
    now: Now,
    g: u32,
    c: u128,
)
    ensures
        ({
            let t = after(
                s,
                config,
                source,
                SubscriberKind::Deaffiliate,
                issi,
                groups,
                position,
                now,
            );
            let old = s.subscribers[issi];
            if s.subscribers.contains_key(issi) && old.client_id == source {
                let sub = t.subscribers[issi];
                &&& t == (BrewView {
                    subscribers: s.subscribers.insert(issi, sub),
                    group_clients: t.group_clients,
                    ..s
                })
                &&& sub.client_id == source && sub.mode == old.mode
                &&& sub.groups.contains(g) <==> old.groups.contains(g) && !groups.contains(g)
                &&& indexed(t, g, c) <==> indexed(s, g, c) && !(c == source && groups.contains(g)
                    && !another_there(s, issi, source, g))
            } else {
                t == s
            }
        }),
{
    assert(groups.to_set().contains(g) == groups.contains(g));
    let t = after(s, config, source, SubscriberKind::Deaffiliate, issi, groups, position, now);
    if s.subscribers.contains_key(issi) && s.subscribers[issi].client_id == source {
        lemma_another(s, issi, source, g);
        assert(t.subscribers.remove(issi) =~= s.subscribers.remove(issi));
        lemma_another(t, issi, source, g);
        if groups.contains(g) {
            assert(present(t.subscribers, source, g) == present(
                t.subscribers.remove(issi),
                source,
                g,
            )) by {
                if present(t.subscribers, source, g) {
                    let i = choose|i: u32| #[trigger]
                        t.subscribers.contains_key(i) && t.subscribers[i].client_id == source
                            && t.subscribers[i].groups.contains(g);
                    assert(t.subscribers.remove(issi).contains_key(i));
                }
                if present(t.subscribers.remove(issi), source, g) {
                    let r = t.subscribers.remove(issi);
                    let i = choose|i: u32| #[trigger]
                        r.contains_key(i) && r[i].client_id == source && r[i].groups.contains(g);
                    assert(t.subscribers.contains_key(i));
                }
            }
        }
    }
}

/// Whether a message of the subscriber is passed on to other servers: registrations and
/// deregistrations always, affiliations unless the subscriber is another client's, and
/// deaffiliations only from the subscriber's client.
pub open spec fn passed_on(s: BrewView, source: u128, kind: SubscriberKind, issi: u32) -> bool {
    let known = s.subscribers.contains_key(issi);
    let own = known && s.subscribers[issi].client_id == source;
    match kind {
        SubscriberKind::Register | SubscriberKind::Reregister | SubscriberKind::Deregister => true,
        SubscriberKind::Affiliate => !known || own,
        SubscriberKind::Deaffiliate => own,
        SubscriberKind::Other(_) => false,
    }
}

/// A subscriber message goes, as it is, to every connected server but the one that it came from, and
/// to nobody else. A mobile station's registration is logged as one, and its deregistration as a
/// deregistration; those of base stations and servers are not.
pub proof fn subscriber_messages_reach_the_servers(
    s: BrewView,
    config: Config,
    source: u128,
    kind: SubscriberKind,
    issi: u32,
    groups: Seq<u32>,
    position: Option<PositionView>,
    now: Now,
)
    ensures
        ({
            let actions = effect(s, config, source, kind, issi, groups, position, now);
            let servers = clients_where(
                s,
                |c: u128| c != source && s.clients[c].mode == ClientMode::Peer,
            );
            let relay = ActionView::Send {
                to: servers,
                frame: FrameView::Subscriber { kind, issi, groups },
            };
            let own = s.subscribers.contains_key(issi) && s.subscribers[issi].client_id == source;
            let up = registers(kind) && s.clients.contains_key(source) && s.clients[source].mode
                == ClientMode::Terminal;
            let down = kind == SubscriberKind::Deregister && own && s.subscribers[issi].mode
                == ClientMode::Terminal;
            &&& !passed_on(s, source, kind, issi) ==> actions.len() == 0
            &&& passed_on(s, source, kind, issi) ==> {
                &&& forall|i: int|
                    0 <= i < actions.len() ==> ((#[trigger] actions[i]) is Send ==> actions[i] == relay)
                &&& (exists|c: u128| #[trigger] servers.contains(c)) <==> actions.contains(relay)
                &&& actions.contains(ActionView::Registration { issi, registered: true }) <==> up
                &&& actions.contains(ActionView::Registration { issi, registered: false }) <==> down
                &&& actions.len() == (if exists|c: u128| #[trigger] servers.contains(c) {
                    1int
                } else {
                    0
                }) + (if up || down {
                    1int
                } else {
                    0
                })
            }
        }),
{
    let actions = effect(s, config, source, kind, issi, groups, position, now);
    let servers = clients_where(
        s,
        |c: u128| c != source && s.clients[c].mode == ClientMode::Peer,
    );
    let peers = s.other_peers(source);
    assert(peers =~= servers);
    let relay = ActionView::Send {
        to: servers,
        frame: FrameView::Subscriber { kind, issi, groups },
    };
    if passed_on(s, source, kind, issi) {
        if exists|c: u128| #[trigger] servers.contains(c) {
            assert(!(peers =~= Set::<u128>::empty())) by {
                let c = choose|c: u128| #[trigger] servers.contains(c);
                assert(peers.contains(c));
            }
            assert(actions[0] == relay);
            if actions.len() > 1 {
                assert(actions[1] is Registration);
            }
        } else {
            assert(peers =~= Set::<u128>::empty());
            if actions.len() > 0 {
                assert(actions[0] is Registration);
            }
        }
    }
}

/// A subscriber that leaves and comes back: deregistered it is reached by no private call and is in
/// no group; registered again it is reached, and in no group until it affiliates.
pub proof fn deregistered_subscriber_is_forgotten(
    s: BrewView,
    config: Config,
    source: u128,
    issi: u32,
    groups: Seq<u32>,
    now: Now,
    g: u32,
)
    requires
        s.subscribers.contains_key(issi),
        s.subscribers[issi].client_id == source,
    ensures
        ({
            let t = after(
                s,
                config,
                source,
                SubscriberKind::Deregister,
                issi,
                groups,
                None,
                now,
            );
            let u = after(t, config, source, SubscriberKind::Register, issi, groups, None, now);
            &&& !t.subscribers.contains_key(issi)
            &&& u.subscribers[issi].client_id == source
            &&& !u.subscribers[issi].groups.contains(g)
        }),
{
}

} // verus!
