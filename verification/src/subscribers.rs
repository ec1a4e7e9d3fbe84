//! Registration and group affiliation of subscribers, and their propagation to other servers.
use crate::brew::{
    actions_view, other_peers, Action, ActionView, BrewState, BrewView, ClientMode, Frame,
    FrameView, Subscriber, SubscriberKind, SubscriberView,
};
use crate::table::{keys_view, lists, KeySet, Table};
use vstd::prelude::*;

verus! {

/// Whether a subscriber in the group is reached through the client.
pub open spec fn present(subs: Map<u32, SubscriberView>, client: u128, gssi: u32) -> bool {
    exists|issi: u32| #[trigger]
        subs.contains_key(issi) && subs[issi].client_id == client && subs[issi].groups.contains(gssi)
}

/// The group index once what was reached through `from` is reached through `to`.
pub open spec fn moved(
    index: Map<u32, Set<u128>>,
    groups: Set<u32>,
    from: u128,
    to: u128,
) -> Map<u32, Set<u128>> {
    Map::new(
        |g: u32| index.contains_key(g),
        |g: u32|
            if groups.contains(g) {
                index[g].remove(from).insert(to)
            } else {
                index[g]
            },
    )
}

/// The group index once the client has joined the groups.
pub open spec fn joined(index: Map<u32, Set<u128>>, groups: Set<u32>, client: u128) -> Map<
    u32,
    Set<u128>,
> {
    Map::new(
        |g: u32| index.contains_key(g) || groups.contains(g),
        |g: u32|
            if !groups.contains(g) {
                index[g]
            } else if index.contains_key(g) {
                index[g].insert(client)
            } else {
                set![client]
            },
    )
}

/// The group index once the client has left those of the groups in which no subscriber is reached
/// through it any more.
pub open spec fn left(
    index: Map<u32, Set<u128>>,
    subs: Map<u32, SubscriberView>,
    groups: Set<u32>,
    client: u128,
) -> Map<u32, Set<u128>> {
    Map::new(
        |g: u32| index.contains_key(g),
        |g: u32|
            if groups.contains(g) && !present(subs, client, g) {
                index[g].remove(client)
            } else {
                index[g]
            },
    )
}

proof fn lemma_take_set(s: Seq<u32>, i: int)
    requires
        0 <= i < s.len(),
    ensures
        s.take(i + 1).to_set() == s.take(i).to_set().insert(s[i]),
{
    let a = s.take(i + 1);
    let b = s.take(i);
    assert forall|x: u32| a.to_set().contains(x) == b.to_set().insert(s[i]).contains(x) by {
        if a.contains(x) {
            let j = choose|j: int| 0 <= j < a.len() && a[j] == x;
            if j < i {
                assert(b[j] == x);
            }
        }
        if b.contains(x) {
            let j = choose|j: int| 0 <= j < b.len() && b[j] == x;
            assert(a[j] == x);
        }
        assert(a[i] == s[i]);
    }
    assert(a.to_set() =~= b.to_set().insert(s[i]));
}

fn move_groups(index: &mut Table<u32, KeySet<u128>>, groups: &KeySet<u32>, from: u128, to: u128)
    requires
        from != to,
    ensures
        final(index)@ == moved(old(index)@, groups@, from, to),
{
    let list = groups.to_vec();
    let ghost before = index@;
    assert(keys_view(list@) =~= list@);
    let mut i: usize = 0;
    assert(moved(before, list@.take(0).to_set(), from, to) =~= before);
    while i < list.len()
        invariant
            i <= list@.len(),
            from != to,
            index@ == moved(before, list@.take(i as int).to_set(), from, to),
        decreases list@.len() - i,
    {
        let g = list[i];
        proof {
            lemma_take_set(list@, i as int);
        }
        let ghost mid = index@;
        match index.remove(&g) {
            Some(mut clients) => {
                clients.remove(&from);
                clients.insert(to);
                index.insert(g, clients);
            },
            None => {},
        }
        assert(index@ =~= moved(before, list@.take(i + 1).to_set(), from, to)) by {
            if mid.contains_key(g) {
                assert(mid[g].remove(from).insert(to) =~= before[g].remove(from).insert(to));
            }
        }
        i += 1;
    }
    assert(list@.take(i as int) =~= list@);
}

fn join_groups(index: &mut Table<u32, KeySet<u128>>, groups: &Vec<u32>, client: u128)
    ensures
        final(index)@ == joined(old(index)@, groups@.to_set(), client),
{
    let ghost before = index@;
    let mut i: usize = 0;
    assert(joined(before, groups@.take(0).to_set(), client) =~= before);
    while i < groups.len()
        invariant
            i <= groups@.len(),
            index@ == joined(before, groups@.take(i as int).to_set(), client),
        decreases groups@.len() - i,
    {
        let g = groups[i];
        proof {
            lemma_take_set(groups@, i as int);
        }
        let ghost mid = index@;
        let mut clients = match index.remove(&g) {
            Some(clients) => clients,
            None => KeySet::new(),
        };
        clients.insert(client);
        let ghost put = clients@;
        index.insert(g, clients);
        assert(index@ =~= joined(before, groups@.take(i + 1).to_set(), client)) by {
            let want = joined(before, groups@.take(i + 1).to_set(), client);
            assert(put =~= want[g]);
        }
        i += 1;
    }
    assert(groups@.take(i as int) =~= groups@);
}

fn is_present(subs: &Table<u32, Subscriber>, client: u128, gssi: u32) -> (r: bool)
    ensures
        r == present(subs@, client, gssi),
{
    let n = subs.len();
    let mut i: usize = 0;
    while i < n
        invariant
            i <= n,
            n == subs.items().len(),
            lists(subs.items(), subs@),
            forall|j: int|
                0 <= j < i ==> !((#[trigger] subs.items()[j]).1.client_id == client
                    && subs.items()[j].1.groups.contains(gssi)),
        decreases n - i,
    {
        let sub = subs.value_at(i);
        if sub.client_id == client && sub.groups.contains(&gssi) {
            assert(subs@.contains_key(subs.items()[i as int].0));
            return true;
        }
        i += 1;
    }
    assert forall|issi: u32| #[trigger] subs@.contains_key(issi) implies !(subs@[issi].client_id == client
        && subs@[issi].groups.contains(gssi)) by {
        assert(crate::table::has_key(subs.items(), issi));
        let j = choose|j: int| 0 <= j < n && #[trigger] subs.items()[j].0 == issi;
        assert(subs.items()[j].0 == issi);
    }
    false
}

fn leave_groups(
    index: &mut Table<u32, KeySet<u128>>,
    subs: &Table<u32, Subscriber>,
    groups: &Vec<u32>,
    client: u128,
)
    ensures
        final(index)@ == left(old(index)@, subs@, groups@.to_set(), client),
{
    let ghost before = index@;
    let mut i: usize = 0;
    assert(left(before, subs@, groups@.take(0).to_set(), client) =~= before);
    while i < groups.len()
        invariant
            i <= groups@.len(),
            index@ == left(before, subs@, groups@.take(i as int).to_set(), client),
        decreases groups@.len() - i,
    {
        let g = groups[i];
        proof {
            lemma_take_set(groups@, i as int);
        }
        let ghost mid = index@;
        if !is_present(subs, client, g) {
            match index.remove(&g) {
                Some(mut clients) => {
                    clients.remove(&client);
                    index.insert(g, clients);
                },
                None => {},
            }
        }
        assert(index@ =~= left(before, subs@, groups@.take(i + 1).to_set(), client)) by {
            if mid.contains_key(g) {
                assert(mid[g].remove(client) =~= before[g].remove(client));
            }
        }
        i += 1;
    }
    assert(groups@.take(i as int) =~= groups@);
}

fn insert_all(set: &mut KeySet<u32>, keys: &Vec<u32>)
    ensures
        final(set)@ == old(set)@.union(keys@.to_set()),
{
    let ghost before = set@;
    let mut i: usize = 0;
    assert(before.union(keys@.take(0).to_set()) =~= before);
    while i < keys.len()
        invariant
            i <= keys@.len(),
            set@ == before.union(keys@.take(i as int).to_set()),
        decreases keys@.len() - i,
    {
        proof {
            lemma_take_set(keys@, i as int);
        }
        set.insert(keys[i]);
        assert(set@ =~= before.union(keys@.take(i + 1).to_set()));
        i += 1;
    }
    assert(keys@.take(i as int) =~= keys@);
}

fn remove_all(set: &mut KeySet<u32>, keys: &Vec<u32>)
    ensures
        final(set)@ == old(set)@.difference(keys@.to_set()),
{
    let ghost before = set@;
    let mut i: usize = 0;
    assert(before.difference(keys@.take(0).to_set()) =~= before);
    while i < keys.len()
        invariant
            i <= keys@.len(),
            set@ == before.difference(keys@.take(i as int).to_set()),
        decreases keys@.len() - i,
    {
        proof {
            lemma_take_set(keys@, i as int);
        }
        set.remove(&keys[i]);
        assert(set@ =~= before.difference(keys@.take(i + 1).to_set()));
        i += 1;
    }
    assert(keys@.take(i as int) =~= keys@);
}

// ---- the messages ----

/// The state after a registration: the subscriber keeps its groups and is now reached through
/// `source`.
pub open spec fn registered(s: BrewView, source: u128, issi: u32) -> BrewView {
    let known = s.subscribers.contains_key(issi);
    let groups = if known {
        s.subscribers[issi].groups
    } else {
        Set::empty()
    };
    BrewView {
        subscribers: s.subscribers.insert(
            issi,
            SubscriberView { client_id: source, groups, mode: s.mode_of(source) },
        ),
        group_clients: if known && s.subscribers[issi].client_id != source {
            moved(s.group_clients, groups, s.subscribers[issi].client_id, source)
        } else {
            s.group_clients
        },
        ..s
    }
}

/// Whether the subscriber is registered through the client.
pub open spec fn owned(s: BrewView, source: u128, issi: u32) -> bool {
    s.subscribers.contains_key(issi) && s.subscribers[issi].client_id == source
}

/// The state after a deregistration; only the client of the subscriber can deregister it.
pub open spec fn deregistered(s: BrewView, source: u128, issi: u32) -> BrewView {
    if owned(s, source, issi) {
        let subscribers = s.subscribers.remove(issi);
        BrewView {
            subscribers,
            group_clients: left(
                s.group_clients,
                subscribers,
                s.subscribers[issi].groups,
                source,
            ),
            ..s
        }
    } else {
        s
    }
}

/// The state after an affiliation to the groups by the subscriber's client.
pub open spec fn affiliated(s: BrewView, source: u128, issi: u32, groups: Set<u32>) -> BrewView {
    let sub = if s.subscribers.contains_key(issi) {
        s.subscribers[issi]
    } else {
        SubscriberView { client_id: source, groups: Set::empty(), mode: s.mode_of(source) }
    };
    BrewView {
        subscribers: s.subscribers.insert(
            issi,
            SubscriberView { groups: sub.groups.union(groups), ..sub },
        ),
        group_clients: joined(s.group_clients, groups, source),
        ..s
    }
}

/// The state after a deaffiliation from the groups by the subscriber's client.
pub open spec fn deaffiliated(s: BrewView, source: u128, issi: u32, groups: Set<u32>) -> BrewView {
    let sub = s.subscribers[issi];
    let subscribers = s.subscribers.insert(
        issi,
        SubscriberView { groups: sub.groups.difference(groups), ..sub },
    );
    BrewView {
        subscribers,
        group_clients: left(s.group_clients, subscribers, groups, source),
        ..s
    }
}

/// Whether a message goes no further: an affiliation or deaffiliation that does not come from the
/// subscriber's client, and a message of an unknown type.
pub open spec fn dropped(s: BrewView, source: u128, kind: SubscriberKind, issi: u32) -> bool {
    match kind {
        SubscriberKind::Affiliate => s.subscribers.contains_key(issi)
            && s.subscribers[issi].client_id != source,
        SubscriberKind::Deaffiliate => !owned(s, source, issi),
        SubscriberKind::Other(_) => true,
        _ => false,
    }
}

/// The state after a subscriber message.
pub open spec fn subscribed(
    s: BrewView,
    source: u128,
    kind: SubscriberKind,
    issi: u32,
    groups: Set<u32>,
) -> BrewView {
    if dropped(s, source, kind, issi) {
        s
    } else {
        match kind {
            SubscriberKind::Register | SubscriberKind::Reregister => registered(s, source, issi),
            SubscriberKind::Deregister => deregistered(s, source, issi),
            SubscriberKind::Affiliate => affiliated(s, source, issi, groups),
            SubscriberKind::Deaffiliate => deaffiliated(s, source, issi, groups),
            SubscriberKind::Other(_) => s,
        }
    }
}

/// The registration that the message is for the log of mobile stations.
pub open spec fn logged(s: BrewView, source: u128, kind: SubscriberKind, issi: u32) -> Seq<
    ActionView,
> {
    let registers = kind == SubscriberKind::Register || kind == SubscriberKind::Reregister;
    if registers && s.mode_of(source) == ClientMode::Terminal {
        seq![ActionView::Registration { issi, registered: true }]
    } else if kind == SubscriberKind::Deregister && owned(s, source, issi)
        && s.subscribers[issi].mode == ClientMode::Terminal {
        seq![ActionView::Registration { issi, registered: false }]
    } else {
        Seq::empty()
    }
}

/// What a subscriber message causes: it goes to every other server but the one it came from.
pub open spec fn subscriber_actions(
    s: BrewView,
    source: u128,
    kind: SubscriberKind,
    issi: u32,
    groups: Seq<u32>,
) -> Seq<ActionView> {
    if dropped(s, source, kind, issi) {
        Seq::empty()
    } else {
        let peers = s.other_peers(source);
        let relay = if peers =~= Set::<u128>::empty() {
            Seq::empty()
        } else {
            seq![
                ActionView::Send {
                    to: peers,
                    frame: FrameView::Subscriber { kind, issi, groups },
                },
            ]
        };
        relay + logged(s, source, kind, issi)
    }
}

fn register(state: &mut BrewState, source: u128, issi: u32)
    ensures
        final(state)@ == registered(old(state)@, source, issi),
{
    let mode = state.client_mode(source);
    let ghost want = registered(old(state)@, source, issi);
    let groups = match state.subscribers.remove(&issi) {
        Some(sub) => {
            if sub.client_id != source {
                move_groups(&mut state.group_clients, &sub.groups, sub.client_id, source);
            }
            sub.groups
        },
        None => KeySet::new(),
    };
    state.subscribers.insert(issi, Subscriber { client_id: source, groups, mode });
    assert(state@ =~= want);
}

fn deregister(state: &mut BrewState, source: u128, issi: u32) -> (r: Option<ClientMode>)
    ensures
        final(state)@ == deregistered(old(state)@, source, issi),
        r == (if owned(old(state)@, source, issi) {
            Some(old(state)@.subscribers[issi].mode)
        } else {
            None
        }),
{
    let ghost want = deregistered(old(state)@, source, issi);
    match state.subscribers.remove(&issi) {
        Some(sub) => {
            if sub.client_id == source {
                let list = sub.groups.to_vec();
                assert(keys_view(list@) =~= list@);
                leave_groups(&mut state.group_clients, &state.subscribers, &list, source);
                assert(state@ =~= want);
                Some(sub.mode)
            } else {
                state.subscribers.insert(issi, sub);
                assert(state@ =~= want);
                None
            }
        },
        None => {
            assert(state@ =~= want);
            None
        },
    }
}

fn affiliate(state: &mut BrewState, source: u128, issi: u32, groups: &Vec<u32>) -> (r: bool)
    ensures
        r == !dropped(old(state)@, source, SubscriberKind::Affiliate, issi),
        final(state)@ == (if r {
            affiliated(old(state)@, source, issi, groups@.to_set())
        } else {
            old(state)@
        }),
{
    let ghost want = affiliated(old(state)@, source, issi, groups@.to_set());
    let mode = state.client_mode(source);
    let mut sub = match state.subscribers.remove(&issi) {
        Some(sub) => {
            if sub.client_id != source {
                state.subscribers.insert(issi, sub);
                assert(state@ =~= old(state)@);
                return false;
            }
            sub
        },
        None => Subscriber { client_id: source, groups: KeySet::new(), mode },
    };
    insert_all(&mut sub.groups, groups);
    state.subscribers.insert(issi, sub);
    join_groups(&mut state.group_clients, groups, source);
    assert(state@ =~= want);
    true
}

fn deaffiliate(state: &mut BrewState, source: u128, issi: u32, groups: &Vec<u32>) -> (r: bool)
    ensures
        r == owned(old(state)@, source, issi),
        final(state)@ == (if r {
            deaffiliated(old(state)@, source, issi, groups@.to_set())
        } else {
            old(state)@
        }),
{
    let ghost want = deaffiliated(old(state)@, source, issi, groups@.to_set());
    match state.subscribers.remove(&issi) {
        Some(mut sub) => {
            if sub.client_id != source {
                state.subscribers.insert(issi, sub);
                assert(state@ =~= old(state)@);
                return false;
            }
            remove_all(&mut sub.groups, groups);
            state.subscribers.insert(issi, sub);
            assert(state@.subscribers =~= want.subscribers);
            leave_groups(&mut state.group_clients, &state.subscribers, groups, source);
            assert(state@ =~= want);
            true
        },
        None => {
            assert(state@ =~= old(state)@);
            false
        },
    }
}

/// Handles a subscriber message.
pub fn handle_subscriber(
    state: &mut BrewState,
    source: u128,
    kind: SubscriberKind,
    issi: u32,
    groups: &Vec<u32>,
) -> (r: Vec<Action>)
    ensures
        final(state)@ == subscribed(old(state)@, source, kind, issi, groups@.to_set()),
        actions_view(r@) == subscriber_actions(old(state)@, source, kind, issi, groups@),
{
    let mut actions: Vec<Action> = Vec::new();
    assert(actions_view(actions@) =~= Seq::<ActionView>::empty());
    let ghost want = subscriber_actions(old(state)@, source, kind, issi, groups@);
    let source_mode = state.client_mode(source);
    let peers = other_peers(&state.clients, source);
    assert(peers@ =~= old(state)@.other_peers(source));
    let mut event: Option<bool> = None;
    match kind {
        SubscriberKind::Register | SubscriberKind::Reregister => {
            register(state, source, issi);
            if source_mode == ClientMode::Terminal {
                event = Some(true);
            }
        },
        SubscriberKind::Deregister => {
            match deregister(state, source, issi) {
                Some(mode) => {
                    if mode == ClientMode::Terminal {
                        event = Some(false);
                    }
                },
                None => {},
            }
        },
        SubscriberKind::Affiliate => {
            if !affiliate(state, source, issi, groups) {
                return actions;
            }
        },
        SubscriberKind::Deaffiliate => {
            if !deaffiliate(state, source, issi, groups) {
                return actions;
            }
        },
        SubscriberKind::Other(_) => {
            return actions;
        },
    }
    if !peers.is_empty() {
        let list = groups.clone();
        assert(list@ =~= groups@);
        actions.push(
            Action::Send { to: peers, frame: Frame::Subscriber { kind, issi, groups: list } },
        );
    }
    match event {
        Some(registered) => {
            actions.push(Action::Registration { issi, registered });
        },
        None => {},
    }
    assert(actions_view(actions@) =~= want);
    actions
}

} // verus!
