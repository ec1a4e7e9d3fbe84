//! What group transmissions do: who gets them, who wins the floor, and what becomes of the loser.
use crate::brew::{
    ActionView, BrewView, CallKind, CallState, FrameKind, FrameView, MessageView, Now, PayloadView,
};
use crate::config::Config;
use crate::router::{group_targets, message_handled, occupant};
use crate::router_laws::{
    clients_where, control, end_reaches_everyone_else, forward, frames_reach_everyone_else, indexed,
    takes_part,
};
use crate::sds::PositionView;
use vstd::prelude::*;

verus! {

/// A transmission to a group.
pub open spec fn transmission(id: u128, issi: u32, gssi: u32, priority: u8) -> MessageView {
    control(
        CallState::GroupTx,
        id,
        PayloadView::GroupTransmission { source: issi, destination: gssi, priority },
    )
}

/// Whether a transmission to the group is meant for the client: for those with a subscriber in the
/// group, and for every connected client where affiliations do not count, or where the group has none
/// and calls to such groups are broadcast; never for the client that it came from.
pub open spec fn meant_for(s: BrewView, config: Config, source: u128, gssi: u32, c: u128) -> bool {
    let nobody = forall|d: u128| !#[trigger] indexed(s, gssi, d);
    c != source && (if config.route_without_affiliations || (nobody
        && config.fallback_broadcast_when_no_affiliations) {
        s.clients.contains_key(c)
    } else {
        indexed(s, gssi, c)
    })
}

/// Whether the floor of the group is with another call that is in progress.
pub open spec fn busy(s: BrewView, config: Config, gssi: u32, id: u128) -> bool {
    &&& !config.allow_multiple_calls_per_group
    &&& s.group_floor.contains_key(gssi)
    &&& s.group_floor[gssi] != id
    &&& s.calls.contains_key(s.group_floor[gssi])
}

/// Whether a priority is above another.
pub open spec fn outranks(config: Config, new: u8, old: u8) -> bool {
    new != old && ((new > old) == config.higher_priority_number_wins)
}

proof fn lemma_targets(s: BrewView, config: Config, source: u128, gssi: u32)
    ensures
        forall|c: u128| #[trigger]
            group_targets(s, config, source, gssi).contains(c) <==> meant_for(
                s,
                config,
                source,
                gssi,
                c,
            ),
{
    let a = s.affiliated(gssi);
    assert(forall|d: u128| #[trigger] indexed(s, gssi, d) <==> a.contains(d));
    if forall|d: u128| !#[trigger] indexed(s, gssi, d) {
        assert forall|d: u128| !a.contains(d) by {
            assert(!indexed(s, gssi, d));
        }
        assert(a =~= Set::<u128>::empty());
    } else {
        let d = choose|d: u128| #[trigger] indexed(s, gssi, d);
        assert(a.contains(d));
    }
}

/// A transmission to a group whose floor is free, or its own, goes to every connected client that it
/// is meant for and to nobody else; its call has the floor from then on.
pub proof fn free_floor_is_taken(
    s: BrewView,
    config: Config,
    source: u128,
    id: u128,
    issi: u32,
    gssi: u32,
    priority: u8,
    position: Option<PositionView>,
    now: Now,
)
    requires
        !busy(s, config, gssi, id),
    ensures
        ({
            let (t, actions) = message_handled(
                s,
                config,
                source,
                transmission(id, issi, gssi, priority),
                position,
                now,
            );
            &&& actions == seq![
                forward(clients_where(s, |c: u128| meant_for(s, config, source, gssi, c))),
                ActionView::CallStarted {
                    id,
                    kind: CallKind::Group,
                    source: issi,
                    destination: gssi,
                    priority,
                },
            ]
            &&& new_call(t, s, config, source, id, issi, gssi, priority, now)
            &&& t == (BrewView {
                calls: s.calls.insert(id, t.calls[id]),
                group_floor: s.group_floor.insert(gssi, id),
                ..s
            })
        }),
{
    lemma_targets(s, config, source, gssi);
    assert(s.connected(group_targets(s, config, source, gssi)) =~= clients_where(
        s,
        |c: u128| meant_for(s, config, source, gssi, c),
    ));
}

/// The call of a transmission: its owner is where it came from, and its listeners are those that it
/// is meant for.
pub open spec fn new_call(
    t: BrewView,
    s: BrewView,
    config: Config,
    source: u128,
    id: u128,
    issi: u32,
    gssi: u32,
    priority: u8,
    now: Now,
) -> bool {
    let call = t.calls[id];
    &&& t.calls.contains_key(id)
    &&& call.kind == CallKind::Group
    &&& call.owner == source
    &&& call.source_issi == issi
    &&& call.destination == gssi
    &&& call.priority == priority
    &&& call.started_at == now.mono_ns
    &&& call.last_activity_ms == now.epoch_ms
    &&& forall|c: u128| #[trigger]
        call.peers.contains(c) <==> meant_for(s, config, source, gssi, c)
}

/// A transmission that does not outrank the call that has the floor, an equal one included, does
/// nothing at all.
pub proof fn busy_floor_is_kept(
    s: BrewView,
    config: Config,
    source: u128,
    id: u128,
    issi: u32,
    gssi: u32,
    priority: u8,
    position: Option<PositionView>,
    now: Now,
)
    requires
        busy(s, config, gssi, id),
        !outranks(config, priority, s.calls[s.group_floor[gssi]].priority),
    ensures
        message_handled(s, config, source, transmission(id, issi, gssi, priority), position, now)
            == (s, Seq::<ActionView>::empty()),
{
}

/// A transmission that outranks the call that has the floor takes it: the other call is gone, every
/// connected participant of it is told with the configured cause that the group is idle, and then the
/// transmission goes to every connected client that it is meant for.
pub proof fn outranked_call_loses_the_floor(
    s: BrewView,
    config: Config,
    source: u128,
    id: u128,
    issi: u32,
    gssi: u32,
    priority: u8,
    position: Option<PositionView>,
    now: Now,
)
    requires
        busy(s, config, gssi, id),
        outranks(config, priority, s.calls[s.group_floor[gssi]].priority),
    ensures
        ({
            let loser = s.group_floor[gssi];
            let (t, actions) = message_handled(
                s,
                config,
                source,
                transmission(id, issi, gssi, priority),
                position,
                now,
            );
            &&& actions == seq![
                ActionView::Send {
                    to: clients_where(s, |c: u128| takes_part(s.calls[loser], c)),
                    frame: FrameView::CallCause {
                        state: CallState::GroupIdle,
                        call: loser,
                        cause: config.preempt_cause,
                    },
                },
                forward(clients_where(s, |c: u128| meant_for(s, config, source, gssi, c))),
                ActionView::CallEnded { id: loser },
                ActionView::TeardownBridge { id: loser },
                ActionView::CallStarted {
                    id,
                    kind: CallKind::Group,
                    source: issi,
                    destination: gssi,
                    priority,
                },
            ]
            &&& !t.calls.contains_key(loser)
            &&& new_call(t, s, config, source, id, issi, gssi, priority, now)
            &&& t == (BrewView {
                calls: s.calls.remove(loser).insert(id, t.calls[id]),
                group_floor: s.group_floor.insert(gssi, id),
                ..s
            })
        }),
{
    let loser = s.group_floor[gssi];
    lemma_targets(s, config, source, gssi);
    assert(occupant(s, config, gssi, id) == Some(loser));
    assert(s.connected(group_targets(s, config, source, gssi)) =~= clients_where(
        s,
        |c: u128| meant_for(s, config, source, gssi, c),
    ));
    assert(s.connected(s.calls[loser].participants()) =~= clients_where(
        s,
        |c: u128| takes_part(s.calls[loser], c),
    ));
}

/// A transmission control message without the particulars of a transmission does nothing.
pub proof fn transmission_without_particulars_is_ignored(
    s: BrewView,
    config: Config,
    source: u128,
    id: u128,
    payload: PayloadView,
    position: Option<PositionView>,
    now: Now,
)
    requires
        !(payload is GroupTransmission),
    ensures
        message_handled(
            s,
            config,
            source,
            control(CallState::GroupTx, id, payload),
            position,
            now,
        ) == (s, Seq::<ActionView>::empty()),
{
}

/// A group call from its transmission to its end: the speaker's voice and DTMF reach every connected
/// listener, and when the speaker is done they are told, and the floor is free for any other
/// transmission, whatever its priority.
pub proof fn group_call_is_heard_to_its_end(
    s: BrewView,
    config: Config,
    speaker: u128,
    id: u128,
    issi: u32,
    gssi: u32,
    priority: u8,
    frame: FrameKind,
    done: CallState,
    payload: PayloadView,
    now: Now,
    later: Now,
    other: u128,
)
    requires
        !busy(s, config, gssi, id),
        frame == FrameKind::Traffic || frame == FrameKind::Dtmf,
        done == CallState::GroupIdle || done == CallState::Release,
    ensures
        ({
            let listeners = clients_where(
                s,
                |c: u128| meant_for(s, config, speaker, gssi, c),
            );
            let t = message_handled(
                s,
                config,
                speaker,
                transmission(id, issi, gssi, priority),
                None,
                now,
            ).0;
            let voice = message_handled(
                t,
                config,
                speaker,
                MessageView::Frame { frame, id },
                None,
                later,
            );
            let end = message_handled(
                voice.0,
                config,
                speaker,
                control(done, id, payload),
                None,
                later,
            );
            &&& voice.1.last() == forward(listeners)
            &&& end.1[0] == forward(listeners)
            &&& !end.0.calls.contains_key(id)
            &&& !end.0.group_floor.contains_key(gssi)
            &&& !busy(end.0, config, gssi, other)
        }),
{
    free_floor_is_taken(s, config, speaker, id, issi, gssi, priority, None, now);
    let t = message_handled(
        s,
        config,
        speaker,
        transmission(id, issi, gssi, priority),
        None,
        now,
    ).0;
    frames_reach_everyone_else(t, config, speaker, id, frame, None, later);
    let voice = message_handled(t, config, speaker, MessageView::Frame { frame, id }, None, later);
    end_reaches_everyone_else(voice.0, config, speaker, id, done, payload, None, later);
    let listeners = clients_where(s, |c: u128| meant_for(s, config, speaker, gssi, c));
    let call = t.calls[id];
    let call2 = voice.0.calls[id];
    assert(clients_where(
        t,
        |c: u128|
            c != speaker && (call.peers.contains(c) || (call.kind == CallKind::Private && c
                == call.owner)),
    ) =~= listeners);
    assert(clients_where(
        voice.0,
        |c: u128|
            c != speaker && (call2.peers.contains(c) || (call2.kind == CallKind::Private && c
                == call2.owner)),
    ) =~= listeners);
    let end = message_handled(
        voice.0,
        config,
        speaker,
        control(done, id, payload),
        None,
        later,
    );
    assert(!end.0.group_floor.contains_key(gssi));
}

} // verus!
