//! SDS: where a short message and its report go, and the positions that it may carry.
use crate::brew::{
    actions_view, connected, since, Action, ActionView, BrewState, BrewView, CallPayload, Frame,
    FrameView, LatLon, Now, PayloadView, SdsRoute, SdsRouteView,
};
use crate::table::{has_key, lists, KeySet, Table};
use crate::text::{decimal, hex, push_decimal, push_hex_byte, string_of, trim, trimmed};
use vstd::prelude::*;
use vstd::string::*;

verus! {

// ---- positions ----

/// Length of the header in front of the SDS content of a frame.
pub const FRAME_HEADER: usize = 20;

/// The SDS content of a frame; a frame too short to have any is scanned whole.
pub open spec fn sds_body(raw: Seq<u8>) -> Seq<u8> {
    if raw.len() > FRAME_HEADER {
        raw.skip(FRAME_HEADER as int)
    } else {
        raw
    }
}

fn body_start(raw: &[u8]) -> (r: usize)
    ensures
        r <= raw@.len(),
        raw@.skip(r as int) == sds_body(raw@),
        r == (if raw@.len() > FRAME_HEADER {
            FRAME_HEADER as int
        } else {
            0
        }),
{
    if raw.len() > FRAME_HEADER {
        FRAME_HEADER
    } else {
        assert(raw@.skip(0) =~= raw@);
        0
    }
}

/// Whether a frame may carry a location report: a byte that starts a short or a long report is in
/// its content.
pub fn sds_is_lip(raw: &[u8]) -> (r: bool)
    ensures
        r == exists|i: int|
            0 <= i < sds_body(raw@).len() && (#[trigger] sds_body(raw@)[i] == 0x0A
                || sds_body(raw@)[i] == 0x83),
{
    let start = body_start(raw);
    let ghost body = sds_body(raw@);
    let mut i: usize = start;
    while i < raw.len()
        invariant
            start <= i <= raw@.len(),
            body == raw@.skip(start as int),
            body == sds_body(raw@),
            forall|j: int| 0 <= j < i - start ==> #[trigger] body[j] != 0x0A && body[j] != 0x83,
        decreases raw@.len() - i,
    {
        assert(body[i - start] == raw@[i as int]);
        if raw[i] == 0x0A || raw[i] == 0x83 {
            return true;
        }
        i += 1;
    }
    false
}

/// A way in which a frame may carry a position.
#[derive(Clone, Copy, Debug, PartialEq, Eq, Structural)]
pub enum Candidate {
    /// A long location report that starts at this byte of the frame.
    Long(usize),
    /// A short location report that starts at this byte of the frame.
    Short(usize),
    /// Coordinates in the text of the content.
    Text,
}

/// The places of `raw` from `at` on that hold `b`.
pub open spec fn places(raw: Seq<u8>, at: int, b: u8) -> Seq<int>
    decreases raw.len() - at,
{
    if at < 0 || at >= raw.len() {
        Seq::empty()
    } else if raw[at] == b {
        seq![at] + places(raw, at + 1, b)
    } else {
        places(raw, at + 1, b)
    }
}

/// The ways in which a frame may carry a position, in the order in which they are tried: the long
/// reports, then the short ones, then the text.
pub open spec fn candidates(raw: Seq<u8>) -> Seq<Candidate> {
    let start = raw.len() - sds_body(raw).len();
    places(raw, start, 0x83).map_values(|i: int| Candidate::Long(i as usize)) + places(
        raw,
        start,
        0x0A,
    ).map_values(|i: int| Candidate::Short(i as usize)) + seq![Candidate::Text]
}

fn push_places(raw: &[u8], start: usize, long: bool, out: &mut Vec<Candidate>)
    requires
        start <= raw@.len(),
    ensures
        final(out)@ == old(out)@ + (if long {
            places(raw@, start as int, 0x83).map_values(|i: int| Candidate::Long(i as usize))
        } else {
            places(raw@, start as int, 0x0A).map_values(|i: int| Candidate::Short(i as usize))
        }),
{
    let b: u8 = if long {
        0x83
    } else {
        0x0A
    };
    let ghost f = |i: int| if long { Candidate::Long(i as usize) } else { Candidate::Short(i as usize) };
    let ghost all = places(raw@, start as int, b).map_values(f);
    let mut i: usize = start;
    assert(out@ + places(raw@, i as int, b).map_values(f) =~= old(out)@ + all);
    while i < raw.len()
        invariant
            i <= raw@.len(),
            f == (|i: int| if long { Candidate::Long(i as usize) } else { Candidate::Short(i as usize) }),
            out@ + places(raw@, i as int, b).map_values(f) == old(out)@ + all,
        decreases raw@.len() - i,
    {
        let ghost before = out@;
        if raw[i] == b {
            if long {
                out.push(Candidate::Long(i));
            } else {
                out.push(Candidate::Short(i));
            }
            proof {
                let rest = places(raw@, i + 1, b);
                assert(places(raw@, i as int, b) == seq![i as int] + rest);
                assert((seq![i as int] + rest).map_values(f) =~= seq![f(i as int)] + rest.map_values(f));
                assert(out@ + rest.map_values(f) =~= before + (seq![f(i as int)] + rest.map_values(f)));
            }
        }
        i += 1;
    }
    proof {
        assert(places(raw@, i as int, b) =~= Seq::<int>::empty());
        assert(out@ =~= out@ + places(raw@, i as int, b).map_values(f));
        if long {
            assert(all =~= places(raw@, start as int, 0x83).map_values(|i: int| Candidate::Long(i as usize)));
        } else {
            assert(all =~= places(raw@, start as int, 0x0A).map_values(|i: int| Candidate::Short(i as usize)));
        }
    }
}

/// The ways in which a frame may carry a position, in the order in which they are to be tried.
pub fn position_candidates(raw: &[u8]) -> (r: Vec<Candidate>)
    ensures
        r@ == candidates(raw@),
{
    let start = body_start(raw);
    let mut out: Vec<Candidate> = Vec::new();
    push_places(raw, start, true, &mut out);
    push_places(raw, start, false, &mut out);
    out.push(Candidate::Text);
    assert(start == raw@.len() - sds_body(raw@).len());
    assert(out@ =~= candidates(raw@));
    out
}

/// A byte as printable text: what is no printable ASCII becomes a blank.
pub open spec fn printable(b: u8) -> char {
    if 0x20 <= b <= 0x7e {
        b as char
    } else {
        ' '
    }
}

/// The content of a frame as text.
pub open spec fn sds_text(raw: Seq<u8>) -> Seq<char> {
    sds_body(raw).map_values(|b: u8| printable(b))
}

/// The content of a frame as text.
pub fn body_as_text(raw: &[u8]) -> (r: String)
    ensures
        r@ == sds_text(raw@),
{
    let start = body_start(raw);
    let ghost body = sds_body(raw@);
    let mut out: Vec<char> = Vec::new();
    let mut i: usize = start;
    while i < raw.len()
        invariant
            start <= i <= raw@.len(),
            body == raw@.skip(start as int),
            out@.len() == i - start,
            forall|j: int| 0 <= j < i - start ==> #[trigger] out@[j] == printable(body[j]),
        decreases raw@.len() - i,
    {
        assert(body[i - start] == raw@[i as int]);
        let b = raw[i];
        if 0x20 <= b && b <= 0x7e {
            out.push(b as char);
        } else {
            out.push(' ');
        }
        i += 1;
    }
    assert(out@ =~= sds_text(raw@));
    string_of(out.as_slice())
}

/// A position and how it was found.
pub struct Position {
    pub at: LatLon,
    pub note: String,
}

/// The contents of a `Position`.
#[verifier::ext_equal]
pub struct PositionView {
    pub at: LatLon,
    pub note: Seq<char>,
}

impl View for Position {
    type V = PositionView;

    open spec fn view(&self) -> PositionView {
        PositionView { at: self.at, note: self.note@ }
    }
}

/// The contents of an optional position.
pub open spec fn opt_position(p: Option<Position>) -> Option<PositionView> {
    match p {
        Some(p) => Some(p@),
        None => None,
    }
}

/// How a position was found.
pub open spec fn note_of(raw: Seq<u8>, c: Candidate) -> Seq<char> {
    match c {
        Candidate::Long(_) => "LIP long location report"@,
        Candidate::Short(_) => "LIP short location report"@,
        Candidate::Text => trim(sds_text(raw)),
    }
}

/// The first of the candidates from `k` on that was decoded.
pub open spec fn first_decoded(
    raw: Seq<u8>,
    decoded: Seq<Option<LatLon>>,
    k: int,
) -> Option<PositionView>
    decreases candidates(raw).len() - k,
{
    if k < 0 || k >= candidates(raw).len() || k >= decoded.len() {
        None
    } else {
        match decoded[k] {
            Some(at) => Some(PositionView { at, note: note_of(raw, candidates(raw)[k]) }),
            None => first_decoded(raw, decoded, k + 1),
        }
    }
}

/// The position that a frame carries: that of the first candidate that could be decoded, where
/// `decoded` holds the outcome of decoding each candidate.
pub fn extract_sds_position(raw: &[u8], decoded: &[Option<LatLon>]) -> (r: Option<Position>)
    ensures
        opt_position(r) == first_decoded(raw@, decoded@, 0),
{
    let cs = position_candidates(raw);
    let mut k: usize = 0;
    while k < cs.len() && k < decoded.len()
        invariant
            k <= cs@.len(),
            k <= decoded@.len(),
            cs@ == candidates(raw@),
            first_decoded(raw@, decoded@, 0) == first_decoded(raw@, decoded@, k as int),
        decreases cs@.len() - k,
    {
        match decoded[k] {
            Some(at) => {
                let note = match cs[k] {
                    Candidate::Long(_) => "LIP long location report".to_string(),
                    Candidate::Short(_) => "LIP short location report".to_string(),
                    Candidate::Text => {
                        let text = body_as_text(raw);
                        trimmed(text.as_str())
                    },
                };
                return Some(Position { at, note });
            },
            None => {},
        }
        k += 1;
    }
    None
}

// ---- dumps ----

/// How many bytes a dump shows.
pub const DUMP_MAX: usize = 64;

/// The bytes in hexadecimal, separated by blanks.
pub open spec fn hex_bytes(bytes: Seq<u8>) -> Seq<char>
    decreases bytes.len(),
{
    if bytes.len() == 0 {
        Seq::empty()
    } else if bytes.len() == 1 {
        hex(bytes[0] as nat, 2)
    } else {
        hex_bytes(bytes.drop_last()) + seq![' '] + hex(bytes.last() as nat, 2)
    }
}

/// A dump of `bytes`: the first of them, and how many more there are.
pub open spec fn dump(bytes: Seq<u8>) -> Seq<char> {
    if bytes.len() > DUMP_MAX {
        hex_bytes(bytes.take(DUMP_MAX as int)) + " … (+"@ + decimal((bytes.len() - DUMP_MAX) as nat)
            + " more)"@
    } else {
        hex_bytes(bytes)
    }
}

/// Renders bytes as compact hexadecimal for a log.
pub fn hex_dump(bytes: &[u8]) -> (r: String)
    ensures
        r@ == dump(bytes@),
{
    let n: usize = if bytes.len() > DUMP_MAX {
        DUMP_MAX
    } else {
        bytes.len()
    };
    let mut out = String::new();
    let mut i: usize = 0;
    while i < n
        invariant
            i <= n <= bytes@.len(),
            out@ == hex_bytes(bytes@.take(i as int)),
        decreases n - i,
    {
        let ghost shown = bytes@.take(i + 1);
        assert(shown.drop_last() =~= bytes@.take(i as int));
        assert(shown.last() == bytes@[i as int]);
        if i > 0 {
            out.push(' ');
        } else {
            assert(out@ =~= Seq::<char>::empty());
        }
        let ghost mid = out@;
        push_hex_byte(&mut out, bytes[i]);
        assert(out@ =~= hex_bytes(shown));
        i += 1;
    }
    if bytes.len() > DUMP_MAX {
        out.append(" … (+");
        push_decimal(&mut out, (bytes.len() - DUMP_MAX) as u64);
        out.append(" more)");
    } else {
        assert(bytes@.take(n as int) =~= bytes@);
    }
    out
}

// ---- routing ----

/// Who an SDS goes to: the client of the addressed subscriber and those of the addressed group, but
/// never its source.
pub open spec fn sds_targets(s: BrewView, source: u128, destination: u32) -> Set<u128> {
    let group = s.affiliated(destination);
    (if s.subscribers.contains_key(destination) {
        group.insert(s.subscribers[destination].client_id)
    } else {
        group
    }).remove(source)
}

/// The record of a position, where there is one.
pub open spec fn position_actions(issi: u32, p: Option<PositionView>) -> Seq<ActionView> {
    match p {
        Some(p) => seq![ActionView::Position { issi, at: p.at, note: p.note }],
        None => Seq::empty(),
    }
}

fn push_position(actions: &mut Vec<Action>, issi: u32, p: Option<Position>)
    ensures
        actions_view(final(actions)@) == actions_view(old(actions)@) + position_actions(
            issi,
            opt_position(p),
        ),
{
    let ghost before = actions@;
    match p {
        Some(p) => {
            actions.push(Action::Position { issi, at: p.at, note: p.note });
        },
        None => {},
    }
    assert(actions_view(actions@) =~= actions_view(before) + position_actions(issi, opt_position(p)));
}

/// What the header of an SDS changes and causes.
pub open spec fn sds_header(
    s: BrewView,
    source: u128,
    id: u128,
    payload: PayloadView,
    position: Option<PositionView>,
    now: Now,
) -> (BrewView, Seq<ActionView>) {
    match payload {
        PayloadView::ShortTransfer { source: issi, destination } => {
            let targets = sds_targets(s, source, destination);
            let route = SdsRouteView {
                source_client: source,
                targets,
                source_issi: issi,
                destination,
                created_at: now.mono_ns,
            };
            let s2 = BrewView { sds_routes: s.sds_routes.insert(id, route), ..s };
            let noted = position_actions(issi, position);
            if targets =~= Set::<u128>::empty() {
                (s2, noted)
            } else {
                (
                    s2,
                    noted + seq![
                        ActionView::Send { to: s.connected(targets), frame: FrameView::Verbatim },
                        ActionView::Sds { id, source: issi, destination },
                    ],
                )
            }
        },
        _ => (s, Seq::empty()),
    }
}

/// Handles the header of an SDS: remembers where its parts go, even if nowhere, and forwards it.
pub fn handle_sds_header(
    state: &mut BrewState,
    source: u128,
    id: u128,
    payload: &CallPayload,
    position: Option<Position>,
    now: Now,
) -> (r: Vec<Action>)
    ensures
        (final(state)@, actions_view(r@)) == sds_header(
            old(state)@,
            source,
            id,
            payload@,
            opt_position(position),
            now,
        ),
{
    let ghost want = sds_header(old(state)@, source, id, payload@, opt_position(position), now);
    let mut actions: Vec<Action> = Vec::new();
    assert(actions_view(actions@) =~= Seq::<ActionView>::empty());
    match payload {
        CallPayload::ShortTransfer { source: issi, destination } => {
            push_position(&mut actions, *issi, position);
            let mut targets = match state.group_clients.get(destination) {
                Some(t) => t.dup(),
                None => KeySet::new(),
            };
            match state.subscribers.get(destination) {
                Some(sub) => {
                    targets.insert(sub.client_id);
                },
                None => {},
            }
            targets.remove(&source);
            let reached = connected(&state.clients, &targets);
            let none = targets.is_empty();
            state.sds_routes.insert(
                id,
                SdsRoute {
                    source_client: source,
                    targets,
                    source_issi: *issi,
                    destination: *destination,
                    created_at: now.mono_ns,
                },
            );
            let ghost noted = actions_view(actions@);
            if !none {
                actions.push(Action::Send { to: reached, frame: Frame::Verbatim });
                actions.push(Action::Sds { id, source: *issi, destination: *destination });
            }
            assert(noted =~= position_actions(*issi, opt_position(position)));
            assert(state@ =~= want.0);
            assert(actions_view(actions@) =~= want.1);
        },
        _ => {},
    }
    actions
}

/// What the content of an SDS causes.
pub open spec fn sds_transfer(
    s: BrewView,
    source: u128,
    id: u128,
    position: Option<PositionView>,
) -> Seq<ActionView> {
    if s.sds_routes.contains_key(id) {
        let route = s.sds_routes[id];
        if route.source_client == source {
            seq![ActionView::Send { to: s.connected(route.targets), frame: FrameView::Verbatim }]
                + position_actions(route.source_issi, position)
        } else {
            Seq::empty()
        }
    } else {
        position_actions(0, position)
    }
}

/// Handles the content of an SDS: forwards it where its header went. A position is noted also
/// where no header came before, under the ISSI 0.
pub fn handle_sds_transfer(
    state: &BrewState,
    source: u128,
    id: u128,
    position: Option<Position>,
) -> (r: Vec<Action>)
    ensures
        actions_view(r@) == sds_transfer(state@, source, id, opt_position(position)),
{
    let mut actions: Vec<Action> = Vec::new();
    assert(actions_view(actions@) =~= Seq::<ActionView>::empty());
    let issi: u32 = match state.sds_routes.get(&id) {
        Some(route) => {
            if route.source_client != source {
                return actions;
            }
            let reached = connected(&state.clients, &route.targets);
            actions.push(Action::Send { to: reached, frame: Frame::Verbatim });
            route.source_issi
        },
        None => 0,
    };
    push_position(&mut actions, issi, position);
    assert(actions_view(actions@) =~= sds_transfer(state@, source, id, opt_position(position)));
    actions
}

/// What a delivery report changes and causes. A report on an SDS to one client completes it.
pub open spec fn sds_report(s: BrewView, source: u128, id: u128) -> (BrewView, Seq<ActionView>) {
    if s.sds_routes.contains_key(id) && s.sds_routes[id].targets.contains(source) {
        let route = s.sds_routes[id];
        (
            BrewView {
                sds_routes: if route.targets.len() == 1 {
                    s.sds_routes.remove(id)
                } else {
                    s.sds_routes
                },
                ..s
            },
            seq![
                ActionView::Send {
                    to: s.connected(set![route.source_client]),
                    frame: FrameView::Verbatim,
                },
                ActionView::SdsReport { id },
            ],
        )
    } else {
        (s, Seq::empty())
    }
}

/// Handles a delivery report: back to where the SDS came from.
pub fn handle_sds_report(state: &mut BrewState, source: u128, id: u128) -> (r: Vec<Action>)
    ensures
        (final(state)@, actions_view(r@)) == sds_report(old(state)@, source, id),
{
    let ghost want = sds_report(old(state)@, source, id);
    let mut actions: Vec<Action> = Vec::new();
    assert(actions_view(actions@) =~= Seq::<ActionView>::empty());
    let (origin, single): (u128, bool) = match state.sds_routes.get(&id) {
        Some(route) => {
            if !route.targets.contains(&source) {
                return actions;
            }
            (route.source_client, route.targets.len() == 1)
        },
        None => {
            return actions;
        },
    };
    if single {
        let _ = state.sds_routes.remove(&id);
    }
    let mut back: KeySet<u128> = KeySet::new();
    back.insert(origin);
    let reached = connected(&state.clients, &back);
    assert(back@ =~= set![origin]);
    actions.push(Action::Send { to: reached, frame: Frame::Verbatim });
    actions.push(Action::SdsReport { id });
    assert(state@ =~= want.0);
    assert(actions_view(actions@) =~= want.1);
    actions
}

// ---- the end of routes ----

/// Whether the route has been kept for less than the time to live.
pub open spec fn fresh(route: SdsRouteView, ttl_ns: u128, now: Now) -> bool {
    since(route.created_at as int, now.mono_ns as int) < ttl_ns
}

/// The state with the SDS routes that have been kept for less than the time to live.
pub open spec fn routes_purged(s: BrewView, ttl_ns: u128, now: Now) -> BrewView {
    BrewView {
        sds_routes: s.sds_routes.restrict(
            Set::new(|k: u128| fresh(s.sds_routes[k], ttl_ns, now)),
        ),
        ..s
    }
}

/// Forgets the SDS routes that have been kept for the time to live.
pub fn purge_ephemeral(state: &mut BrewState, ttl_ns: u128, now: Now)
    ensures
        final(state)@ == routes_purged(old(state)@, ttl_ns, now),
{
    let ghost before = state@;
    let mut kept: Table<u128, SdsRoute> = Table::new();
    let n = state.sds_routes.len();
    let ghost items = state.sds_routes.items();
    let mut i: usize = 0;
    while i < n
        invariant
            i <= n,
            state@ == before,
            items == state.sds_routes.items(),
            n == items.len(),
            lists(items, state.sds_routes@),
            forall|k: u128| #[trigger]
                kept@.contains_key(k) <==> exists|j: int|
                    0 <= j < i && #[trigger] items[j].0 == k && fresh(items[j].1, ttl_ns, now),
            forall|k: u128| #[trigger]
                kept@.contains_key(k) ==> kept@[k] == state.sds_routes@[k],
        decreases n - i,
    {
        let route = state.sds_routes.value_at(i);
        assert(items[i as int].1 == state.sds_routes@[items[i as int].0]);
        if now.mono_ns.saturating_sub(route.created_at) < ttl_ns {
            let copy = SdsRoute {
                source_client: route.source_client,
                targets: route.targets.dup(),
                source_issi: route.source_issi,
                destination: route.destination,
                created_at: route.created_at,
            };
            assert(copy@ =~= route@);
            kept.insert(*state.sds_routes.key_at(i), copy);
        }
        i += 1;
    }
    proof {
        let want = routes_purged(before, ttl_ns, now).sds_routes;
        assert forall|k: u128| #[trigger] kept@.contains_key(k) == want.contains_key(k) by {
            if before.sds_routes.contains_key(k) {
                assert(has_key(items, k));
                let j = choose|j: int| 0 <= j < items.len() && #[trigger] items[j].0 == k;
                assert(items[j].0 == k);
            }
            if kept@.contains_key(k) {
                let j = choose|j: int|
                    0 <= j < n && #[trigger] items[j].0 == k && fresh(items[j].1, ttl_ns, now);
                assert(state.sds_routes@.contains_key(items[j].0));
            }
        }
        assert(kept@ =~= want);
    }
    state.sds_routes = kept;
}

/// A report that comes in after the time to live of its SDS reaches nobody, and one that comes in
/// before is handled as if nothing had been forgotten.
pub proof fn reports_return_until_the_end(
    s: BrewView,
    source: u128,
    id: u128,
    ttl_ns: u128,
    now: Now,
)
    requires
        s.sds_routes.contains_key(id),
    ensures
        ({
            let t = routes_purged(s, ttl_ns, now);
            if fresh(s.sds_routes[id], ttl_ns, now) {
                sds_report(t, source, id).1 == sds_report(s, source, id).1
            } else {
                sds_report(t, source, id) == (t, Seq::<ActionView>::empty())
            }
        }),
{
}

} // verus!
