//! What short messages do, told client by client: where a header, its content and its reports go, and
//! which positions are recorded for whom.
use crate::brew::{
    ActionView, BrewView, CallState, FrameKind, LatLon, MessageView, Now, PayloadView,
};
use crate::config::Config;
use crate::router::message_handled;
use crate::router_laws::{clients_where, control, forward, indexed};
use crate::sds::{
    candidates, dump, first_decoded, places, sds_body, sds_targets, sds_text, Candidate,
    PositionView,
};
use crate::text::{decimal, hex, trim};
use vstd::prelude::*;

verus! {

/// The header of an SDS.
pub open spec fn header(id: u128, issi: u32, destination: u32) -> MessageView {
    control(
        CallState::ShortTransfer,
        id,
        PayloadView::ShortTransfer { source: issi, destination },
    )
}

/// The content of an SDS.
pub open spec fn content(id: u128) -> MessageView {
    MessageView::Frame { frame: FrameKind::SdsTransfer, id }
}

/// The report on an SDS.
pub open spec fn report(id: u128) -> MessageView {
    MessageView::Frame { frame: FrameKind::SdsReport, id }
}

/// Whether an SDS to the destination is for the client: it has the subscriber of that number, or one
/// in the group of that number, and the SDS did not come from it.
pub open spec fn addressed(s: BrewView, source: u128, destination: u32, c: u128) -> bool {
    c != source && (indexed(s, destination, c) || (s.subscribers.contains_key(destination)
        && s.subscribers[destination].client_id == c))
}

/// The record of a position, where there is one.
pub open spec fn recorded(issi: u32, position: Option<PositionView>) -> Seq<ActionView> {
    match position {
        Some(p) => seq![ActionView::Position { issi, at: p.at, note: p.note }],
        None => Seq::empty(),
    }
}

proof fn lemma_addressed(s: BrewView, source: u128, destination: u32)
    ensures
        forall|c: u128| #[trigger]
            sds_targets(s, source, destination).contains(c) <==> addressed(
                s,
                source,
                destination,
                c,
            ),
{
}

/// The header of an SDS goes to every connected client that it is addressed to and to nobody else,
/// and its route is kept, whether or not it is addressed to anyone; a position in it is recorded for
/// the sender.
pub proof fn header_reaches_the_addressed(
    s: BrewView,
    config: Config,
    source: u128,
    id: u128,
    issi: u32,
    destination: u32,
    position: Option<PositionView>,
    now: Now,
)
    ensures
        ({
            let (t, actions) = message_handled(
                s,
                config,
                source,
                header(id, issi, destination),
                position,
                now,
            );
            let route = t.sds_routes[id];
            let anyone = exists|c: u128| #[trigger] addressed(s, source, destination, c);
            &&& route.source_client == source
            &&& route.source_issi == issi
            &&& route.destination == destination
            &&& route.created_at == now.mono_ns
            &&& forall|c: u128| #[trigger]
                route.targets.contains(c) <==> addressed(s, source, destination, c)
            &&& t == (BrewView { sds_routes: s.sds_routes.insert(id, route), ..s })
            &&& anyone ==> actions == recorded(issi, position) + seq![
                forward(clients_where(s, |c: u128| addressed(s, source, destination, c))),
                ActionView::Sds { id, source: issi, destination },
            ]
            &&& !anyone ==> actions == recorded(issi, position)
        }),
{
    lemma_addressed(s, source, destination);
    let targets = sds_targets(s, source, destination);
    assert(s.connected(targets) =~= clients_where(
        s,
        |c: u128| addressed(s, source, destination, c),
    ));
    if exists|c: u128| #[trigger] addressed(s, source, destination, c) {
        let c = choose|c: u128| #[trigger] addressed(s, source, destination, c);
        assert(targets.contains(c));
    } else {
        assert forall|c: u128| !targets.contains(c) by {
            assert(!addressed(s, source, destination, c));
        }
        assert(targets =~= Set::<u128>::empty());
    }
}

/// A short transfer without the particulars of one does nothing.
pub proof fn header_without_particulars_is_ignored(
    s: BrewView,
    config: Config,
    source: u128,
    id: u128,
    payload: PayloadView,
    position: Option<PositionView>,
    now: Now,
)
    requires
        !(payload is ShortTransfer),
    ensures
        message_handled(
            s,
            config,
            source,
            control(CallState::ShortTransfer, id, payload),
            position,
            now,
        ) == (s, Seq::<ActionView>::empty()),
{
}

/// The content of an SDS, with or without a position in it, goes to every connected target of its
/// route and to nobody else; the position, if there is one, is recorded for the sender of the header
/// besides.
pub proof fn content_reaches_the_targets(
    s: BrewView,
    config: Config,
    source: u128,
    id: u128,
    position: Option<PositionView>,
    now: Now,
)
    requires
        s.sds_routes.contains_key(id),
        s.sds_routes[id].source_client == source,
    ensures
        message_handled(s, config, source, content(id), position, now) == (
            s,
            seq![forward(clients_where(s, |c: u128| s.sds_routes[id].targets.contains(c)))]
                + recorded(s.sds_routes[id].source_issi, position),
        ),
{
    assert(s.connected(s.sds_routes[id].targets) =~= clients_where(
        s,
        |c: u128| s.sds_routes[id].targets.contains(c),
    ));
}

/// Content from another client than the header came from is dropped whole, and content without a
/// header goes nowhere, but a position in it is recorded under the number 0.
pub proof fn content_without_its_header_goes_nowhere(
    s: BrewView,
    config: Config,
    source: u128,
    id: u128,
    position: Option<PositionView>,
    now: Now,
)
    requires
        s.sds_routes.contains_key(id) ==> s.sds_routes[id].source_client != source,
    ensures
        message_handled(s, config, source, content(id), position, now) == (
            s,
            if s.sds_routes.contains_key(id) {
                Seq::empty()
            } else {
                recorded(0, position)
            },
        ),
{
}

/// The report of a target goes to the client that the SDS came from, and to nobody else. It is the
/// last one where there was one target only, and otherwise the route is kept for the others.
pub proof fn report_goes_back(
    s: BrewView,
    config: Config,
    source: u128,
    id: u128,
    position: Option<PositionView>,
    now: Now,
)
    requires
        s.sds_routes.contains_key(id),
        s.sds_routes[id].targets.contains(source),
    ensures
        ({
            let route = s.sds_routes[id];
            let (t, actions) = message_handled(s, config, source, report(id), position, now);
            &&& actions == seq![
                forward(clients_where(s, |c: u128| c == route.source_client)),
                ActionView::SdsReport { id },
            ]
            &&& t == (BrewView { sds_routes: t.sds_routes, ..s })
            &&& t.sds_routes == (if route.targets.len() == 1 {
                s.sds_routes.remove(id)
            } else {
                s.sds_routes
            })
        }),
{
    let route = s.sds_routes[id];
    assert(s.connected(set![route.source_client]) =~= clients_where(
        s,
        |c: u128| c == route.source_client,
    ));
}

/// A report by anyone else, or on an SDS that is not known, does nothing.
pub proof fn other_reports_are_ignored(
    s: BrewView,
    config: Config,
    source: u128,
    id: u128,
    position: Option<PositionView>,
    now: Now,
)
    requires
        s.sds_routes.contains_key(id) ==> !s.sds_routes[id].targets.contains(source),
    ensures
        message_handled(s, config, source, report(id), position, now) == (
            s,
            Seq::<ActionView>::empty(),
        ),
{
}

/// An SDS from its header to its report: the content, with or without a position, goes to exactly
/// those that the header went to, and the report of any of them back to the sender's client.
pub proof fn sds_goes_there_and_back(
    s: BrewView,
    config: Config,
    source: u128,
    id: u128,
    issi: u32,
    destination: u32,
    in_header: Option<PositionView>,
    in_content: Option<PositionView>,
    target: u128,
    now: Now,
    later: Now,
)
    requires
        addressed(s, source, destination, target),
        s.clients.contains_key(source),
    ensures
        ({
            let to = clients_where(s, |c: u128| addressed(s, source, destination, c));
            let (t, first) = message_handled(
                s,
                config,
                source,
                header(id, issi, destination),
                in_header,
                now,
            );
            let (u, second) = message_handled(t, config, source, content(id), in_content, later);
            let third = message_handled(u, config, target, report(id), None, later).1;
            &&& first.contains(forward(to))
            &&& second == seq![forward(to)] + recorded(issi, in_content)
            &&& third[0] == forward(set![source])
        }),
{
    header_reaches_the_addressed(s, config, source, id, issi, destination, in_header, now);
    let (t, first) = message_handled(
        s,
        config,
        source,
        header(id, issi, destination),
        in_header,
        now,
    );
    content_reaches_the_targets(t, config, source, id, in_content, later);
    let u = message_handled(t, config, source, content(id), in_content, later).0;
    report_goes_back(u, config, target, id, None, later);
    let to = clients_where(s, |c: u128| addressed(s, source, destination, c));
    assert(clients_where(t, |c: u128| t.sds_routes[id].targets.contains(c)) =~= to);
    assert(clients_where(u, |c: u128| c == source) =~= set![source]);
    assert(first[recorded(issi, in_header).len() as int] == forward(to));
}

// ---- positions ----

/// Where a byte stands in the content of a frame: behind the header of twenty bytes, or anywhere in a
/// frame that is no longer than that.
pub open spec fn in_content(raw: Seq<u8>, i: int) -> bool {
    0 <= i < raw.len() && (raw.len() > 20 ==> i >= 20)
}

proof fn lemma_places(raw: Seq<u8>, at: int, b: u8)
    requires
        0 <= at <= raw.len(),
    ensures
        forall|k: int|
            0 <= k < places(raw, at, b).len() ==> at <= (#[trigger] places(raw, at, b)[k]) < raw.len()
                && raw[places(raw, at, b)[k]] == b,
        forall|i: int| at <= i < raw.len() && raw[i] == b ==> #[trigger] places(raw, at, b).contains(i),
        forall|k: int, l: int|
            0 <= k < l < places(raw, at, b).len() ==> (#[trigger] places(raw, at, b)[k]) < (
            #[trigger] places(raw, at, b)[l]),
    decreases raw.len() - at,
{
    if at < raw.len() {
        lemma_places(raw, at + 1, b);
        let rest = places(raw, at + 1, b);
        let all = places(raw, at, b);
        if raw[at] == b {
            assert(all =~= seq![at] + rest);
            assert forall|k: int| 0 < k < all.len() implies #[trigger] all[k] == rest[k - 1] by {}
            assert forall|i: int| at <= i < raw.len() && raw[i] == b implies #[trigger] all.contains(
                i,
            ) by {
                if i == at {
                    assert(all[0] == at);
                } else {
                    assert(rest.contains(i));
                    let k = choose|k: int| 0 <= k < rest.len() && rest[k] == i;
                    assert(all[k + 1] == i);
                }
            }
        }
    }
}

/// The candidates for a position are the places in the content with the byte of a long report, then
/// those with the byte of a short one, each in the order in which they stand, and last the text.
pub proof fn candidates_are_long_short_text(raw: Seq<u8>, i: int, j: int)
    requires
        raw.len() <= usize::MAX,
        0 <= i < j < candidates(raw).len(),
    ensures
        candidates(raw).last() == Candidate::Text,
        candidates(raw)[i] matches Candidate::Long(p) ==> in_content(raw, p as int) && raw[p as int]
            == 0x83,
        candidates(raw)[i] matches Candidate::Short(p) ==> in_content(raw, p as int)
            && raw[p as int] == 0x0A,
        !(candidates(raw)[i] is Text),
        candidates(raw)[j] is Long ==> candidates(raw)[i] is Long,
        candidates(raw)[i] matches Candidate::Long(p) ==> (candidates(raw)[j] matches Candidate::Long(
            q,
        ) ==> p < q),
        candidates(raw)[i] matches Candidate::Short(p) ==> (candidates(
            raw,
        )[j] matches Candidate::Short(q) ==> p < q),
{
    let start = raw.len() - sds_body(raw).len();
    lemma_places(raw, start, 0x83);
    lemma_places(raw, start, 0x0A);
    let a = places(raw, start, 0x83);
    let b = places(raw, start, 0x0A);
    let cs = candidates(raw);
    assert(cs.len() == a.len() + b.len() + 1);
    assert forall|k: int| 0 <= k < a.len() implies #[trigger] cs[k] == Candidate::Long(a[k] as usize) by {}
    assert forall|k: int| a.len() <= k < a.len() + b.len() implies #[trigger] cs[k] == Candidate::Short(
        b[k - a.len()] as usize,
    ) by {}
    if i < a.len() {
        assert(a[i] < raw.len());
        if j < a.len() {
            assert(a[i] < a[j]);
        }
    } else {
        assert(b[i - a.len()] < raw.len());
        if j < a.len() + b.len() {
            assert(b[i - a.len()] < b[j - a.len()]);
        }
    }
}

/// Every place in the content with the byte of a report is a candidate.
pub proof fn every_report_is_a_candidate(raw: Seq<u8>, i: int)
    requires
        raw.len() <= usize::MAX,
        in_content(raw, i),
    ensures
        raw[i] == 0x83 ==> candidates(raw).contains(Candidate::Long(i as usize)),
        raw[i] == 0x0A ==> candidates(raw).contains(Candidate::Short(i as usize)),
{
    let start = raw.len() - sds_body(raw).len();
    lemma_places(raw, start, 0x83);
    lemma_places(raw, start, 0x0A);
    let a = places(raw, start, 0x83);
    let b = places(raw, start, 0x0A);
    let cs = candidates(raw);
    if raw[i] == 0x83 {
        assert(a.contains(i));
        let k = choose|k: int| 0 <= k < a.len() && a[k] == i;
        assert(cs[k] == Candidate::Long(i as usize));
    }
    if raw[i] == 0x0A {
        assert(b.contains(i));
        let k = choose|k: int| 0 <= k < b.len() && b[k] == i;
        assert(cs[a.len() + k] == Candidate::Short(i as usize));
    }
}

/// The position of a frame is that of the first candidate that was decoded, under a note that says how
/// it was found; there is none where no candidate was decoded.
pub proof fn first_decoded_candidate_counts(
    raw: Seq<u8>,
    decoded: Seq<Option<LatLon>>,
    from: int,
    k: int,
)
    requires
        0 <= from <= k < candidates(raw).len(),
        k < decoded.len(),
        decoded[k] is Some,
        forall|j: int| from <= j < k ==> (#[trigger] decoded[j]) is None,
    ensures
        first_decoded(raw, decoded, from) matches Some(p) && p.at == decoded[k]->0 && p.note == (
        match candidates(raw)[k] {
            Candidate::Long(_) => "LIP long location report"@,
            Candidate::Short(_) => "LIP short location report"@,
            Candidate::Text => trim(sds_text(raw)),
        }),
    decreases k - from,
{
    if from < k {
        assert(decoded[from] is None);
        first_decoded_candidate_counts(raw, decoded, from + 1, k);
    }
}

/// Where no candidate was decoded there is no position.
pub proof fn nothing_decoded_is_no_position(raw: Seq<u8>, decoded: Seq<Option<LatLon>>, from: int)
    requires
        0 <= from,
        forall|j: int| from <= j < decoded.len() ==> (#[trigger] decoded[j]) is None,
    ensures
        first_decoded(raw, decoded, from) is None,
    decreases decoded.len() - from,
{
    if from < decoded.len() && from < candidates(raw).len() {
        assert(decoded[from] is None);
        nothing_decoded_is_no_position(raw, decoded, from + 1);
    }
}

/// The text of a frame has one character for each byte of the content: the byte where it is printable,
/// and a space where it is not.
pub proof fn text_of_content(raw: Seq<u8>, i: int)
    requires
        in_content(raw, i),
    ensures
        ({
            let k = if raw.len() > 20 {
                i - 20
            } else {
                i
            };
            &&& sds_text(raw).len() == (if raw.len() > 20 {
                raw.len() - 20
            } else {
                raw.len() as int
            })
            &&& sds_text(raw)[k] == (if 0x20 <= raw[i] <= 0x7e {
                raw[i] as char
            } else {
                ' '
            })
        }),
{
}

// ---- dumps ----

/// A dump has two hexadecimal digits for each byte, with a space between each two; past the first
/// 64 bytes it only says how many more there are.
pub proof fn dump_has_the_first_bytes(a: Seq<u8>, b: u8, all: Seq<u8>)
    ensures
        dump(Seq::<u8>::empty()).len() == 0,
        a.len() == 0 ==> dump(a.push(b)) == hex(b as nat, 2),
        0 < a.len() < 64 ==> dump(a.push(b)) == dump(a) + seq![' '] + hex(b as nat, 2),
        all.len() > 64 ==> dump(all) == dump(all.take(64)) + " … (+"@ + decimal(
            (all.len() - 64) as nat,
        ) + " more)"@,
{
    assert(a.push(b).drop_last() =~= a);
    assert(a.push(b).last() == b);
}

} // verus!
